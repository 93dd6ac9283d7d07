//! The library's model of the embedded structured-data blob, the trusted
//! bridge to the HTML/JSON parsing crates, and the verified extraction of
//! image URLs along the fixed nested field path.

use vstd::prelude::*;

use crate::errors::JobError;
use crate::text::str_eq;

verus! {

/// A JSON-like tree of plain values. Numbers are carried as their decimal
/// text; object fields keep their order, and lookup takes the first match.
#[derive(Debug, PartialEq)]
pub enum JsonValue {
    Null,
    Bool(bool),
    Num(String),
    Str(String),
    Arr(Vec<JsonValue>),
    Obj(Vec<(String, JsonValue)>),
}

/// The first field named `key`, if any.
pub open spec fn obj_lookup(fields: Seq<(String, JsonValue)>, key: Seq<char>) -> Option<JsonValue>
    decreases fields.len(),
{
    if fields.len() == 0 {
        None
    } else if fields[0].0@ == key {
        Some(fields[0].1)
    } else {
        obj_lookup(fields.drop_first(), key)
    }
}

/// Field lookup: something only on an object that carries the key.
pub open spec fn json_get(v: JsonValue, key: Seq<char>) -> Option<JsonValue> {
    match v {
        JsonValue::Obj(fields) => obj_lookup(fields@, key),
        _ => None,
    }
}

/// Look up a field of a JSON value by key.
pub fn get_field<'a>(v: &'a JsonValue, key: &str) -> (r: Option<&'a JsonValue>)
    ensures
        match r {
            Some(w) => json_get(*v, key@) == Some(*w),
            None => json_get(*v, key@) is None,
        },
{
    match v {
        JsonValue::Obj(fields) => {
            let n = fields.len();
            assert(fields@.skip(0) =~= fields@);
            for i in 0..n
                invariant
                    n == fields.len(),
                    json_get(*v, key@) == obj_lookup(fields@.skip(i as int), key@),
            {
                proof {
                    assert(fields@.skip(i as int)[0] == fields@[i as int]);
                    assert(fields@.skip(i as int).drop_first() =~= fields@.skip(i + 1));
                }
                if str_eq(fields[i].0.as_str(), key) {
                    proof {
                        assert(fields@.skip(i as int)[0].0@ == key@);
                        assert(obj_lookup(fields@.skip(i as int), key@) == Some(
                            fields@[i as int].1,
                        ));
                    }
                    return Some(&fields[i].1);
                }
            }
            assert(fields@.skip(n as int) =~= Seq::<(String, JsonValue)>::empty());
            None
        },
        _ => None,
    }
}

/// The embedded image array: what sits behind the fixed nested field path
/// `props, pageProps, initialState, itempage, item, item, img`,
/// provided it is an array.
pub open spec fn image_array(v: JsonValue) -> Option<Seq<JsonValue>> {
    match json_get(v, "props"@) {
        Some(v1) => match json_get(v1, "pageProps"@) {
            Some(v2) => match json_get(v2, "initialState"@) {
                Some(v3) => match json_get(v3, "itempage"@) {
                    Some(v4) => match json_get(v4, "item"@) {
                        Some(v5) => match json_get(v5, "item"@) {
                            Some(v6) => match json_get(v6, "img"@) {
                                Some(JsonValue::Arr(entries)) => Some(entries@),
                                _ => None,
                            },
                            None => None,
                        },
                        None => None,
                    },
                    None => None,
                },
                None => None,
            },
            None => None,
        },
        None => None,
    }
}

/// The source URL of one image descriptor: its `image` field, provided
/// that field is a string.
pub open spec fn entry_image(e: JsonValue) -> Option<Seq<char>> {
    match json_get(e, "image"@) {
        Some(JsonValue::Str(s)) => Some(s@),
        _ => None,
    }
}

/// The URLs of the descriptors that carry a string `image` field, in
/// array order; descriptors without one contribute nothing.
pub open spec fn urls_of_entries(entries: Seq<JsonValue>) -> Seq<Seq<char>>
    decreases entries.len(),
{
    if entries.len() == 0 {
        Seq::empty()
    } else {
        urls_of_entries(entries.drop_last()) + (match entry_image(entries.last()) {
            Some(u) => seq![u],
            None => Seq::<Seq<char>>::empty(),
        })
    }
}

/// All image URLs a blob yields: those of its embedded image array, and
/// none at all when the expected nested path is absent.
pub open spec fn spec_image_urls(v: JsonValue) -> Seq<Seq<char>> {
    match image_array(v) {
        Some(entries) => urls_of_entries(entries),
        None => Seq::empty(),
    }
}

/// Extract the image source URLs along the fixed nested field path. A
/// missing path or a non-array there is no error: the result is simply
/// empty, distinguishing "shape unexpected" from hard failures.
pub fn extract_image_urls_from_json(v: &JsonValue) -> (urls: Vec<String>)
    ensures
        urls.deep_view() == spec_image_urls(*v),
{
    let empty: Vec<String> = Vec::new();
    assert(empty.deep_view() =~= Seq::<Seq<char>>::empty());
    let v1 = match get_field(v, "props") {
        Some(w) => w,
        None => {
            return empty;
        },
    };
    let v2 = match get_field(v1, "pageProps") {
        Some(w) => w,
        None => {
            return empty;
        },
    };
    let v3 = match get_field(v2, "initialState") {
        Some(w) => w,
        None => {
            return empty;
        },
    };
    let v4 = match get_field(v3, "itempage") {
        Some(w) => w,
        None => {
            return empty;
        },
    };
    let v5 = match get_field(v4, "item") {
        Some(w) => w,
        None => {
            return empty;
        },
    };
    let v6 = match get_field(v5, "item") {
        Some(w) => w,
        None => {
            return empty;
        },
    };
    let v7 = match get_field(v6, "img") {
        Some(w) => w,
        None => {
            return empty;
        },
    };
    let entries = match v7 {
        JsonValue::Arr(entries) => entries,
        _ => {
            return empty;
        },
    };
    let mut urls: Vec<String> = Vec::new();
    let n = entries.len();
    assert(entries@.take(0) =~= Seq::<JsonValue>::empty());
    assert(urls.deep_view() =~= urls_of_entries(entries@.take(0)));
    for i in 0..n
        invariant
            n == entries.len(),
            image_array(*v) == Some(entries@),
            urls.deep_view() == urls_of_entries(entries@.take(i as int)),
    {
        proof {
            assert(entries@.take(i + 1).drop_last() =~= entries@.take(i as int));
            assert(entries@.take(i + 1).last() == entries@[i as int]);
        }
        let ghost prev = urls.deep_view();
        match get_field(&entries[i], "image") {
            Some(JsonValue::Str(s)) => {
                urls.push(s.clone());
                proof {
                    assert(urls.deep_view() =~= prev + seq![s@]);
                }
            },
            _ => {
                proof {
                    assert(urls.deep_view() =~= prev);
                }
            },
        }
    }
    proof {
        assert(entries@.take(n as int) =~= entries@);
    }
    urls
}

/// When every descriptor of the embedded image array carries a string
/// `image` field, extraction yields exactly one URL per descriptor, in
/// array order.
pub proof fn lemma_every_valid_entry_extracted(v: JsonValue, entries: Seq<JsonValue>)
    requires
        image_array(v) == Some(entries),
        forall|i: int| 0 <= i < entries.len() ==> (#[trigger] entry_image(entries[i])) is Some,
    ensures
        spec_image_urls(v).len() == entries.len(),
        forall|i: int|
            0 <= i < entries.len() ==> #[trigger] spec_image_urls(v)[i] == entry_image(
                entries[i],
            ).unwrap(),
{
    lemma_urls_of_valid_entries(entries);
}

proof fn lemma_urls_of_valid_entries(entries: Seq<JsonValue>)
    requires
        forall|i: int| 0 <= i < entries.len() ==> (#[trigger] entry_image(entries[i])) is Some,
    ensures
        urls_of_entries(entries).len() == entries.len(),
        forall|i: int|
            0 <= i < entries.len() ==> #[trigger] urls_of_entries(entries)[i] == entry_image(
                entries[i],
            ).unwrap(),
    decreases entries.len(),
{
    if entries.len() > 0 {
        lemma_urls_of_valid_entries(entries.drop_last());
    }
}

/// A blob in which the expected nested path is absent yields no image
/// URLs at all: the soft-failure result is exactly the empty sequence.
pub proof fn lemma_missing_path_yields_empty(v: JsonValue)
    requires
        image_array(v) is None,
    ensures
        spec_image_urls(v) == Seq::<Seq<char>>::empty(),
{
}

/// What the fixed CSS selector for the embedded structured-data element
/// reads as.
pub open spec fn data_selector() -> Seq<char> {
    "script#__NEXT_DATA__"@
}

/// The text content of the first element a CSS selector picks out of a
/// document, as a function of the document and selector texts.
pub uninterp spec fn selected_text_of(html: Seq<char>, selector: Seq<char>) -> Option<Seq<char>>;

/// The tree a text parses to as JSON, if it is valid.
pub uninterp spec fn json_of(text: Seq<char>) -> Option<JsonValue>;

/// Relies on scraper's `Selector::parse`, `Html::parse_document`,
/// `Html::select` and `ElementRef::text`: the collected text of the first
/// element matching a CSS selector depends on the document text and the
/// selector text alone.
#[verifier::external_body]
fn select_first_text(html: &str, selector: &str) -> (r: Option<String>)
    ensures
        r matches Some(t) ==> selected_text_of(html@, selector@) == Some(t@),
        r is None ==> selected_text_of(html@, selector@) is None,
{
    let sel = match scraper::Selector::parse(selector) {
        Ok(sel) => sel,
        Err(_) => return None,
    };
    let doc = scraper::Html::parse_document(html);
    let el = doc.select(&sel).next()?;
    Some(el.text().collect::<String>())
}

/// Relies on `serde_json::Value`'s variants: rebuilds the parsed tree as
/// the library's own, one variant for one, numbers as their decimal text.
#[verifier::external_body]
fn json_value_from(v: serde_json::Value) -> JsonValue {
    match v {
        serde_json::Value::Null => JsonValue::Null,
        serde_json::Value::Bool(b) => JsonValue::Bool(b),
        serde_json::Value::Number(n) => JsonValue::Num(n.to_string()),
        serde_json::Value::String(s) => JsonValue::Str(s),
        serde_json::Value::Array(a) => JsonValue::Arr(a.into_iter().map(json_value_from).collect()),
        serde_json::Value::Object(m) => JsonValue::Obj(
            m.into_iter().map(|p| (p.0, json_value_from(p.1))).collect(),
        ),
    }
}

/// Relies on `serde_json::from_str`: whether a text is valid JSON, and
/// the tree it parses to, depend on the text alone.
#[verifier::external_body]
fn parse_json(text: &str) -> (r: Option<JsonValue>)
    ensures
        r == json_of(text@),
{
    match serde_json::from_str::<serde_json::Value>(text) {
        Ok(v) => Some(json_value_from(v)),
        Err(_) => None,
    }
}

/// Declares `serde_json::Value` so the conversion above may take it;
/// the library never looks inside a value of it.
#[verifier::external_type_specification]
#[verifier::external_body]
pub struct ExJsonValue(serde_json::Value);

/// What fetching the embedded blob out of a listing page yields on any
/// HTML text: the parsed tree, or the one error assigned to its absence
/// or malformedness.
pub open spec fn extracted_json(html: Seq<char>) -> Result<JsonValue, JobError> {
    match selected_text_of(html, data_selector()) {
        Some(t) => match json_of(t) {
            Some(v) => Ok(v),
            None => Err(JobError::ParseError),
        },
        None => Err(JobError::ExtractionError),
    }
}

/// Pick the embedded structured-data element out of a listing page and
/// parse its text as JSON.
pub fn extract_json_data(html: &str) -> (r: Result<JsonValue, JobError>)
    ensures
        r == extracted_json(html@),
{
    match select_first_text(html, "script#__NEXT_DATA__") {
        None => Err(JobError::ExtractionError),
        Some(text) => match parse_json(text.as_str()) {
            Some(v) => Ok(v),
            None => Err(JobError::ParseError),
        },
    }
}

} // verus!
