use auction_stage::errors::JobError;
use auction_stage::json::{
    extract_image_urls_from_json, extract_json_data, get_field, JsonValue,
};

fn obj(fields: Vec<(&str, JsonValue)>) -> JsonValue {
    JsonValue::Obj(
        fields
            .into_iter()
            .map(|(k, v)| (k.to_string(), v))
            .collect(),
    )
}

fn image_entry(url: &str) -> JsonValue {
    obj(vec![("image", JsonValue::Str(url.to_string()))])
}

/// A blob carrying the full nested path down to the given image array.
fn blob_with_entries(entries: Vec<JsonValue>) -> JsonValue {
    obj(vec![(
        "props",
        obj(vec![(
            "pageProps",
            obj(vec![(
                "initialState",
                obj(vec![(
                    "itempage",
                    obj(vec![(
                        "item",
                        obj(vec![("item", obj(vec![("img", JsonValue::Arr(entries))]))]),
                    )]),
                )]),
            )]),
        )]),
    )])
}

#[test]
fn get_field_finds_the_first_match() {
    let v = obj(vec![
        ("a", JsonValue::Num("1".to_string())),
        ("b", JsonValue::Bool(true)),
        ("a", JsonValue::Null),
    ]);
    assert_eq!(get_field(&v, "a"), Some(&JsonValue::Num("1".to_string())));
    assert_eq!(get_field(&v, "b"), Some(&JsonValue::Bool(true)));
    assert_eq!(get_field(&v, "c"), None);
    assert_eq!(get_field(&JsonValue::Null, "a"), None);
}

#[test]
fn extracts_every_valid_entry_in_order() {
    let blob = blob_with_entries(vec![
        image_entry("https://img.example/1.jpg"),
        image_entry("https://img.example/2.jpg"),
        image_entry("https://img.example/3.jpg"),
    ]);
    let urls = extract_image_urls_from_json(&blob);
    assert_eq!(
        urls,
        vec![
            "https://img.example/1.jpg".to_string(),
            "https://img.example/2.jpg".to_string(),
            "https://img.example/3.jpg".to_string(),
        ]
    );
}

#[test]
fn entries_without_a_string_image_field_contribute_nothing() {
    let blob = blob_with_entries(vec![
        image_entry("https://img.example/1.jpg"),
        obj(vec![("thumbnail", JsonValue::Str("x".to_string()))]),
        obj(vec![("image", JsonValue::Num("7".to_string()))]),
        image_entry("https://img.example/2.jpg"),
    ]);
    let urls = extract_image_urls_from_json(&blob);
    assert_eq!(
        urls,
        vec![
            "https://img.example/1.jpg".to_string(),
            "https://img.example/2.jpg".to_string(),
        ]
    );
}

#[test]
fn missing_nested_path_yields_the_empty_sequence() {
    let blob = obj(vec![(
        "props",
        obj(vec![("pageProps", obj(vec![("somethingElse", JsonValue::Null)]))]),
    )]);
    assert_eq!(extract_image_urls_from_json(&blob), Vec::<String>::new());
    assert_eq!(extract_image_urls_from_json(&JsonValue::Null), Vec::<String>::new());
}

#[test]
fn non_array_at_the_path_yields_the_empty_sequence() {
    let blob = obj(vec![(
        "props",
        obj(vec![(
            "pageProps",
            obj(vec![(
                "initialState",
                obj(vec![(
                    "itempage",
                    obj(vec![(
                        "item",
                        obj(vec![("item", obj(vec![("img", JsonValue::Str("no".to_string()))]))]),
                    )]),
                )]),
            )]),
        )]),
    )]);
    assert_eq!(extract_image_urls_from_json(&blob), Vec::<String>::new());
}

#[test]
fn extract_json_data_reads_the_embedded_script() {
    let html = "<html><head>\
                <script id=\"other\">not this one</script>\
                <script id=\"__NEXT_DATA__\">{\"props\":{\"k\":true}}</script>\
                </head><body></body></html>";
    let v = extract_json_data(html).unwrap();
    let props = get_field(&v, "props").unwrap();
    assert_eq!(get_field(props, "k"), Some(&JsonValue::Bool(true)));
}

#[test]
fn missing_script_element_is_an_extraction_error() {
    let html = "<html><body><p>no embedded data here</p></body></html>";
    let r = extract_json_data(html);
    assert!(matches!(r, Err(JobError::ExtractionError)));
}

#[test]
fn malformed_embedded_data_is_a_parse_error() {
    let html = "<html><head><script id=\"__NEXT_DATA__\">{not json!</script></head></html>";
    let r = extract_json_data(html);
    assert!(matches!(r, Err(JobError::ParseError)));
}

#[test]
fn parsed_values_come_back_as_the_model() {
    let html = "<html><head><script id=\"__NEXT_DATA__\">\
                {\"n\":null,\"b\":false,\"num\":12,\"s\":\"text\",\"a\":[1,2]}\
                </script></head></html>";
    let v = extract_json_data(html).unwrap();
    assert_eq!(get_field(&v, "n"), Some(&JsonValue::Null));
    assert_eq!(get_field(&v, "b"), Some(&JsonValue::Bool(false)));
    assert_eq!(get_field(&v, "num"), Some(&JsonValue::Num("12".to_string())));
    assert_eq!(get_field(&v, "s"), Some(&JsonValue::Str("text".to_string())));
    assert_eq!(
        get_field(&v, "a"),
        Some(&JsonValue::Arr(vec![
            JsonValue::Num("1".to_string()),
            JsonValue::Num("2".to_string()),
        ]))
    );
}
