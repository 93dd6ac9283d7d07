//! Identifier resolution: classify an input URL by source family and
//! extract the canonical auction identifier.

use vstd::prelude::*;
use vstd::string::StrSliceExecFns;

use crate::errors::JobError;
use crate::text::{
    contains_sub, find_sub, find_substring, match_at, lemma_trim_of_padded, trim_trailing,
    trim_trailing_char,
};

verus! {

/// The path marker that classifies a URL as `FamilyA` and precedes its
/// identifier segment.
pub open spec fn family_a_marker() -> Seq<char> {
    "/input/"@
}

/// The recognized source families; `Other` is the stated extension point.
#[derive(Debug, Clone, Copy, PartialEq, Eq, Structural)]
pub enum SourceFamily {
    FamilyA,
    Other,
}

/// A resolved input URL: the raw text, the canonical identifier, and the
/// family it was classified under.
#[derive(Debug, Clone, PartialEq)]
pub struct AuctionReference {
    pub raw_url: String,
    pub canonical_id: String,
    pub source_family: SourceFamily,
}

/// A URL is `FamilyA` when it carries the known path marker.
pub open spec fn is_family_a(url: Seq<char>) -> bool {
    contains_sub(url, family_a_marker())
}

/// The identifier of a `FamilyA` URL: everything after the first marker
/// occurrence, with trailing path separators stripped; nothing when the
/// marker is absent.
pub open spec fn family_a_id(url: Seq<char>) -> Option<Seq<char>> {
    match find_sub(url, family_a_marker()) {
        Some(i) => Some(
            trim_trailing(url.subrange(i + family_a_marker().len() as int, url.len() as int), '/'),
        ),
        None => None,
    }
}

/// What resolution yields on any input: the identifier for a `FamilyA`
/// URL that carries the marker, and exactly one error otherwise.
pub open spec fn resolved(url: Seq<char>) -> Result<Seq<char>, JobError> {
    if is_family_a(url) {
        match family_a_id(url) {
            Some(id) => Ok(id),
            None => Err(JobError::IdentifierNotFound),
        }
    } else {
        Err(JobError::UnsupportedSource)
    }
}

/// Extract the identifier that follows the `FamilyA` marker, stripping
/// trailing slashes; fails when the marker is absent.
pub fn extract_auction_id_from_fromjapan(url: &str) -> (r: Result<String, JobError>)
    ensures
        match r {
            Ok(id) => family_a_id(url@) == Some(id@),
            Err(e) => e == JobError::IdentifierNotFound && family_a_id(url@) is None,
        },
{
    proof {
        reveal_strlit("/input/");
    }
    match find_substring(url, "/input/") {
        Some(i) => {
            let n: usize = url.unicode_len();
            let tail = url.substring_char(i + 7, n);
            let id = trim_trailing_char(tail, '/');
            Ok(id.to_owned())
        },
        None => Err(JobError::IdentifierNotFound),
    }
}

/// The extension point for URLs outside the recognized family: resolution
/// is an explicit, catchable failure, never a crash.
pub fn extract_auction_id_from_other(url: &str) -> (r: Result<String, JobError>)
    ensures
        r == Err::<String, JobError>(JobError::UnsupportedSource),
{
    let _ = url;
    Err(JobError::UnsupportedSource)
}

/// Classify a URL by substring match against the known source families.
pub fn classify_source(url: &str) -> (f: SourceFamily)
    ensures
        f == (if is_family_a(url@) {
            SourceFamily::FamilyA
        } else {
            SourceFamily::Other
        }),
{
    proof {
        reveal_strlit("/input/");
    }
    match find_substring(url, "/input/") {
        Some(_) => SourceFamily::FamilyA,
        None => SourceFamily::Other,
    }
}

/// Resolve an input URL to a canonical auction reference, or fail with
/// the one error `resolved` assigns to it.
pub fn resolve(url: &str) -> (r: Result<AuctionReference, JobError>)
    ensures
        match r {
            Ok(ar) => {
                &&& resolved(url@) == Ok::<Seq<char>, JobError>(ar.canonical_id@)
                &&& ar.raw_url@ == url@
                &&& ar.source_family == SourceFamily::FamilyA
            },
            Err(e) => resolved(url@) == Err::<Seq<char>, JobError>(e),
        },
{
    match classify_source(url) {
        SourceFamily::FamilyA => match extract_auction_id_from_fromjapan(url) {
            Ok(id) => Ok(
                AuctionReference {
                    raw_url: url.to_owned(),
                    canonical_id: id,
                    source_family: SourceFamily::FamilyA,
                },
            ),
            Err(e) => Err(e),
        },
        SourceFamily::Other => match extract_auction_id_from_other(url) {
            Ok(id) => Ok(
                AuctionReference {
                    raw_url: url.to_owned(),
                    canonical_id: id,
                    source_family: SourceFamily::Other,
                },
            ),
            Err(e) => Err(e),
        },
    }
}

/// Appending trailing slashes to a `FamilyA` URL never changes the
/// resolved identifier: a URL of the form `prefix + marker + id + "//"`
/// always resolves to `id` itself, for any number of trailing slashes,
/// provided the marker occurs nowhere before `prefix`'s end and `id` does
/// not itself end in a slash.
pub proof fn lemma_resolver_ignores_trailing_slashes(
    prefix: Seq<char>,
    id: Seq<char>,
    pad: Seq<char>,
)
    requires
        forall|k: int|
            0 <= k < prefix.len() ==> !match_at(
                prefix + family_a_marker() + id + pad,
                family_a_marker(),
                k,
            ),
        id.len() == 0 || id.last() != '/',
        forall|k: int| 0 <= k < pad.len() ==> pad[k] == '/',
    ensures
        family_a_id(prefix + family_a_marker() + id + pad) == Some(id),
{
    let url = prefix + family_a_marker() + id + pad;
    let m = family_a_marker().len() as int;
    let p = prefix.len() as int;
    assert(url.subrange(p, p + m) =~= family_a_marker());
    reveal_strlit("/input/");
    assert(match_at(url, family_a_marker(), p));
    crate::text::lemma_find_sub_at(url, family_a_marker(), p);
    assert(url.subrange(p + m, url.len() as int) =~= id + pad);
    lemma_trim_of_padded(id, pad, '/');
}

} // verus!
