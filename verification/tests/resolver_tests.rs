use auction_stage::errors::JobError;
use auction_stage::resolver::{
    classify_source, extract_auction_id_from_fromjapan, extract_auction_id_from_other, resolve,
    SourceFamily,
};

#[test]
fn extracts_id_after_marker() {
    let url = "https://www.fromjapan.co.jp/auction/en/input/s1122334455/";
    let id = extract_auction_id_from_fromjapan(url).unwrap();
    assert_eq!(id, "s1122334455");
}

#[test]
fn extracts_id_without_trailing_slash() {
    let url = "https://host/auction/input/x112";
    let id = extract_auction_id_from_fromjapan(url).unwrap();
    assert_eq!(id, "x112");
}

#[test]
fn trailing_slashes_do_not_change_the_id() {
    let bare = extract_auction_id_from_fromjapan("https://host/input/s112").unwrap();
    let one = extract_auction_id_from_fromjapan("https://host/input/s112/").unwrap();
    let many = extract_auction_id_from_fromjapan("https://host/input/s112////").unwrap();
    assert_eq!(bare, "s112");
    assert_eq!(one, "s112");
    assert_eq!(many, "s112");
}

#[test]
fn missing_marker_is_identifier_not_found() {
    let r = extract_auction_id_from_fromjapan("https://www.fromjapan.co.jp/auction/en/");
    assert!(matches!(r, Err(JobError::IdentifierNotFound)));
}

#[test]
fn other_family_is_unsupported_source() {
    let r = extract_auction_id_from_other("https://elsewhere.example/listing/42");
    assert!(matches!(r, Err(JobError::UnsupportedSource)));
}

#[test]
fn classifies_by_the_path_marker() {
    assert_eq!(
        classify_source("https://www.fromjapan.co.jp/auction/en/input/s112/"),
        SourceFamily::FamilyA
    );
    assert_eq!(
        classify_source("https://host/auction/input/s112/"),
        SourceFamily::FamilyA
    );
    assert_eq!(classify_source("https://example.com/x"), SourceFamily::Other);
}

#[test]
fn resolve_builds_the_reference() {
    let ar = resolve("https://www.fromjapan.co.jp/auction/en/input/s112/").unwrap();
    assert_eq!(ar.canonical_id, "s112");
    assert_eq!(ar.raw_url, "https://www.fromjapan.co.jp/auction/en/input/s112/");
    assert_eq!(ar.source_family, SourceFamily::FamilyA);
}

#[test]
fn resolve_rejects_unrecognized_sources() {
    let r = resolve("https://example.com/listing/42");
    assert!(matches!(r, Err(JobError::UnsupportedSource)));
}

#[test]
fn resolve_rejects_any_url_without_the_marker() {
    let r = resolve("https://www.fromjapan.co.jp/auction/en/");
    assert!(matches!(r, Err(JobError::UnsupportedSource)));
}
