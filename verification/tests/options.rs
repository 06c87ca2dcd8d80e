use hubcaps::encode::{dec_string, percent_encode};
use hubcaps::query::QueryParams;
use hubcaps::search::{IssuesSort, SearchIssuesOptions};
use hubcaps::SortDirection;

#[test]
fn serialize_none_when_empty() {
    let options = SearchIssuesOptions::builder().build();
    assert!(options.serialize().is_none());
}

#[test]
fn serialize_single_option() {
    let options = SearchIssuesOptions::builder().per_page(50).build();
    assert_eq!(options.serialize(), Some("per_page=50".to_string()));
}

#[test]
fn serialize_keeps_insertion_order() {
    let options = SearchIssuesOptions::builder()
        .sort(IssuesSort::Comments)
        .order(SortDirection::Desc)
        .per_page(50)
        .build();
    assert_eq!(
        options.serialize(),
        Some("sort=comments&order=desc&per_page=50".to_string())
    );
}

#[test]
fn serialize_last_write_wins() {
    let options = SearchIssuesOptions::builder()
        .sort(IssuesSort::Created)
        .per_page(50)
        .sort(IssuesSort::Updated)
        .build();
    assert_eq!(
        options.serialize(),
        Some("sort=updated&per_page=50".to_string())
    );
}

#[test]
fn params_encode_keys_and_values() {
    let mut params = QueryParams::new();
    params.set("q space", "a&b=c \u{fc}".to_string());
    let serialized = params.serialize().unwrap();
    assert_eq!(serialized, "q%20space=a%26b%3Dc%20%C3%BC");
}

#[test]
fn params_empty_serializes_to_nothing() {
    let params = QueryParams::new();
    assert!(params.serialize().is_none());
}

#[test]
fn percent_encode_leaves_unreserved_bytes() {
    let encoded = percent_encode("AZaz09-._~");
    assert_eq!(encoded, "AZaz09-._~");
}

#[test]
fn percent_encode_escapes_reserved_bytes() {
    assert_eq!(percent_encode("repo:foo/bar is:open"), "repo%3Afoo%2Fbar%20is%3Aopen");
}

#[test]
fn dec_string_renders_decimal() {
    assert_eq!(dec_string(0), "0");
    assert_eq!(dec_string(7), "7");
    assert_eq!(dec_string(1234567890), "1234567890");
}

#[test]
fn sort_tokens() {
    assert_eq!(IssuesSort::Created.token(), "created");
    assert_eq!(IssuesSort::Updated.token(), "updated");
    assert_eq!(IssuesSort::Comments.token(), "comments");
}

#[test]
fn direction_tokens() {
    assert_eq!(SortDirection::Asc.token(), "asc");
    assert_eq!(SortDirection::Desc.token(), "desc");
}
