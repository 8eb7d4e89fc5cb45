use repo_settings_sync::api::pagination::{
    follow_link, get_pagination_data, parse_link_header, PaginationData, PaginationError,
};
use reqwest::header::{HeaderMap, HeaderName, HeaderValue, CONTENT_TYPE, LINK};

#[test]
fn no_header_means_no_next_page() {
    let mut headers = HeaderMap::new();
    assert_eq!(get_pagination_data(&headers), Ok(PaginationData { next: None }));
    headers.insert(CONTENT_TYPE, HeaderValue::from_static("application/json"));
    assert_eq!(get_pagination_data(&headers), Ok(PaginationData { next: None }));
}

#[test]
fn link_header_is_read_from_the_map() {
    let mut headers = HeaderMap::new();
    headers.insert(CONTENT_TYPE, HeaderValue::from_static("application/json"));
    headers.insert(
        LINK,
        HeaderValue::from_static(
            "<https://api.github.com/orgs/o/repos?page=2>; rel=\"next\", \
             <https://api.github.com/orgs/o/repos?page=5>; rel=\"last\"",
        ),
    );
    assert_eq!(
        get_pagination_data(&headers),
        Ok(PaginationData {
            next: Some("https://api.github.com/orgs/o/repos?page=2".to_string())
        })
    );
}

#[test]
fn header_name_is_matched_without_regard_to_case() {
    let mut headers = HeaderMap::new();
    headers.insert(
        HeaderName::from_bytes(b"Link").unwrap(),
        HeaderValue::from_static("<https://a.example/2>; rel=\"next\""),
    );
    assert_eq!(
        get_pagination_data(&headers),
        Ok(PaginationData { next: Some("https://a.example/2".to_string()) })
    );
}

#[test]
fn only_the_first_link_header_counts() {
    let mut headers = HeaderMap::new();
    headers.append(LINK, HeaderValue::from_static("<https://a.example/2>; rel=\"next\""));
    headers.append(LINK, HeaderValue::from_static("<https://a.example/3>; rel=\"next\""));
    assert_eq!(
        get_pagination_data(&headers),
        Ok(PaginationData { next: Some("https://a.example/2".to_string()) })
    );
}

#[test]
fn header_that_is_no_text_is_rejected() {
    let mut headers = HeaderMap::new();
    headers.insert(LINK, HeaderValue::from_bytes(b"<https://a.example/\xe9>; rel=\"next\"").unwrap());
    assert_eq!(get_pagination_data(&headers), Err(PaginationError::HeaderNotText));
}

#[test]
fn rejection_passes_through_from_the_header_text() {
    let mut headers = HeaderMap::new();
    headers.insert(LINK, HeaderValue::from_static("<https://a.example/2>; rel=\"up\""));
    assert_eq!(
        get_pagination_data(&headers),
        Err(PaginationError::UnknownRel("rel=\"up\"".to_string()))
    );
}

#[test]
fn empty_header_means_no_next_page() {
    assert_eq!(parse_link_header(""), Ok(PaginationData { next: None }));
}

#[test]
fn two_next_links_are_rejected() {
    let header = "<https://api.github.com/user/repos?page=2>; rel=\"next\", \
                  <https://api.github.com/user/repos?page=3>; rel=\"next\"";
    assert_eq!(parse_link_header(header), Err(PaginationError::NextLinkFoundTwice));
}

#[test]
fn next_is_extracted_and_the_others_are_ignored() {
    let header = "<https://api.github.com/user/repos?page=1>; rel=\"prev\", \
                  <https://api.github.com/user/repos?page=3>; rel=\"next\", \
                  <https://api.github.com/user/repos?page=9>; rel=\"last\"";
    assert_eq!(
        parse_link_header(header),
        Ok(PaginationData { next: Some("https://api.github.com/user/repos?page=3".to_string()) })
    );
}

#[test]
fn first_and_last_alone_give_no_next_page() {
    let header = "<https://api.github.com/a?page=1>; rel=\"first\", \
                  <https://api.github.com/a?page=4>; rel=\"last\"";
    assert_eq!(parse_link_header(header), Ok(PaginationData { next: None }));
}

#[test]
fn unknown_relation_is_rejected() {
    let header = "<https://api.github.com/a?page=2>; rel=\"up\"";
    assert_eq!(
        parse_link_header(header),
        Err(PaginationError::UnknownRel("rel=\"up\"".to_string()))
    );
}

#[test]
fn the_target_is_written_out_by_the_url_parser() {
    let header = "<HTTPS://Example.COM>; rel=\"next\"";
    assert_eq!(
        parse_link_header(header),
        Ok(PaginationData { next: Some("https://example.com/".to_string()) })
    );
}

#[test]
fn entries_that_are_not_links_are_passed_over() {
    // One segment, three segments, no brackets, no URL: none counts, not
    // even with an unknown relation.
    let header = "<https://a.example/1>, \
                  <https://a.example/2>; rel=\"next\"; x, \
                  https://a.example/3; rel=\"next\", \
                  <not a url>; rel=\"bogus\", \
                  <>; rel=\"next\", \
                  <; rel=\"next\", \
                  <https://a.example/4>; rel=\"next\"";
    assert_eq!(
        parse_link_header(header),
        Ok(PaginationData { next: Some("https://a.example/4".to_string()) })
    );
}

#[test]
fn segments_are_trimmed() {
    let header = " \t<https://a.example/2> ;\u{a0} rel=\"next\"\u{2003}";
    assert_eq!(
        parse_link_header(header),
        Ok(PaginationData { next: Some("https://a.example/2".to_string()) })
    );
}

#[test]
fn relation_must_match_exactly() {
    let header = "<https://a.example/2>; rel=next";
    assert_eq!(
        parse_link_header(header),
        Err(PaginationError::UnknownRel("rel=next".to_string()))
    );
}

#[test]
fn rejection_comes_at_the_first_offending_entry() {
    let header = "<https://a.example/2>; rel=\"up\", <https://a.example/3>; rel=\"down\"";
    assert_eq!(
        parse_link_header(header),
        Err(PaginationError::UnknownRel("rel=\"up\"".to_string()))
    );
}

#[test]
fn follow_link_cases() {
    let url = Some("https://a.example/2".to_string());
    assert_eq!(follow_link(None, "rel=\"next\"", url.clone()), Ok(url.clone()));
    assert_eq!(
        follow_link(url.clone(), "rel=\"next\"", url.clone()),
        Err(PaginationError::NextLinkFoundTwice)
    );
    assert_eq!(follow_link(url.clone(), "rel=\"next\"", None), Ok(url.clone()));
    assert_eq!(follow_link(None, "rel=\"prev\"", url.clone()), Ok(None));
    assert_eq!(follow_link(None, "rel=\"first\"", url.clone()), Ok(None));
    assert_eq!(follow_link(url.clone(), "rel=\"last\"", url.clone()), Ok(url.clone()));
    assert_eq!(
        follow_link(None, "nope", url.clone()),
        Err(PaginationError::UnknownRel("nope".to_string()))
    );
    assert_eq!(follow_link(None, "nope", None), Ok(None));
}

#[test]
fn pagination_error_messages() {
    assert_eq!(PaginationError::NextLinkFoundTwice.message(), "next link found twice");
    assert_eq!(
        PaginationError::UnknownRel("rel=\"up\"".to_string()).message(),
        "unknown rel: rel=\"up\""
    );
    assert_eq!(PaginationError::HeaderNotText.message(), "failed to convert header to a str");
}
