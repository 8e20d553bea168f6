use livemarkdown::wire::{
    create_document_request_from_json, create_document_response_json, escape_json, html_json,
    parse_create_document_request, parse_update_position_request, position_json,
    update_position_request_from_json,
};
use livemarkdown::CreateDocumentResponse;

#[test]
fn escaping_leaves_plain_text_alone() {
    assert_eq!(escape_json(""), "");
    assert_eq!(escape_json("1:1-1:1"), "1:1-1:1");
    assert_eq!(escape_json("plain text"), "plain text");
}

#[test]
fn escaping_quotes_backslashes_and_controls() {
    assert_eq!(escape_json("a\"b"), "a\\\"b");
    assert_eq!(escape_json("a\\b"), "a\\\\b");
    assert_eq!(escape_json("line\nbreak"), "line\\nbreak");
    assert_eq!(escape_json("tab\there"), "tab\\there");
    assert_eq!(escape_json("cr\rhere"), "cr\\rhere");
    assert_eq!(escape_json("bell\u{7}"), "bell\\u0007");
    assert_eq!(escape_json("\u{1f}"), "\\u001f");
}

#[test]
fn message_payloads_are_json_objects() {
    assert_eq!(position_json("2:1-2:10"), "{\"sourcepos\":\"2:1-2:10\"}");
    assert_eq!(html_json("<p>hi</p>"), "{\"html\":\"<p>hi</p>\"}");
    assert_eq!(
        html_json("<a href=\"x\">y</a>"),
        "{\"html\":\"<a href=\\\"x\\\">y</a>\"}"
    );
}

#[test]
fn response_serialization() {
    let resp = CreateDocumentResponse { id: "test-md-0a1b2c3d".to_string() };
    assert_eq!(
        create_document_response_json(&resp),
        "{\"id\":\"test-md-0a1b2c3d\"}"
    );
}

#[test]
fn parses_well_formed_requests() {
    let req = parse_create_document_request("{\"filepath\": \"/path/to/test.md\"}").unwrap();
    assert_eq!(req.filepath, "/path/to/test.md");

    let req = parse_create_document_request("  { \"filepath\" : \"/a\" }  ").unwrap();
    assert_eq!(req.filepath, "/a");

    let req = parse_update_position_request("{\"sourcepos\": \"1:1-2:5\"}").unwrap();
    assert_eq!(req.sourcepos, "1:1-2:5");
}

#[test]
fn parses_escapes_in_requests() {
    let req = parse_create_document_request("{\"filepath\": \"a\\\"b\\\\c\\n\"}").unwrap();
    assert_eq!(req.filepath, "a\"b\\c\n");
    let req = parse_create_document_request("{\"filepath\": \"a\\/b\"}").unwrap();
    assert_eq!(req.filepath, "a/b");
}

#[test]
fn rejects_malformed_requests() {
    assert!(parse_create_document_request("{\"invalid\": \"json\"}").is_none());
    assert!(parse_create_document_request("").is_none());
    assert!(parse_create_document_request("{\"filepath\": }").is_none());
    assert!(parse_create_document_request("{\"filepath\": \"unterminated").is_none());
    assert!(parse_create_document_request(
        "{\"filepath\": \"/valid/path.md\", \"extra\": \"field\", invalid json"
    )
    .is_none());
    assert!(parse_update_position_request("{\"filepath\": \"/x\"}").is_none());
}

#[test]
fn malformed_requests_degrade_to_sentinel() {
    // The leniency contract: a malformed body becomes the sentinel value
    // instead of a rejection.
    let req = create_document_request_from_json("{\"invalid\": \"json\"}");
    assert_eq!(req.filepath, "unknown");
    let req = create_document_request_from_json("{\"filepath\": \"\"}");
    assert_eq!(req.filepath, "");
    let req = update_position_request_from_json("{\"invalid\": \"json\"}");
    assert_eq!(req.sourcepos, "unknown");
    let req = update_position_request_from_json("{\"sourcepos\": \"1:1-2:5\"}");
    assert_eq!(req.sourcepos, "1:1-2:5");
}
