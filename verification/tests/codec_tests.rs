use bookmark_capture::parse_bookmarks;
use bookmark_capture::process_bookmarks;
use bookmark_capture::serialize_bookmarks;
use bookmark_capture::serialize_children;
use bookmark_capture::Bookmarks;
use bookmark_capture::Child;
use bookmark_capture::Folder;
use bookmark_capture::MetaInfo;
use bookmark_capture::ParseError;
use bookmark_capture::Roots;

fn folder(name: &str, children: Vec<Child>) -> Folder {
    Folder {
        children,
        date_added: b"13350000000000000".to_vec(),
        date_last_used: b"0".to_vec(),
        date_modified: None,
        guid: b"folder-guid".to_vec(),
        id: b"1".to_vec(),
        meta_info: None,
        name: name.as_bytes().to_vec(),
        type_: b"folder".to_vec(),
        url: None,
    }
}

fn bookmark(url: &str) -> Child {
    Child::Bookmark {
        date_added: b"13350000000000001".to_vec(),
        date_last_used: b"0".to_vec(),
        date_modified: None,
        guid: b"bookmark-guid".to_vec(),
        id: b"2".to_vec(),
        name: b"a bookmark".to_vec(),
        meta_info: None,
        type_: b"url".to_vec(),
        url: url.as_bytes().to_vec(),
    }
}

fn store(bar: Folder) -> Bookmarks {
    Bookmarks {
        checksum: b"abc123".to_vec(),
        roots: Roots {
            bookmark_bar: bar,
            other: folder("other", vec![]),
            synced: folder("synced", vec![]),
        },
        sync_metadata: b"opaque sync blob".to_vec(),
        version: 1,
    }
}

#[test]
fn round_trip_preserves_every_field() {
    let mut bar = folder(
        "bar",
        vec![
            Child::Folder(folder("capture", vec![bookmark("http://b")])),
            bookmark("http://d"),
        ],
    );
    bar.date_modified = Some(b"13350000000000009".to_vec());
    bar.meta_info = Some(MetaInfo {
        power_bookmark_meta: b"blob".to_vec(),
    });
    let original = store(bar);
    let text = serialize_bookmarks(&original);
    let parsed = parse_bookmarks(&text).expect("well-formed document");
    assert_eq!(parsed, original);
}

#[test]
fn round_trip_keeps_optional_fields_absent() {
    let original = store(folder("bar", vec![bookmark("http://a")]));
    let text = serialize_bookmarks(&original);
    let parsed = parse_bookmarks(&text).expect("well-formed document");
    match &parsed.roots.bookmark_bar.children[0] {
        Child::Bookmark {
            date_modified,
            meta_info,
            ..
        } => {
            assert!(date_modified.is_none());
            assert!(meta_info.is_none());
        }
        Child::Folder(_) => panic!("expected a bookmark child"),
    }
    assert_eq!(parsed, original);
}

#[test]
fn round_trip_keeps_string_escapes() {
    let mut b = bookmark("http://x?q=\"a\\b\"");
    if let Child::Bookmark { name, .. } = &mut b {
        *name = b"line\nbreak\ttab \x01ctl".to_vec();
    }
    let original = store(folder("bar", vec![b]));
    let text = serialize_bookmarks(&original);
    let parsed = parse_bookmarks(&text).expect("well-formed document");
    assert_eq!(parsed, original);
}

#[test]
fn round_trip_keeps_utf8_bytes() {
    let original = store(folder("b\u{00e4}r \u{4e66}", vec![]));
    let text = serialize_bookmarks(&original);
    let parsed = parse_bookmarks(&text).expect("well-formed document");
    assert_eq!(parsed, original);
}

#[test]
fn parses_handwritten_document() {
    let text = br#"
    {
        "checksum": "c1",
        "roots": {
            "bookmark_bar": {
                "children": [
                    { "date_added": "1", "date_last_used": "0",
                      "guid": "g1", "id": "4", "name": "kept",
                      "type": "url", "url": "http://kept" }
                ],
                "date_added": "1", "date_last_used": "0",
                "guid": "g2", "id": "1", "name": "bar", "type": "folder"
            },
            "other": { "children": [], "date_added": "1", "date_last_used": "0",
                       "guid": "g3", "id": "2", "name": "other", "type": "folder" },
            "synced": { "children": [], "date_added": "1", "date_last_used": "0",
                        "guid": "g4", "id": "3", "name": "synced", "type": "folder" }
        },
        "sync_metadata": "",
        "version": 1
    }"#;
    let parsed = parse_bookmarks(text).expect("well-formed document");
    assert_eq!(parsed.checksum, b"c1".to_vec());
    assert_eq!(parsed.version, 1);
    assert_eq!(parsed.roots.bookmark_bar.name, b"bar".to_vec());
    match &parsed.roots.bookmark_bar.children[0] {
        Child::Bookmark { url, name, .. } => {
            assert_eq!(url, &b"http://kept".to_vec());
            assert_eq!(name, &b"kept".to_vec());
        }
        Child::Folder(_) => panic!("expected a bookmark child"),
    }
}

fn wrap_child(child_text: &str) -> Vec<u8> {
    let mut text = String::from(
        r#"{"checksum":"c","roots":{"bookmark_bar":{"children":["#,
    );
    text.push_str(child_text);
    text.push_str(
        r#"],"date_added":"1","date_last_used":"0","guid":"g","id":"1","name":"bar","type":"folder"},"other":{"children":[],"date_added":"1","date_last_used":"0","guid":"g","id":"2","name":"other","type":"folder"},"synced":{"children":[],"date_added":"1","date_last_used":"0","guid":"g","id":"3","name":"synced","type":"folder"}},"sync_metadata":"","version":1}"#,
    );
    text.into_bytes()
}

#[test]
fn child_with_children_and_url_is_rejected() {
    let text = wrap_child(
        r#"{"children":[],"date_added":"1","date_last_used":"0","guid":"g","id":"9","name":"x","type":"folder","url":"http://both"}"#,
    );
    assert_eq!(parse_bookmarks(&text), Err(ParseError::AmbiguousChild));
}

#[test]
fn child_with_neither_children_nor_url_is_rejected() {
    let text = wrap_child(
        r#"{"date_added":"1","date_last_used":"0","guid":"g","id":"9","name":"x","type":"url"}"#,
    );
    assert_eq!(parse_bookmarks(&text), Err(ParseError::AmbiguousChild));
}

#[test]
fn missing_required_field_is_rejected() {
    let text = wrap_child(
        r#"{"date_added":"1","date_last_used":"0","guid":"g","id":"9","type":"url","url":"http://nameless"}"#,
    );
    assert_eq!(parse_bookmarks(&text), Err(ParseError::MissingField));
}

#[test]
fn wrong_field_shape_is_rejected() {
    let text = br#"{"checksum":"c","roots":{},"sync_metadata":"","version":"one"}"#;
    assert_eq!(parse_bookmarks(text), Err(ParseError::MissingField));
    let text2 = br#"{"checksum":5,"roots":{},"sync_metadata":"","version":1}"#;
    assert_eq!(parse_bookmarks(text2), Err(ParseError::WrongType));
}

#[test]
fn integer_out_of_range_is_rejected() {
    let text = br#"{"checksum":"c","roots":{},"sync_metadata":"","version":99999999999999999999}"#;
    assert_eq!(parse_bookmarks(text), Err(ParseError::BadNumber));
}

#[test]
fn extreme_integers_are_kept() {
    let text = wrap_child("");
    let mut doc = String::from_utf8(text).unwrap();
    doc = doc.replace("\"version\":1", "\"version\":-9223372036854775808");
    let parsed = parse_bookmarks(doc.as_bytes()).expect("well-formed document");
    assert_eq!(parsed.version, i64::MIN);
}

#[test]
fn trailing_data_is_rejected() {
    let mut text = wrap_child("");
    text.extend_from_slice(b" x");
    assert_eq!(parse_bookmarks(&text), Err(ParseError::TrailingData));
}

#[test]
fn unknown_escape_is_rejected() {
    let text = br#"{"checksum":"\x41","roots":{},"sync_metadata":"","version":1}"#;
    assert_eq!(parse_bookmarks(text), Err(ParseError::BadEscape));
}

#[test]
fn non_ascii_unicode_escape_is_rejected() {
    let text = br#"{"checksum":"\u00e9","roots":{},"sync_metadata":"","version":1}"#;
    assert_eq!(parse_bookmarks(text), Err(ParseError::BadEscape));
}

#[test]
fn ascii_unicode_escape_is_decoded() {
    let text = wrap_child("");
    let mut doc = String::from_utf8(text).unwrap();
    doc = doc.replace("\"checksum\":\"c\"", "\"checksum\":\"\\u0041\\u007a\"");
    let parsed = parse_bookmarks(doc.as_bytes()).expect("well-formed document");
    assert_eq!(parsed.checksum, b"Az".to_vec());
}

#[test]
fn unterminated_document_is_rejected() {
    let text = br#"{"checksum":"c""#;
    assert_eq!(parse_bookmarks(text), Err(ParseError::UnexpectedEnd));
}

#[test]
fn serialize_children_of_nothing_is_empty_array() {
    let out = serialize_children(&vec![]);
    assert_eq!(out, b"[]".to_vec());
}

#[test]
fn serialize_children_writes_exact_record() {
    let b = Child::Bookmark {
        date_added: b"1".to_vec(),
        date_last_used: b"2".to_vec(),
        date_modified: None,
        guid: b"g".to_vec(),
        id: b"3".to_vec(),
        name: b"n".to_vec(),
        meta_info: None,
        type_: b"url".to_vec(),
        url: b"http://x".to_vec(),
    };
    let out = serialize_children(&vec![b]);
    let expected = br#"[{"date_added":"1","date_last_used":"2","date_modified":null,"guid":"g","id":"3","meta_info":null,"name":"n","type":"url","url":"http://x"}]"#;
    assert_eq!(out, expected.to_vec());
}

#[test]
fn serialized_store_is_valid_json_elsewhere() {
    let original = store(folder(
        "bar",
        vec![Child::Folder(folder("capture", vec![bookmark("http://b")]))],
    ));
    let text = serialize_bookmarks(&original);
    let value: serde_json::Value = serde_json::from_slice(&text).expect("valid JSON");
    assert_eq!(value["checksum"], "abc123");
    assert_eq!(value["version"], 1);
    assert_eq!(value["roots"]["bookmark_bar"]["name"], "bar");
    assert_eq!(
        value["roots"]["bookmark_bar"]["children"][0]["name"],
        "capture"
    );
}

#[test]
fn process_yields_captured_bookmarks_only() {
    let original = store(folder(
        "bar",
        vec![
            Child::Folder(folder("other", vec![bookmark("http://a")])),
            Child::Folder(folder(
                "capture",
                vec![bookmark("http://b"), bookmark("http://c")],
            )),
            bookmark("http://d"),
        ],
    ));
    let text = serialize_bookmarks(&original);
    let out = process_bookmarks(&text).expect("well-formed document");
    let value: serde_json::Value = serde_json::from_slice(&out).expect("valid JSON");
    let arr = value.as_array().expect("an array");
    let urls: Vec<&str> = arr.iter().map(|v| v["url"].as_str().unwrap()).collect();
    assert_eq!(urls, vec!["http://b", "http://c", "http://d"]);
}

#[test]
fn process_reports_the_document_fault() {
    assert_eq!(process_bookmarks(b"{"), Err(ParseError::UnexpectedEnd));
    assert_eq!(process_bookmarks(b"[]"), Err(ParseError::WrongType));
}

#[test]
fn first_of_duplicate_fields_wins() {
    let text = wrap_child("");
    let mut doc = String::from_utf8(text).unwrap();
    doc = doc.replace("\"checksum\":\"c\"", "\"checksum\":\"first\",\"checksum\":\"second\"");
    let parsed = parse_bookmarks(doc.as_bytes()).expect("well-formed document");
    assert_eq!(parsed.checksum, b"first".to_vec());
}

#[test]
fn unknown_fields_are_ignored() {
    let text = wrap_child("");
    let mut doc = String::from_utf8(text).unwrap();
    doc = doc.replace(
        "\"checksum\":\"c\"",
        "\"extra\":[true,false,null],\"checksum\":\"c\"",
    );
    let parsed = parse_bookmarks(doc.as_bytes()).expect("well-formed document");
    assert_eq!(parsed.checksum, b"c".to_vec());
    assert_eq!(parsed.version, 1);
}
