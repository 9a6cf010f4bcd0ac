use scrapnote::item::{GetFileContentResponse, GetFilesResponse, Item, ItemType};
use scrapnote::json::{encode_content, encode_file_content_response, encode_files_response};
use scrapnote::parse::parse_save_request;
use scrapnote::percent::{build_files_query, percent_decode};
use scrapnote::routes::{
    build_404_response, build_file_path, extract_query_key, handle_file, handle_files,
    route_path, Method, Route,
};
use scrapnote::store::{filter_names, NoteStore, StoreError};
use scrapnote::text::{contains_subslice, validate_name};

fn item(name: &str) -> Item {
    Item { name: name.to_string(), item_type: ItemType::File }
}

#[test]
fn store_write_then_read_round_trip() {
    let mut store = NoteStore::new();
    store.write(&"note".to_string(), &"alpha beta".to_string()).unwrap();
    let got = store.read(&"note".to_string()).unwrap();
    assert_eq!(got, "alpha beta");
    // Overwriting replaces the content.
    store.write(&"note".to_string(), &"gamma".to_string()).unwrap();
    let got = store.read(&"note".to_string()).unwrap();
    assert_eq!(got, "gamma");
    assert_eq!(store.len(), 1);
}

#[test]
fn store_read_is_total_and_creates() {
    let mut store = NoteStore::new();
    let got = store.read(&"fresh".to_string()).unwrap();
    assert_eq!(got, "");
    assert_eq!(store.len(), 1);
    let listed = store.list(b"");
    assert_eq!(listed.len(), 1);
    assert_eq!(listed[0].name, "fresh");
}

#[test]
fn store_list_returns_only_matching_names() {
    let mut store = NoteStore::new();
    for name in ["apple", "banana", "grape"] {
        store.write(&name.to_string(), &String::new()).unwrap();
    }
    let listed = store.list(b"an");
    assert_eq!(listed.len(), 1);
    assert_eq!(listed[0].name, "banana");
    for it in &listed {
        assert!(contains_subslice(it.name.as_bytes(), b"an"));
    }
    // An empty key keeps everything, in enumeration order.
    let all = store.list(b"");
    let names: Vec<&str> = all.iter().map(|i| i.name.as_str()).collect();
    assert_eq!(names, ["apple", "banana", "grape"]);
}

#[test]
fn invalid_names_are_rejected() {
    let mut store = NoteStore::new();
    for bad in ["", "a/b", "a\\b", ".", ".."] {
        assert_eq!(store.read(&bad.to_string()), Err(StoreError::InvalidName));
        assert_eq!(
            store.write(&bad.to_string(), &"x".to_string()),
            Err(StoreError::InvalidName)
        );
        assert!(!validate_name(bad));
    }
    assert_eq!(store.len(), 0);
    assert!(validate_name("a.b"));
    assert!(validate_name("..."));
}

#[test]
fn filter_names_keeps_order_and_matches() {
    let names = vec![
        "apple".to_string(),
        "banana".to_string(),
        "grape".to_string(),
    ];
    let kept = filter_names(&names, b"ap");
    let kept_names: Vec<&str> = kept.iter().map(|i| i.name.as_str()).collect();
    assert_eq!(kept_names, ["apple", "grape"]);
    for it in &kept {
        assert!(matches!(it.item_type, ItemType::File));
    }
}

#[test]
fn content_response_wire_form() {
    let body = encode_content(&"world".to_string());
    assert_eq!(body, b"{\"content\":\"world\"}");
    let resp = GetFileContentResponse { content: String::new() };
    assert_eq!(encode_file_content_response(&resp), b"{\"content\":\"\"}");
}

#[test]
fn content_response_escapes_specials() {
    let body = encode_content(&"a\"b\\c\nd\te\u{1}f".to_string());
    assert_eq!(
        body,
        b"{\"content\":\"a\\\"b\\\\c\\nd\\te\\u0001f\"}"
    );
    // serde_json agrees on the escaped form.
    let v: serde_json::Value = serde_json::from_slice(&body).unwrap();
    assert_eq!(v["content"].as_str().unwrap(), "a\"b\\c\nd\te\u{1}f");
}

#[test]
fn files_response_wire_form() {
    let resp = GetFilesResponse { files: Vec::new() };
    assert_eq!(encode_files_response(&resp), b"{\"files\":[]}");
    let resp = GetFilesResponse { files: vec![item("banana")] };
    assert_eq!(
        encode_files_response(&resp),
        b"{\"files\":[{\"name\":\"banana\",\"item_type\":\"File\"}]}"
    );
    let resp = GetFilesResponse { files: vec![item("a"), item("b")] };
    let body = encode_files_response(&resp);
    assert_eq!(
        body,
        b"{\"files\":[{\"name\":\"a\",\"item_type\":\"File\"},{\"name\":\"b\",\"item_type\":\"File\"}]}"
    );
    let v: serde_json::Value = serde_json::from_slice(&body).unwrap();
    assert_eq!(v["files"].as_array().unwrap().len(), 2);
    assert_eq!(v["files"][1]["name"].as_str().unwrap(), "b");
    assert_eq!(v["files"][1]["item_type"].as_str().unwrap(), "File");
}

#[test]
fn percent_encoding_round_trip() {
    // Non-alphanumeric bytes are escaped with upper-case hex.
    let q = build_files_query("a b/\u{fc}");
    assert_eq!(q, b"?key=a%20b%2F%C3%BC");
    let dec = percent_decode(&q[5..]).unwrap();
    assert_eq!(dec, "a b/\u{fc}".as_bytes());
    // A malformed escape is rejected.
    assert!(percent_decode(b"a%2").is_none());
    assert!(percent_decode(b"a%zz").is_none());
}

#[test]
fn files_query_builder() {
    assert_eq!(build_files_query(""), b"");
    assert_eq!(build_files_query("an"), b"?key=an");
    assert_eq!(build_files_query("a b"), b"?key=a%20b");
}

#[test]
fn path_routing() {
    assert!(matches!(route_path(b"/api/files"), Route::Files));
    assert!(matches!(route_path(b"/api/files?x"), Route::Files));
    match route_path(b"/api/file/hello") {
        Route::File { name } => assert_eq!(name, b"hello"),
        _ => panic!("expected the single-note route"),
    }
    assert!(matches!(route_path(b"/api/other"), Route::NotFound));
    assert!(matches!(route_path(b"/"), Route::NotFound));
    let r = build_404_response();
    assert_eq!(r.status, 404);
    assert!(r.body.is_empty());
}

#[test]
fn file_path_builder_routes_back() {
    let p = build_file_path("my note");
    assert_eq!(p, b"/api/file/my note");
    match route_path(&p) {
        Route::File { name } => assert_eq!(name, b"my note"),
        _ => panic!("expected the single-note route"),
    }
}

#[test]
fn query_key_extraction() {
    assert_eq!(extract_query_key(b"key=an").unwrap(), b"an");
    assert_eq!(extract_query_key(b"x=1&key=a%20b").unwrap(), b"a b");
    assert_eq!(extract_query_key(b"nothing").unwrap(), b"");
    assert!(extract_query_key(b"key=a%2").is_none());
}

#[test]
fn files_endpoint_replies() {
    let mut store = NoteStore::new();
    for name in ["apple", "banana", "grape"] {
        store.write(&name.to_string(), &String::new()).unwrap();
    }
    let r = handle_files(&store, &Method::Get, b"an");
    assert_eq!(r.status, 200);
    assert_eq!(
        r.body,
        b"{\"files\":[{\"name\":\"banana\",\"item_type\":\"File\"}]}"
    );
    let r = handle_files(&store, &Method::Post, b"");
    assert_eq!(r.status, 404);
    assert!(r.body.is_empty());
}

#[test]
fn file_endpoint_replies() {
    let mut store = NoteStore::new();
    // A GET auto-creates the note and returns empty content.
    let r = handle_file(&mut store, &Method::Get, b"hello", None);
    assert_eq!(r.status, 200);
    assert_eq!(r.body, b"{\"content\":\"\"}");
    assert_eq!(store.len(), 1);
    // A POST overwrites it.
    let r = handle_file(
        &mut store,
        &Method::Post,
        b"hello",
        Some(b"{\"content\":\"world\"}"),
    );
    assert_eq!(r.status, 200);
    assert!(r.body.is_empty());
    let r = handle_file(&mut store, &Method::Get, b"hello", None);
    assert_eq!(r.body, b"{\"content\":\"world\"}");
    // Bad names, missing bodies and malformed bodies are rejected.
    let r = handle_file(&mut store, &Method::Get, b"../etc", None);
    assert_eq!(r.status, 400);
    let r = handle_file(&mut store, &Method::Post, b"hello", None);
    assert_eq!(r.status, 400);
    let r = handle_file(&mut store, &Method::Post, b"hello", Some(b"{\"other\":\"x\"}"));
    assert_eq!(r.status, 400);
    let r = handle_file(&mut store, &Method::Other, b"hello", None);
    assert_eq!(r.status, 404);
}

#[test]
fn save_request_parsing() {
    let req = parse_save_request(b"{\"content\":\"world\"}").unwrap();
    assert_eq!(req.content, "world");
    // Whitespace and escapes are handled.
    let req = parse_save_request(b" { \"content\" : \"a\\\"b\\\\c\\nd\\u0041\" } ").unwrap();
    assert_eq!(req.content, "a\"b\\c\nd\u{41}");
    let req = parse_save_request(b"{\"content\":\"\\u00e9\\u3042\"}").unwrap();
    assert_eq!(req.content, "\u{e9}\u{3042}");
    // Malformed bodies are rejected.
    assert!(parse_save_request(b"").is_none());
    assert!(parse_save_request(b"{}").is_none());
    assert!(parse_save_request(b"{\"content\":\"unterminated").is_none());
    assert!(parse_save_request(b"{\"content\":\"bad\\q\"}").is_none());
    assert!(parse_save_request(b"{\"content\":\"x\"}trailing").is_none());
    assert!(parse_save_request(b"{\"content\":\"\\ud800\"}").is_none());
}

#[test]
fn parse_inverts_framing() {
    for text in ["", "world", "a\"b\\c\nd", "caf\u{e9} \u{3042}", "\u{1}\u{1f}"] {
        let body = encode_content(&text.to_string());
        let req = parse_save_request(&body).unwrap();
        assert_eq!(req.content, text);
    }
}
