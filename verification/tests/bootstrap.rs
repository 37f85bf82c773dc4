use aio_idea::runtime::model::Header;
use aio_idea::runtime::server::bootstrap::{bootstrap, start_json, ApplicationSnapshot};
use aio_idea::runtime::server::bootstrap_document::{
    document, escape, is_document, passes_through, render, unconditional, Snapshot, SnapshotFault,
};
use aio_idea::runtime::server::http_error::{remove_header, Reply};
use kuchikiki::traits::TendrilSink;

fn header(name: &str, value: &str) -> Header {
    Header { name: name.to_owned(), value: value.to_owned() }
}

fn value<'a>(reply: &'a Reply, name: &str) -> Option<&'a str> {
    reply.headers.iter().find(|header| header.name == name).map(|header| header.value.as_str())
}

fn application(permissions: &[&str]) -> ApplicationSnapshot {
    ApplicationSnapshot {
        catalog: "{}".to_owned(),
        permissions: permissions.iter().map(|name| name.to_string()).collect(),
    }
}

#[test]
fn snapshot_json_cannot_close_its_script_element() {
    let etag = "</script><script>alert(1)</script>";
    let mut snapshot = serde_json::Map::new();
    snapshot.insert("snapshot".to_owned(), serde_json::Value::Null);
    snapshot.insert("etag".to_owned(), serde_json::Value::from(etag));
    let json = serde_json::Value::Object(snapshot.clone()).to_string();
    let html = render(b"<!doctype html><head><title>AIO</title></head><body></body>", &json)
        .expect("a document");
    let document = kuchikiki::parse_html().one(String::from_utf8(html).expect("text"));
    assert_eq!(document.select("script").unwrap().count(), 1);
    let text = document.select_first("#aio-startup-snapshot").unwrap().text_contents();
    assert!(!text.contains('<'));
    let decoded: serde_json::Value = serde_json::from_str(&text).expect("JSON");
    assert_eq!(decoded["etag"], snapshot["etag"]);
}

#[test]
fn escaping_keeps_the_meaning_of_json() {
    assert_eq!(escape("{\"a\":\"<b\"}"), "{\"a\":\"\\u003cb\"}");
    let text: String = serde_json::from_str(&escape("\"</script>\"")).expect("JSON");
    assert_eq!(text, "</script>");
}

#[test]
fn documents_without_text_take_no_snapshot() {
    assert_eq!(render(&[0xff], "{}").unwrap_err(), SnapshotFault::NotText("invalid utf-8 sequence of 1 bytes from index 0".to_owned()));
}

#[test]
fn a_snapshot_is_confirmed_by_its_tag() {
    let seen = application(&["plugin:manage"]);
    let first = bootstrap(Some(&seen), None, "total;dur=1");
    assert_eq!(first.status, 200);
    let body = "{\"data\":{\"catalog\":{},\"permissions\":[\"plugin:manage\"]}}";
    assert_eq!(first.body, body.as_bytes());
    assert_eq!(value(&first, "content-type"), Some("application/json"));
    assert_eq!(value(&first, "cache-control"), Some("private, no-store"));
    let etag = value(&first, "etag").expect("a tag").to_owned();
    assert_eq!(etag, "\"912507bb602a1683f91cf72cd7dc28ab36a213d104b5b51aec95aebfbcb57b9c\"");
    let list = format!("\"other\", {etag}");
    let second = bootstrap(Some(&seen), Some(&list), "t");
    assert_eq!(second.status, 304);
    assert!(second.body.is_empty());
    assert_eq!(value(&second, "cache-control"), Some("private, no-store"));
    let fewer = bootstrap(Some(&application(&[])), Some(&etag), "t");
    assert_eq!(fewer.status, 200);
    assert_ne!(value(&fewer, "etag"), Some(etag.as_str()));
    assert_eq!(fewer.body, b"{\"data\":{\"catalog\":{},\"permissions\":[]}}");
    assert_eq!(bootstrap(Some(&seen), Some("*"), "t").status, 200);
    let ended = bootstrap(None, Some(&etag), "t");
    assert_eq!((ended.status, ended.body.as_slice()), (200, b"{\"data\":null}".as_slice()));
    assert_eq!(value(&ended, "cache-control"), Some("private, no-store"));
}

#[test]
fn permissions_are_told_as_they_are() {
    let told = ["a\"b\\", "c\u{8}\t\n\u{c}\r\u{1f}\u{0}\u{7f}", "读<"];
    let json = start_json(Some(&application(&told)));
    let value: serde_json::Value = serde_json::from_str(&json).expect("JSON");
    assert_eq!(value["snapshot"]["permissions"], serde_json::Value::from(told.to_vec()));
    assert!(value["etag"].is_null());
    assert!(json.contains("\"c\\b\\t\\n\\f\\r\\u001f\\u0000\u{7f}\",\"读<\""));
    assert_eq!(start_json(None), "{\"snapshot\":null,\"etag\":null}");
}

#[test]
fn only_documents_are_rewritten() {
    assert!(passes_through("POST", "/"));
    assert!(passes_through("GET", "/assets/app.js"));
    assert!(passes_through("GET", "/wasm/app.wasm"));
    assert!(!passes_through("GET", "/"));
    assert!(is_document(200, Some(b"text/html; charset=utf-8")));
    assert!(!is_document(404, Some(b"text/html")));
    assert!(!is_document(200, Some(b"text/plain")));
    assert!(!is_document(200, None));
}

#[test]
fn documents_are_requested_unconditionally() {
    let headers = vec![
        header("if-none-match", "\"a\""),
        header("cookie", "c"),
        header("if-modified-since", "now"),
        header("if-none-match", "\"b\""),
    ];
    assert_eq!(unconditional(headers), [header("cookie", "c")]);
}

#[test]
fn a_removed_header_is_gone_and_the_others_stay() {
    let headers = vec![header("a", "1"), header("b", "2"), header("a", "3")];
    assert_eq!(remove_header(headers, "a"), [header("b", "2")]);
}

#[test]
fn start_documents_are_never_kept() {
    let headers = vec![
        header("etag", "\"x\""),
        header("cache-control", "public"),
        header("content-length", "3"),
        header("content-type", "text/html"),
    ];
    let html = b"<head></head>".to_vec();
    let snapshot = Snapshot { json: "{}".to_owned(), timing: "t;dur=2".to_owned() };
    let reply = document(headers.clone(), Some(html.clone()), Some(snapshot));
    assert_eq!(reply.status, 200);
    assert_eq!(value(&reply, "cache-control"), Some("private, no-store"));
    assert_eq!(value(&reply, "server-timing"), Some("t;dur=2"));
    assert_eq!(value(&reply, "etag"), None);
    assert_eq!(value(&reply, "content-length"), None);
    assert!(String::from_utf8(reply.body).expect("text").contains("aio-startup-snapshot"));
    let plain = document(headers.clone(), Some(html.clone()), None);
    assert_eq!(plain.body, html);
    assert_eq!(value(&plain, "server-timing"), None);
    assert_eq!(document(headers, None, None).status, 500);
}
