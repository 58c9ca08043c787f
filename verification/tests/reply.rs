use axum::body::{to_bytes, Body};
use axum::http::{header, Response};
use jsserve::reply::{annotate_response, can_annotate, render_object, Reply};
use serde_json::Value;

fn text(s: &str) -> Value {
    Value::String(s.to_string())
}

fn object(pairs: &[(&str, Value)]) -> serde_json::Map<String, Value> {
    let mut m = serde_json::Map::new();
    for (k, v) in pairs {
        m.insert(k.to_string(), v.clone());
    }
    m
}

/// Status, content type and body.
fn read(response: Response<Body>) -> (u16, String, String) {
    let status = response.status().as_u16();
    let content_type = response.headers()[header::CONTENT_TYPE].to_str().unwrap().to_string();
    let bytes = tokio::runtime::Builder::new_current_thread()
        .build()
        .unwrap()
        .block_on(to_bytes(response.into_body(), usize::MAX))
        .unwrap();
    (status, content_type, String::from_utf8(bytes.to_vec()).unwrap())
}

fn html(status: u16, body: &str) -> (u16, String, String) {
    (status, "text/html; charset=utf-8".to_string(), body.to_string())
}

fn document(status: u16, body: &str) -> (u16, String, String) {
    (status, "application/json".to_string(), body.to_string())
}

#[test]
fn a_page_is_sent_as_html() {
    assert_eq!(read(Reply::html("<p>h\u{e9}</p>".to_string()).into_response()), html(200, "<p>h\u{e9}</p>"));
    assert_eq!(read(Reply::html(String::new()).into_response()), html(200, ""));
}

#[test]
fn a_document_is_sent_as_json() {
    let value = Value::Array(vec![Value::Null, Value::Bool(true), text("a\"b"), Value::from(-3)]);
    assert_eq!(read(Reply::json(value).into_response()), document(200, "[null,true,\"a\\\"b\",-3]"));
}

#[test]
fn refusals_have_their_pages() {
    assert_eq!(read(Reply::not_found().into_response()), html(404, "404 not found"));
    assert_eq!(read(Reply::internal_error().into_response()), html(500, "Error"));
}

#[test]
fn a_status_keeps_the_content() {
    assert_eq!(read(Reply::html("x".to_string()).with_status(100).into_response()), html(100, "x"));
    assert_eq!(read(Reply::json(text("x")).with_status(999).into_response()), document(999, "\"x\""));
}

#[test]
fn an_object_without_a_status_changes_nothing() {
    let o = object(&[("html", text("x"))]);
    assert!(can_annotate(&o));
    let reply = annotate_response(&o, Reply::html("x".to_string()).with_status(201));
    assert_eq!(read(reply.into_response()), html(201, "x"));
}

#[test]
fn an_object_names_a_status() {
    let o = object(&[("status", Value::from(418))]);
    assert!(can_annotate(&o));
    let reply = annotate_response(&o, Reply::html("x".to_string()));
    let again = annotate_response(&o, reply);
    assert_eq!(read(again.into_response()), html(418, "x"));
}

#[test]
fn ill_formed_statuses_are_told() {
    for status in [
        Value::from(99),
        Value::from(1000),
        Value::from(65535),
        Value::from(65536),
        Value::from(-200),
        Value::from(200.0),
        Value::from(u64::MAX),
        text("200"),
        Value::Null,
        Value::Bool(true),
        Value::Array(vec![Value::from(200)]),
    ] {
        assert!(!can_annotate(&object(&[("status", status)])));
    }
    for status in [100, 200, 404, 999] {
        assert!(can_annotate(&object(&[("status", Value::from(status))])));
    }
}

#[test]
fn an_object_asks_for_a_document() {
    let o = object(&[("json", Value::Object(object(&[("a", Value::from(1))])))]);
    assert_eq!(read(render_object(&o).unwrap().into_response()), document(200, "{\"a\":1}"));
    let o = object(&[("json", Value::Null), ("status", Value::from(202))]);
    assert_eq!(read(render_object(&o).unwrap().into_response()), document(202, "null"));
}

#[test]
fn an_object_asks_for_a_page() {
    let o = object(&[("html", text("<b>hi</b>"))]);
    assert_eq!(read(render_object(&o).unwrap().into_response()), html(200, "<b>hi</b>"));
    let o = object(&[("html", text("gone")), ("status", Value::from(410))]);
    assert_eq!(read(render_object(&o).unwrap().into_response()), html(410, "gone"));
}

#[test]
fn a_document_comes_before_a_page() {
    let o = object(&[("html", Value::from(7)), ("json", text("j")), ("status", Value::from(203))]);
    assert_eq!(read(render_object(&o).unwrap().into_response()), document(203, "\"j\""));
}

#[test]
fn an_object_without_content_is_an_empty_page() {
    assert_eq!(read(render_object(&object(&[])).unwrap().into_response()), html(200, ""));
    let o = object(&[("status", text("bad"))]);
    assert_eq!(read(render_object(&o).unwrap().into_response()), html(200, ""));
}

#[test]
fn ill_formed_objects_have_no_reply() {
    assert!(render_object(&object(&[("html", Value::from(7))])).is_none());
    assert!(render_object(&object(&[("html", Value::Null)])).is_none());
    assert!(render_object(&object(&[("html", text("x")), ("status", Value::from(1))])).is_none());
    assert!(render_object(&object(&[("json", text("x")), ("status", text("200"))])).is_none());
}

#[test]
fn the_document_sent_is_the_very_entry() {
    let entry = Value::Object(object(&[("z", Value::from(1)), ("a", text("b")), ("m", Value::Null)]));
    let res = object(&[("status", Value::from(201)), ("json", entry.clone())]);
    assert_eq!(
        read(render_object(&res).unwrap().into_response()),
        document(201, &entry.to_string())
    );
}

#[test]
fn the_content_type_is_the_only_header() {
    for reply in [
        Reply::html("p".to_string()),
        Reply::json(Value::Null),
        Reply::not_found(),
        Reply::json(text("d")).with_status(201),
    ] {
        let response = reply.into_response();
        assert_eq!(response.headers().len(), 1);
        assert!(response.headers().contains_key("content-type"));
    }
}
