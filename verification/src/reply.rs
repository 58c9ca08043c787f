//! What a request is answered.
use crate::json::{contains_key, entries, get, held, json, to_text, to_u16, Json};
use axum::body::Body;
use axum::http::{Response, StatusCode};
use axum::response::{Html, IntoResponse};
use serde_json::Value;
use vstd::multiset::Multiset;
use vstd::prelude::*;
use vstd::utf8::encode_utf8;

verus! {

/// `axum::body::Body`, opaque.
#[verifier::external_type_specification]
#[verifier::external_body]
pub struct ExBody(Body);

/// `http::Response`, opaque.
#[verifier::external_type_specification]
#[verifier::external_body]
#[verifier::reject_recursive_types(T)]
pub struct ExResponse<T>(Response<T>);

/// What a response carries. A header is a name in small letters and a value.
pub struct Wire {
    pub status: int,
    pub headers: Multiset<(Seq<char>, Seq<u8>)>,
    pub body: Seq<u8>,
}

/// What an `http::Response` carries: its status, all its headers and the bytes of
/// its body.
pub uninterp spec fn wire(r: Response<Body>) -> Wire;

/// The headers of a response that has a content type and no other header.
pub open spec fn only_content_type(name: Seq<char>) -> Multiset<(Seq<char>, Seq<u8>)> {
    Multiset::singleton(("content-type"@, encode_utf8(name)))
}

/// The text that `serde_json` writes for a value, as bytes.
pub uninterp spec fn serialized(v: Value) -> Seq<u8>;

/// The content of a reply.
pub enum Content {
    Html(Seq<char>),
    Json(Json),
}

/// A reply as a pair of status and content.
pub struct ReplyView {
    pub status: int,
    pub content: Content,
}

/// Whether HTTP has a place for the status.
pub open spec fn valid_status(status: int) -> bool {
    100 <= status <= 999
}

/// The page `page`, sent with success.
pub open spec fn page(page: Seq<char>) -> ReplyView {
    ReplyView { status: 200, content: Content::Html(page) }
}

/// The document `document`, sent with success.
pub open spec fn document(document: Json) -> ReplyView {
    ReplyView { status: 200, content: Content::Json(document) }
}

/// The answer to a request for a path that has no handler.
pub open spec fn not_found() -> ReplyView {
    ReplyView { status: 404, content: Content::Html("404 not found"@) }
}

/// The answer to a request whose handler failed.
pub open spec fn internal_error() -> ReplyView {
    ReplyView { status: 500, content: Content::Html("Error"@) }
}

/// Whether the object names no status, or one that HTTP has a place for.
pub open spec fn status_known(o: Map<Seq<char>, Json>) -> bool {
    o.contains_key("status"@) ==> (o["status"@] matches Json::Integer(i) && valid_status(i))
}

/// The reply with the status that the object names, if it names one.
pub open spec fn annotated(o: Map<Seq<char>, Json>, reply: ReplyView) -> ReplyView {
    if o.contains_key("status"@) {
        ReplyView { status: o["status"@]->Integer_0, content: reply.content }
    } else {
        reply
    }
}

/// The reply that an object asks for: the entry `json` as a document, else the
/// entry `html` as a page, both with the status that the entry `status` names;
/// else an empty page. There is none where the status or the page is ill-formed.
pub open spec fn object_reply(o: Map<Seq<char>, Json>) -> Option<ReplyView> {
    if o.contains_key("json"@) {
        if status_known(o) {
            Some(annotated(o, document(o["json"@])))
        } else {
            None
        }
    } else if o.contains_key("html"@) {
        match o["html"@] {
            Json::Text(text) => if status_known(o) {
                Some(annotated(o, page(text)))
            } else {
                None
            },
            _ => None,
        }
    } else {
        Some(page(Seq::empty()))
    }
}

/// The very value that is sent for an object: its entry `json`, if it has one.
pub open spec fn sent_value(o: Map<Seq<char>, Value>) -> Option<Value> {
    if o.contains_key("json"@) {
        Some(o["json"@])
    } else {
        None
    }
}

enum Payload {
    Html(String),
    Json(Value),
}

/// A reply: a status and a page or a document.
pub struct Reply {
    status: u16,
    payload: Payload,
}

impl View for Reply {
    type V = ReplyView;

    closed spec fn view(&self) -> ReplyView {
        ReplyView {
            status: self.status as int,
            content: match self.payload {
                Payload::Html(text) => Content::Html(text@),
                Payload::Json(v) => Content::Json(json(v)),
            },
        }
    }
}

impl Reply {
    #[verifier::type_invariant]
    spec fn status_is_valid(self) -> bool {
        valid_status(self.status as int)
    }

    /// The value of a reply that is a document.
    pub closed spec fn value(&self) -> Option<Value> {
        match self.payload {
            Payload::Html(_) => None,
            Payload::Json(v) => Some(v),
        }
    }

    /// A page, with success.
    pub fn html(text: String) -> (r: Reply)
        ensures
            r@ == page(text@),
            r@.status == 200,
            r@.content == Content::Html(text@),
            r.value() is None,
    {
        Reply { status: 200, payload: Payload::Html(text) }
    }

    /// A document, with success.
    pub fn json(value: Value) -> (r: Reply)
        ensures
            r@ == document(json(value)),
            r@.status == 200,
            r@.content == Content::Json(json(value)),
            r.value() == Some(value),
    {
        Reply { status: 200, payload: Payload::Json(value) }
    }

    /// The same content under another status.
    pub fn with_status(self, status: u16) -> (r: Reply)
        requires
            valid_status(status as int),
        ensures
            r@ == (ReplyView { status: status as int, content: self@.content }),
            r.value() == self.value(),
    {
        Reply { status, payload: self.payload }
    }

    /// The answer to a request for a path that has no handler.
    pub fn not_found() -> (r: Reply)
        ensures
            r@ == not_found(),
            r.value() is None,
    {
        Reply::html("404 not found".to_owned()).with_status(404)
    }

    /// The answer to a request whose handler failed.
    pub fn internal_error() -> (r: Reply)
        ensures
            r@ == internal_error(),
            r.value() is None,
    {
        Reply::html("Error".to_owned()).with_status(500)
    }

    /// The response to send for the reply.
    pub fn into_response(self) -> (r: Response<Body>)
        ensures
            wire(r).status == self@.status,
            match self.value() {
                Some(v) => {
                    &&& self@.content == Content::Json(json(v))
                    &&& wire(r).headers == only_content_type("application/json"@)
                    &&& wire(r).body == serialized(v)
                },
                None => {
                    &&& self@.content matches Content::Html(text)
                    &&& wire(r).headers == only_content_type("text/html; charset=utf-8"@)
                    &&& wire(r).body == encode_utf8(text)
                },
            },
    {
        proof {
            use_type_invariant(&self);
        }
        let response = match self.payload {
            Payload::Html(text) => html_response(text),
            Payload::Json(v) => json_response(v),
        };
        respond_with(self.status, response)
    }
}

/// `StatusCode::from_u16`: whether it takes the number, which it does from 100 to
/// 999.
#[verifier::external_body]
fn takes_status(status: u16) -> (r: bool)
    ensures
        r == valid_status(status as int),
{
    StatusCode::from_u16(status).is_ok()
}

/// `axum::response::Html` as a response: status 200, a content type of HTML in
/// UTF-8 and no other header, and the text as the body.
#[verifier::external_body]
fn html_response(text: String) -> (r: Response<Body>)
    ensures
        wire(r) == (Wire {
            status: 200,
            headers: only_content_type("text/html; charset=utf-8"@),
            body: encode_utf8(text@),
        }),
{
    Html(text).into_response()
}

/// `axum::Json` as a response: status 200, a content type of JSON and no other
/// header, and the text that `serde_json` writes for the value as the body.
#[verifier::external_body]
fn json_response(v: Value) -> (r: Response<Body>)
    ensures
        wire(r) == (Wire {
            status: 200,
            headers: only_content_type("application/json"@),
            body: serialized(v),
        }),
{
    axum::Json(v).into_response()
}

/// A pair of `StatusCode` and response as a response: the response with that
/// status in place of its own.
#[verifier::external_body]
fn respond_with(status: u16, response: Response<Body>) -> (r: Response<Body>)
    requires
        valid_status(status as int),
    ensures
        wire(r) == (Wire {
            status: status as int,
            headers: wire(response).headers,
            body: wire(response).body,
        }),
{
    (StatusCode::from_u16(status).unwrap(), response).into_response()
}

/// Whether [`annotate_response`] can be asked with the object.
pub fn can_annotate(resp_obj: &serde_json::Map<String, Value>) -> (r: bool)
    ensures
        r == status_known(entries(*resp_obj)),
{
    match get(resp_obj, "status") {
        Some(status) => match to_u16(status.clone()) {
            Some(code) => takes_status(code),
            None => false,
        },
        None => true,
    }
}

/// Gives the reply the status that the object names, if it names one.
pub fn annotate_response(resp_obj: &serde_json::Map<String, Value>, resp: Reply) -> (r: Reply)
    requires
        status_known(entries(*resp_obj)),
    ensures
        r@ == annotated(entries(*resp_obj), resp@),
        r.value() == resp.value(),
{
    match get(resp_obj, "status") {
        Some(status) => match to_u16(status.clone()) {
            Some(code) => resp.with_status(code),
            None => resp,
        },
        None => resp,
    }
}

/// The reply that an object asks for, if it is well-formed.
pub fn render_object(res: &serde_json::Map<String, Value>) -> (r: Option<Reply>)
    ensures
        match r {
            Some(reply) => {
                &&& object_reply(entries(*res)) == Some(reply@)
                &&& reply.value() == sent_value(held(*res))
            },
            None => object_reply(entries(*res)) is None,
        },
{
    if contains_key(res, "json") {
        match get(res, "json") {
            Some(v) => if can_annotate(res) {
                Some(annotate_response(res, Reply::json(v.clone())))
            } else {
                None
            },
            None => None,
        }
    } else if contains_key(res, "html") {
        match get(res, "html") {
            Some(v) => match to_text(v.clone()) {
                Some(text) => if can_annotate(res) {
                    Some(annotate_response(res, Reply::html(text)))
                } else {
                    None
                },
                None => None,
            },
            None => None,
        }
    } else {
        Some(Reply::html(String::new()))
    }
}

/// A status changes no content, and naming it twice is naming it once.
pub proof fn law_annotation_keeps_content(o: Map<Seq<char>, Json>, reply: ReplyView)
    ensures
        annotated(o, reply).content == reply.content,
        annotated(o, annotated(o, reply)) == annotated(o, reply),
        !o.contains_key("status"@) ==> annotated(o, reply) == reply,
{
}

/// Every reply that an object asks for has a status that HTTP has a place for.
pub proof fn law_object_reply_has_valid_status(o: Map<Seq<char>, Json>)
    ensures
        object_reply(o) matches Some(reply) ==> valid_status(reply.status),
{
}

/// Beside an entry `json` an entry `html` makes no difference.
pub proof fn law_document_comes_before_page(o: Map<Seq<char>, Json>, html: Json)
    requires
        o.contains_key("json"@),
    ensures
        object_reply(o.insert("html"@, html)) == object_reply(o),
{
    reveal_strlit("json");
    reveal_strlit("html");
    reveal_strlit("status");
    assert("html"@[0] != "json"@[0]);
    assert("html"@[0] != "status"@[0]);
}

/// An object with neither a document nor a page is answered with an empty page
/// and success, whatever status it names.
pub proof fn law_object_without_content_is_an_empty_page(o: Map<Seq<char>, Json>)
    requires
        !o.contains_key("json"@),
        !o.contains_key("html"@),
    ensures
        object_reply(o) == Some(page(Seq::empty())),
{
}

/// A page is sent with success, as HTML, and its body is the whole text.
pub proof fn law_page_is_sent_whole(text: String, reply: Reply, response: Response<Body>)
    requires
        call_ensures(Reply::html, (text,), reply),
        call_ensures(Reply::into_response, (reply,), response),
    ensures
        wire(response).status == 200,
        wire(response).headers == Multiset::singleton(
            ("content-type"@, encode_utf8("text/html; charset=utf-8"@)),
        ),
        wire(response).body == encode_utf8(text@),
{
}

/// A document is sent with success, as JSON, and its body is what `serde_json`
/// writes for the very value.
pub proof fn law_document_is_sent_whole(value: Value, reply: Reply, response: Response<Body>)
    requires
        call_ensures(Reply::json, (value,), reply),
        call_ensures(Reply::into_response, (reply,), response),
    ensures
        wire(response).status == 200,
        wire(response).headers == Multiset::singleton(
            ("content-type"@, encode_utf8("application/json"@)),
        ),
        wire(response).body == serialized(value),
{
}

/// Under another status a reply is sent with that status, and otherwise as before.
pub proof fn law_status_changes_nothing_else(
    reply: Reply,
    status: u16,
    changed: Reply,
    before: Response<Body>,
    after: Response<Body>,
)
    requires
        call_ensures(Reply::with_status, (reply, status), changed),
        call_ensures(Reply::into_response, (reply,), before),
        call_ensures(Reply::into_response, (changed,), after),
    ensures
        wire(after).status == status,
        wire(after).headers == wire(before).headers,
        wire(after).body == wire(before).body,
{
}

/// A path without a handler is answered 404, a handler that failed 500, each with
/// its words as a page.
pub proof fn law_refusals_are_sent(
    missing: Reply,
    failed: Reply,
    not_there: Response<Body>,
    error: Response<Body>,
)
    requires
        call_ensures(Reply::not_found, (), missing),
        call_ensures(Reply::internal_error, (), failed),
        call_ensures(Reply::into_response, (missing,), not_there),
        call_ensures(Reply::into_response, (failed,), error),
    ensures
        wire(not_there).status == 404,
        wire(not_there).body == encode_utf8("404 not found"@),
        wire(error).status == 500,
        wire(error).body == encode_utf8("Error"@),
        wire(not_there).headers == Multiset::singleton(
            ("content-type"@, encode_utf8("text/html; charset=utf-8"@)),
        ),
        wire(error).headers == wire(not_there).headers,
{
}

/// An object with a document or a page and a status that HTTP has a place for asks
/// for that very status, with the document, or else the page, as the content.
pub proof fn law_object_reply_has_the_named_status(
    o: Map<Seq<char>, Json>,
    status: int,
    text: Seq<char>,
)
    requires
        o.contains_key("status"@),
        o["status"@] == Json::Integer(status),
        100 <= status <= 999,
    ensures
        o.contains_key("json"@) ==> object_reply(o) == Some(
            ReplyView { status, content: Content::Json(o["json"@]) },
        ),
        !o.contains_key("json"@) && o.contains_key("html"@) && o["html"@] == Json::Text(text)
            ==> object_reply(o) == Some(ReplyView { status, content: Content::Html(text) }),
{
}

/// An object with a document or a page and no status asks for success, with the
/// document, or else the page, as the content.
pub proof fn law_object_reply_without_status_is_success(o: Map<Seq<char>, Json>, text: Seq<char>)
    requires
        !o.contains_key("status"@),
    ensures
        o.contains_key("json"@) ==> object_reply(o) == Some(
            ReplyView { status: 200, content: Content::Json(o["json"@]) },
        ),
        !o.contains_key("json"@) && o.contains_key("html"@) && o["html"@] == Json::Text(text)
            ==> object_reply(o) == Some(ReplyView { status: 200, content: Content::Html(text) }),
{
}

/// An object is answered unless it has content and a status that is no integer
/// from 100 to 999, or a page in place of a document that is no text.
pub proof fn law_object_is_answered_unless_ill_formed(
    res: serde_json::Map<String, Value>,
    r: Option<Reply>,
)
    requires
        call_ensures(render_object, (&res,), r),
    ensures
        r is None <==> {
            let o = held(res);
            ||| (o.contains_key("json"@) || o.contains_key("html"@)) && o.contains_key("status"@)
                && !(json(o["status"@]) matches Json::Integer(n) && 100 <= n <= 999)
            ||| !o.contains_key("json"@) && o.contains_key("html"@) && !(json(o["html"@]) is Text)
        },
{
    let o = held(res);
    assert(o.contains_key("status"@) ==> entries(res)["status"@] == json(o["status"@]));
    assert(o.contains_key("html"@) ==> entries(res)["html"@] == json(o["html"@]));
}

/// The status that is sent for an object with content is the one that its entry
/// `status` names, and success where it has none.
pub proof fn law_object_status_is_sent(
    res: serde_json::Map<String, Value>,
    reply: Reply,
    response: Response<Body>,
)
    requires
        held(res).contains_key("json"@) || held(res).contains_key("html"@),
        call_ensures(render_object, (&res,), Some(reply)),
        call_ensures(Reply::into_response, (reply,), response),
    ensures
        held(res).contains_key("status"@) ==> json(held(res)["status"@]) == Json::Integer(
            wire(response).status,
        ),
        !held(res).contains_key("status"@) ==> wire(response).status == 200,
{
    assert(held(res).contains_key("status"@) ==> entries(res)["status"@] == json(
        held(res)["status"@],
    ));
}

/// What is sent for an object with an entry `json` is that very value as JSON.
pub proof fn law_object_document_is_sent(
    res: serde_json::Map<String, Value>,
    reply: Reply,
    response: Response<Body>,
)
    requires
        held(res).contains_key("json"@),
        call_ensures(render_object, (&res,), Some(reply)),
        call_ensures(Reply::into_response, (reply,), response),
    ensures
        wire(response).headers == Multiset::singleton(
            ("content-type"@, encode_utf8("application/json"@)),
        ),
        wire(response).body == serialized(held(res)["json"@]),
{
}

/// What is sent for an object with an entry `html` and none `json` is the whole
/// text of that entry as HTML.
pub proof fn law_object_page_is_sent(
    res: serde_json::Map<String, Value>,
    text: Seq<char>,
    reply: Reply,
    response: Response<Body>,
)
    requires
        !held(res).contains_key("json"@),
        held(res).contains_key("html"@),
        json(held(res)["html"@]) == Json::Text(text),
        call_ensures(render_object, (&res,), Some(reply)),
        call_ensures(Reply::into_response, (reply,), response),
    ensures
        wire(response).headers == Multiset::singleton(
            ("content-type"@, encode_utf8("text/html; charset=utf-8"@)),
        ),
        wire(response).body == encode_utf8(text),
{
    assert(entries(res)["html"@] == json(held(res)["html"@]));
}

/// What is sent for an object without content is an empty page with success.
pub proof fn law_object_without_content_is_sent_empty(
    res: serde_json::Map<String, Value>,
    reply: Reply,
    response: Response<Body>,
)
    requires
        !held(res).contains_key("json"@),
        !held(res).contains_key("html"@),
        call_ensures(render_object, (&res,), Some(reply)),
        call_ensures(Reply::into_response, (reply,), response),
    ensures
        wire(response).status == 200,
        wire(response).headers == Multiset::singleton(
            ("content-type"@, encode_utf8("text/html; charset=utf-8"@)),
        ),
        wire(response).body == encode_utf8(Seq::empty()),
{
}

/// Annotating a reply sends it with the status that the object names, or with its
/// own where the object names none, and otherwise as before. It can be asked for
/// unless the status is no integer from 100 to 999.
pub proof fn law_annotation_is_sent(
    resp_obj: serde_json::Map<String, Value>,
    can: bool,
    reply: Reply,
    annotated: Reply,
    before: Response<Body>,
    after: Response<Body>,
)
    requires
        call_ensures(can_annotate, (&resp_obj,), can),
        call_ensures(annotate_response, (&resp_obj, reply), annotated),
        call_ensures(Reply::into_response, (reply,), before),
        call_ensures(Reply::into_response, (annotated,), after),
    ensures
        can <==> (held(resp_obj).contains_key("status"@) ==> (json(held(resp_obj)["status"@]) matches
            Json::Integer(n) && 100 <= n <= 999)),
        can && held(resp_obj).contains_key("status"@) ==> json(held(resp_obj)["status"@])
            == Json::Integer(wire(after).status),
        !held(resp_obj).contains_key("status"@) ==> wire(after).status == wire(before).status,
        wire(after).headers == wire(before).headers,
        wire(after).body == wire(before).body,
{
    assert(held(resp_obj).contains_key("status"@) ==> entries(resp_obj)["status"@] == json(
        held(resp_obj)["status"@],
    ));
}

/// Every text and every value can be a reply, every status from 100 to 999 can be
/// given to it, and every reply can be sent. An object can annotate a reply where
/// it is told that it can.
pub proof fn law_nothing_that_can_be_sent_is_refused(
    text: String,
    value: Value,
    reply: Reply,
    status: u16,
    o: serde_json::Map<String, Value>,
)
    ensures
        call_requires(Reply::html, (text,)),
        call_requires(Reply::json, (value,)),
        100 <= status <= 999 ==> call_requires(Reply::with_status, (reply, status)),
        call_requires(Reply::into_response, (reply,)),
        call_requires(render_object, (&o,)),
        call_requires(can_annotate, (&o,)),
        call_ensures(can_annotate, (&o,), true) ==> call_requires(
            annotate_response,
            (&o, reply),
        ),
{
}

} // verus!
