//! The plain way to serve: every path is looked up in the table, handlers take no
//! argument, and of what they give only texts are shown.
use crate::reply::{not_found, page, wire, Reply};
use crate::routes::RouteTable;
use axum::body::Body;
use axum::http::Response;
use vstd::multiset::Multiset;
use vstd::prelude::*;
use vstd::utf8::encode_utf8;

verus! {

/// The handler of the path, or the answer where there is none.
pub fn find_route<'a, F>(routes: &'a RouteTable<F>, route_name: &str) -> (r: Result<&'a F, Reply>)
    ensures
        match r {
            Ok(handler) => routes@.contains_key(route_name@) && *handler == routes@[route_name@],
            Err(reply) => {
                &&& !routes@.contains_key(route_name@)
                &&& reply@ == not_found()
                &&& reply.value() is None
            },
        },
{
    match routes.get(route_name) {
        Some(handler) => Ok(handler),
        None => Err(Reply::not_found()),
    }
}

/// The page for what a handler gave: its text, or nothing where it gave no text.
pub fn text_reply(text: Option<String>) -> (r: Reply)
    ensures
        r@ == page(
            match text {
                Some(text) => text@,
                None => Seq::empty(),
            },
        ),
        r.value() is None,
{
    match text {
        Some(text) => Reply::html(text),
        None => Reply::html(String::new()),
    }
}

/// A path is answered by the handler that the table has for it, and 404 where the
/// table has none.
pub proof fn law_plain_path_has_its_handler<F>(
    routes: RouteTable<F>,
    route_name: &str,
    handler: Option<&F>,
    found: Result<&F, Reply>,
    response: Response<Body>,
)
    requires
        call_ensures(RouteTable::<F>::get, (&routes, route_name), handler),
        call_ensures(find_route::<F>, (&routes, route_name), found),
        found matches Err(reply) ==> call_ensures(Reply::into_response, (reply,), response),
    ensures
        handler matches Some(h) ==> (found matches Ok(f) && *f == *h),
        handler is None ==> {
            &&& found is Err
            &&& wire(response).status == 404
            &&& wire(response).body == encode_utf8("404 not found"@)
        },
{
}

/// A handler that gives a text is answered with the whole text, any other with an
/// empty page.
pub proof fn law_plain_text_is_sent_whole(
    text: Option<String>,
    reply: Reply,
    response: Response<Body>,
)
    requires
        call_ensures(text_reply, (text,), reply),
        call_ensures(Reply::into_response, (reply,), response),
    ensures
        wire(response).status == 200,
        wire(response).headers == Multiset::singleton(
            ("content-type"@, encode_utf8("text/html; charset=utf-8"@)),
        ),
        text matches Some(t) ==> wire(response).body == encode_utf8(t@),
        text is None ==> wire(response).body == encode_utf8(Seq::empty()),
{
}

} // verus!
