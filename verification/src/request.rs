//! Requests that the runner is sent.
use crate::json::{
    collect, collected, entries, first_named, held, json, law_first_named_keeps_the_order,
    law_first_named_names_each_key_once, listed, said, value, Draft, Json,
};
use crate::reply::{internal_error, wire, Reply, ReplyView};
use crate::routes::{create_cache_path, RouteTable, CREATE_CACHE};
use axum::body::Body;
use axum::http::Response;
use serde_json::Value;
use vstd::prelude::*;
use vstd::utf8::encode_utf8;

verus! {

/// A request for the handler of `route_name`. The reply goes to the channel, if
/// there is one.
#[verifier::reject_recursive_types(C)]
pub struct RouteRequest<C> {
    pub route_name: String,
    pub response_channel: Option<C>,
    pub route_args: serde_json::Map<String, Value>,
}

/// The characters of both parts of each pair.
pub open spec fn param_texts(params: Seq<(String, String)>) -> Seq<(Seq<char>, Seq<char>)> {
    params.map_values(|p: (String, String)| (p.0@, p.1@))
}

/// The object of path parameters, in which a later parameter replaces an earlier
/// one of the same name.
pub open spec fn params_object(params: Seq<(Seq<char>, Seq<char>)>) -> Map<Seq<char>, Json>
    decreases params.len(),
{
    if params.len() == 0 {
        Map::empty()
    } else {
        params_object(params.drop_last()).insert(params.last().0, Json::Text(params.last().1))
    }
}

/// The names of the parameters, in their order.
pub open spec fn param_names(params: Seq<(Seq<char>, Seq<char>)>) -> Seq<Seq<char>> {
    params.map_values(|p: (Seq<char>, Seq<char>)| p.0)
}

/// The object of path parameters, which lists them in the order in which their
/// names first come.
pub fn route_args(params: Vec<(String, String)>) -> (r: serde_json::Map<String, Value>)
    ensures
        entries(r) == params_object(param_texts(params@)),
        listed(r) == first_named(param_names(param_texts(params@))),
        forall|i: int|
            0 <= i < params@.len() && (forall|j: int|
                i < j < params@.len() ==> (#[trigger] params@[j]).0@ != params@[i].0@)
                ==> held(r).contains_key((#[trigger] params@[i]).0@) && json(
                held(r)[params@[i].0@],
            ) == Json::Text(params@[i].1@),
{
    let ghost given = param_texts(params@);
    let mut pairs: Vec<(String, Value)> = Vec::new();
    let mut i: usize = 0;
    assert(said(collected(pairs@)) =~= params_object(given.take(0)));
    while i < params.len()
        invariant
            given == param_texts(params@),
            i <= params@.len(),
            pairs@.len() == i,
            forall|j: int| 0 <= j < i ==> (#[trigger] pairs@[j]).0@ == given[j].0,
            said(collected(pairs@)) == params_object(given.take(i as int)),
        decreases params@.len() - i,
    {
        let ghost before = pairs@;
        let text = value(Draft::Text(params[i].1.clone()));
        pairs.push((params[i].0.clone(), text));
        assert(pairs@.drop_last() =~= before);
        assert(given.take(i + 1).drop_last() =~= given.take(i as int));
        i += 1;
        assert(said(collected(pairs@)) =~= params_object(given.take(i as int)));
    }
    assert(given.take(i as int) =~= given);
    assert(pairs@.map_values(|p: (String, Value)| p.0@) =~= param_names(given));
    let r = collect(pairs);
    assert forall|k: int|
        0 <= k < params@.len() && (forall|j: int|
            k < j < params@.len() ==> (#[trigger] params@[j]).0@
                != params@[k].0@) implies held(r).contains_key((#[trigger] params@[k]).0@) && json(
        held(r)[params@[k].0@],
    ) == Json::Text(params@[k].1@) by {
        assert(given[k] == (params@[k].0@, params@[k].1@));
        assert forall|j: int| k < j < given.len() implies (#[trigger] given[j]).0 != given[k].0 by {
            assert(params@[j].0@ != params@[k].0@);
        }
        law_last_parameter_wins(given, k);
        assert(entries(r).contains_key(params@[k].0@));
    }
    r
}

/// Where the reply to a request goes: to the channel of the request, if it has one.
pub open spec fn delivered<C>(request: RouteRequest<C>, reply: Reply) -> Option<(C, Reply)> {
    match request.response_channel {
        Some(channel) => Some((channel, reply)),
        None => None,
    }
}

impl<C> RouteRequest<C> {
    /// Whether this is a request to build the cache, with no arguments and nobody
    /// waiting for the reply.
    pub open spec fn builds_cache(&self) -> bool {
        &&& self.route_name@ == create_cache_path()
        &&& self.response_channel is None
        &&& entries(self.route_args) == Map::<Seq<char>, Json>::empty()
    }

    /// A request for the page at `path`, whose reply goes to `channel`.
    pub fn for_page(path: &str, params: Vec<(String, String)>, channel: C) -> (r: RouteRequest<C>)
        ensures
            r.route_name@ == path@,
            r.response_channel == Some(channel),
            entries(r.route_args) == params_object(param_texts(params@)),
            listed(r.route_args) == first_named(param_names(param_texts(params@))),
    {
        RouteRequest {
            route_name: path.to_owned(),
            response_channel: Some(channel),
            route_args: route_args(params),
        }
    }

    /// A request to build the cache.
    pub fn for_cache() -> (r: RouteRequest<C>)
        ensures
            r.builds_cache(),
    {
        let route_args = serde_json::Map::new();
        assert(entries(route_args) =~= Map::empty());
        RouteRequest { route_name: CREATE_CACHE.to_owned(), response_channel: None, route_args }
    }

    /// Where the reply goes: to the channel of the request, if it has one.
    pub fn deliver(self, reply: Reply) -> (r: Option<(C, Reply)>)
        ensures
            r == delivered(self, reply),
    {
        match self.response_channel {
            Some(channel) => Some((channel, reply)),
            None => None,
        }
    }
}

/// The request that fills the cache before the server starts, where a cache
/// builder is registered.
pub fn populate_initial_cache<F, C>(routes: &RouteTable<F>) -> (r: Option<RouteRequest<C>>)
    ensures
        match r {
            Some(request) => routes@.contains_key(create_cache_path()) && request.builds_cache(),
            None => !routes@.contains_key(create_cache_path()),
        },
{
    if routes.contains_key(CREATE_CACHE) {
        Some(RouteRequest::for_cache())
    } else {
        None
    }
}

/// What became of a request that was sent to the runner.
pub enum Delivery {
    /// The runner no longer takes requests.
    SendFailed,
    /// The runner dropped the request without a reply.
    NoReply,
    Replied(Reply),
}

/// What a client is answered.
pub open spec fn client_reply(delivery: Delivery) -> ReplyView {
    match delivery {
        Delivery::Replied(reply) => reply@,
        _ => internal_error(),
    }
}

/// What a client is answered: the reply of the runner, or an error where there is
/// none.
pub fn req_handler(delivery: Delivery) -> (r: Reply)
    ensures
        r@ == client_reply(delivery),
        delivery matches Delivery::Replied(reply) ==> r == reply,
        !(delivery is Replied) ==> r.value() is None,
{
    match delivery {
        Delivery::Replied(reply) => reply,
        Delivery::SendFailed => Reply::internal_error(),
        Delivery::NoReply => Reply::internal_error(),
    }
}

/// The object of path parameters has an entry for each name that was given, and
/// no other.
pub proof fn law_parameters_are_the_entries(params: Seq<(Seq<char>, Seq<char>)>, name: Seq<char>)
    ensures
        params_object(params).contains_key(name) <==> exists|i: int|
            0 <= i < params.len() && (#[trigger] params[i]).0 == name,
    decreases params.len(),
{
    if params.len() > 0 {
        let rest = params.drop_last();
        law_parameters_are_the_entries(rest, name);
        if params_object(rest).contains_key(name) {
            let i = choose|i: int| 0 <= i < rest.len() && (#[trigger] rest[i]).0 == name;
            assert(params[i].0 == name);
        }
        if exists|i: int| 0 <= i < params.len() && (#[trigger] params[i]).0 == name {
            let i = choose|i: int| 0 <= i < params.len() && (#[trigger] params[i]).0 == name;
            if i < rest.len() {
                assert(rest[i].0 == name);
            }
        }
        assert(params[params.len() - 1] == params.last());
    }
}

/// The entry of a parameter is the text that was given last under its name.
pub proof fn law_last_parameter_wins(params: Seq<(Seq<char>, Seq<char>)>, i: int)
    requires
        0 <= i < params.len(),
        forall|j: int| i < j < params.len() ==> (#[trigger] params[j]).0 != params[i].0,
    ensures
        params_object(params).contains_key(params[i].0),
        params_object(params)[params[i].0] == Json::Text(params[i].1),
    decreases params.len(),
{
    let rest = params.drop_last();
    if i < rest.len() {
        assert(params[params.len() - 1].0 != params[i].0);
        law_last_parameter_wins(rest, i);
    }
}

/// Under the name of a parameter the object holds the whole text that was given
/// last under that name, and it holds nothing else.
pub proof fn law_parameters_are_held_whole(
    params: Vec<(String, String)>,
    r: serde_json::Map<String, Value>,
    i: int,
    name: Seq<char>,
)
    requires
        call_ensures(route_args, (params,), r),
    ensures
        0 <= i < params@.len() && (forall|j: int|
            i < j < params@.len() ==> (#[trigger] params@[j]).0@ != params@[i].0@) ==> held(
            r,
        ).contains_key(params@[i].0@) && json(held(r)[params@[i].0@]) == Json::Text(
            params@[i].1@,
        ),
        held(r).contains_key(name) <==> exists|k: int|
            0 <= k < params@.len() && (#[trigger] params@[k]).0@ == name,
{
    let given = param_texts(params@);
    law_parameters_are_the_entries(given, name);
    assert(held(r).contains_key(name) <==> entries(r).contains_key(name));
    if exists|k: int| 0 <= k < given.len() && (#[trigger] given[k]).0 == name {
        let k = choose|k: int| 0 <= k < given.len() && (#[trigger] given[k]).0 == name;
        assert(params@[k].0@ == name);
    }
    if exists|k: int| 0 <= k < params@.len() && (#[trigger] params@[k]).0@ == name {
        let k = choose|k: int| 0 <= k < params@.len() && (#[trigger] params@[k]).0@ == name;
        assert(given[k].0 == name);
    }
}

/// The object lists each name once, and two names in the order in which they first
/// came.
pub proof fn law_parameters_are_listed_as_they_came(
    params: Vec<(String, String)>,
    r: serde_json::Map<String, Value>,
    i: int,
    j: int,
)
    requires
        call_ensures(route_args, (params,), r),
        0 <= i < j < params@.len(),
        forall|k: int| 0 <= k < i ==> (#[trigger] params@[k]).0@ != params@[i].0@,
        forall|k: int| 0 <= k < j ==> (#[trigger] params@[k]).0@ != params@[j].0@,
    ensures
        listed(r).no_duplicates(),
        exists|a: int, b: int|
            0 <= a < b < listed(r).len() && #[trigger] listed(r)[a] == params@[i].0@
                && #[trigger] listed(r)[b] == params@[j].0@,
{
    let names = param_names(param_texts(params@));
    assert(forall|k: int| 0 <= k < names.len() ==> #[trigger] names[k] == params@[k].0@);
    law_first_named_names_each_key_once(names, names[i]);
    let (a, b) = law_first_named_keeps_the_order(names, i, j);
    assert(listed(r)[a] == params@[i].0@ && listed(r)[b] == params@[j].0@);
}

/// The request for a page names the whole path, waits on the very channel, and has
/// the parameters as the object of parameters has them.
pub proof fn law_page_request_carries_what_was_asked<C>(
    path: &str,
    params: Vec<(String, String)>,
    channel: C,
    request: RouteRequest<C>,
    i: int,
    name: Seq<char>,
)
    requires
        call_ensures(RouteRequest::<C>::for_page, (path, params, channel), request),
    ensures
        request.route_name@ == path@,
        request.response_channel == Some(channel),
        0 <= i < params@.len() && (forall|j: int|
            i < j < params@.len() ==> (#[trigger] params@[j]).0@ != params@[i].0@) ==> held(
            request.route_args,
        ).contains_key(params@[i].0@) && json(held(request.route_args)[params@[i].0@])
            == Json::Text(params@[i].1@),
        held(request.route_args).contains_key(name) <==> exists|k: int|
            0 <= k < params@.len() && (#[trigger] params@[k]).0@ == name,
{
    let given = param_texts(params@);
    let args = request.route_args;
    law_parameters_are_the_entries(given, name);
    assert(held(args).contains_key(name) <==> entries(args).contains_key(name));
    if exists|k: int| 0 <= k < given.len() && (#[trigger] given[k]).0 == name {
        let k = choose|k: int| 0 <= k < given.len() && (#[trigger] given[k]).0 == name;
        assert(params@[k].0@ == name);
    }
    if exists|k: int| 0 <= k < params@.len() && (#[trigger] params@[k]).0@ == name {
        let k = choose|k: int| 0 <= k < params@.len() && (#[trigger] params@[k]).0@ == name;
        assert(given[k].0 == name);
    }
    if 0 <= i < params@.len() && (forall|j: int|
        i < j < params@.len() ==> (#[trigger] params@[j]).0@ != params@[i].0@) {
        assert(given[i] == (params@[i].0@, params@[i].1@));
        assert forall|j: int| i < j < given.len() implies (#[trigger] given[j]).0 != given[i].0 by {
            assert(params@[j].0@ != params@[i].0@);
        }
        law_last_parameter_wins(given, i);
        assert(entries(args).contains_key(params@[i].0@));
    }
}

/// The request to build the cache names the path of the cache builder, has no
/// parameters, and nobody waits for its reply. It is made at first exactly where a
/// handler is found under that path.
pub proof fn law_cache_request_is_for_the_builder<F, C>(
    routes: RouteTable<F>,
    builder: &str,
    found: Option<&F>,
    initial: Option<RouteRequest<C>>,
    request: RouteRequest<C>,
    name: Seq<char>,
)
    requires
        builder@ == "__create_cache"@,
        call_ensures(RouteTable::<F>::get, (&routes, builder), found),
        call_ensures(populate_initial_cache::<F, C>, (&routes,), initial),
        initial == Some(request) || call_ensures(RouteRequest::<C>::for_cache, (), request),
    ensures
        initial is Some <==> found is Some,
        request.route_name@ == "__create_cache"@,
        request.response_channel is None,
        !held(request.route_args).contains_key(name),
{
    assert(held(request.route_args).contains_key(name) ==> entries(
        request.route_args,
    ).contains_key(name));
}

/// A reply goes to the channel of its own request, unchanged, and nowhere where the
/// request has none.
pub proof fn law_reply_goes_to_its_channel<C>(
    request: RouteRequest<C>,
    reply: Reply,
    r: Option<(C, Reply)>,
)
    requires
        call_ensures(RouteRequest::<C>::deliver, (request, reply), r),
    ensures
        request.response_channel matches Some(channel) ==> r == Some((channel, reply)),
        request.response_channel is None ==> r is None,
{
}

/// A client gets the very reply of the runner; where there is none, the answer 500.
pub proof fn law_client_gets_the_reply(delivery: Delivery, r: Reply, response: Response<Body>)
    requires
        call_ensures(req_handler, (delivery,), r),
        call_ensures(Reply::into_response, (r,), response),
    ensures
        match delivery {
            Delivery::Replied(reply) => r == reply,
            Delivery::SendFailed | Delivery::NoReply => wire(response).status == 500 && wire(
                response,
            ).body == encode_utf8("Error"@),
        },
{
}

/// Any path, parameters and channel make a request, and any reply can be delivered.
pub proof fn law_any_request_can_be_made<C>(
    path: &str,
    params: Vec<(String, String)>,
    channel: C,
    request: RouteRequest<C>,
    reply: Reply,
)
    ensures
        call_requires(route_args, (params,)),
        call_requires(RouteRequest::<C>::for_page, (path, params, channel)),
        call_requires(RouteRequest::<C>::deliver, (request, reply)),
{
}

} // verus!
