//! One run of a handler, from the request to the reply.
//!
//! The handler itself runs elsewhere. A run starts by naming the handler to call
//! and its argument; each event that comes back is answered with the next thing
//! to do.
use crate::cache::Cache;
use crate::json::{entries, held, json, layer, listed, value, Draft, Json, Layer};
use crate::reply::{
    internal_error, not_found, object_reply, page, render_object, sent_value, valid_status, wire,
    Content, Reply, ReplyView,
};
use crate::request::{law_page_request_carries_what_was_asked, RouteRequest};
use crate::routes::{create_cache_path, RouteTable, CREATE_CACHE};
use axum::body::Body;
use axum::http::Response;
use serde_json::Value;
use vstd::multiset::Multiset;
use vstd::prelude::*;
use vstd::utf8::encode_utf8;

verus! {

/// What the result of a handler is to be read as.
#[derive(Clone, Copy, Debug, PartialEq, Eq, Structural)]
pub enum Conversion {
    /// Any document, for the cache.
    Document,
    Text,
    Object,
}

/// What a run waits for.
#[derive(Clone, Copy, Debug, PartialEq, Eq, Structural)]
pub enum RunState {
    /// The end of the call.
    Calling,
    /// The result of the call, read as told.
    Converting(Conversion),
}

/// A run that is under way.
pub struct RouteRun {
    /// Whether the result goes to the cache.
    pub fills_cache: bool,
    pub state: RunState,
}

/// What came back from the handler.
pub enum RunEvent {
    /// The call failed.
    Threw,
    /// The call gave a result.
    Returned { is_string: bool },
    /// The result, read as any document.
    Document(Value),
    /// The result, read as a text.
    Text(String),
    /// The result, read as an object.
    Object(serde_json::Map<String, Value>),
}

/// How a run ends.
pub enum Outcome {
    Respond(Reply),
    /// There is nothing to answer with: the run is given up.
    Abort,
}

/// The start of a run.
#[verifier::reject_recursive_types(F)]
pub enum Started<'a, F> {
    /// Call `handler` with `argument`.
    Call { run: RouteRun, handler: &'a F, argument: Value },
    Ended(Outcome),
}

/// What an event leads to.
pub enum Step {
    /// Read the result as told.
    Convert(RouteRun, Conversion),
    Ended(Outcome),
}

/// What came back from the handler, as documents.
pub enum EventView {
    Threw,
    Returned { is_string: bool },
    Document(Json),
    Text(Seq<char>),
    Object(Map<Seq<char>, Json>),
}

/// How a run ends, as documents.
pub enum OutcomeView {
    Respond(ReplyView),
    Abort,
}

/// The start of a run, as documents.
#[verifier::reject_recursive_types(F)]
pub enum StartedView<F> {
    Call { run: RouteRun, handler: F, argument: Json },
    Ended(OutcomeView),
}

/// What an event leads to, as documents.
pub enum StepView {
    Convert(RouteRun, Conversion),
    Ended(OutcomeView),
}

impl View for RunEvent {
    type V = EventView;

    open spec fn view(&self) -> EventView {
        match *self {
            RunEvent::Threw => EventView::Threw,
            RunEvent::Returned { is_string } => EventView::Returned { is_string },
            RunEvent::Document(v) => EventView::Document(json(v)),
            RunEvent::Text(s) => EventView::Text(s@),
            RunEvent::Object(o) => EventView::Object(entries(o)),
        }
    }
}

impl View for Outcome {
    type V = OutcomeView;

    open spec fn view(&self) -> OutcomeView {
        match *self {
            Outcome::Respond(reply) => OutcomeView::Respond(reply@),
            Outcome::Abort => OutcomeView::Abort,
        }
    }
}

impl<'a, F> View for Started<'a, F> {
    type V = StartedView<F>;

    open spec fn view(&self) -> StartedView<F> {
        match *self {
            Started::Call { run, handler, argument } => StartedView::Call {
                run,
                handler: *handler,
                argument: json(argument),
            },
            Started::Ended(outcome) => StartedView::Ended(outcome@),
        }
    }
}

impl View for Step {
    type V = StepView;

    open spec fn view(&self) -> StepView {
        match *self {
            Step::Convert(run, conversion) => StepView::Convert(run, conversion),
            Step::Ended(outcome) => StepView::Ended(outcome@),
        }
    }
}

/// The argument of a handler: an object that holds the path parameters.
pub open spec fn request_object(args: Map<Seq<char>, Json>) -> Json {
    Json::Object(Map::empty().insert("params"@, Json::Object(args)))
}

/// Whether `argument` is an object with the single entry `params`, which is made
/// of the very object of path parameters.
pub open spec fn carries(argument: Value, args: serde_json::Map<String, Value>) -> bool {
    layer(argument) matches Layer::Object(request) && {
        &&& held(request).dom() == set!["params"@]
        &&& listed(request) == seq!["params"@]
        &&& layer(held(request)["params"@]) == Layer::Object(args)
    }
}

/// The very value that is sent after an event, if a document is sent.
pub open spec fn value_sent(event: RunEvent) -> Option<Value> {
    match event {
        RunEvent::Object(o) => sent_value(held(o)),
        _ => None,
    }
}

/// The very value that is cached after an event.
pub open spec fn value_cached(cached: Value, event: RunEvent) -> Value {
    match event {
        RunEvent::Document(document) => document,
        _ => cached,
    }
}

/// How a run of `name` starts. Without a handler the request is answered that
/// there is none, but a run that was to fill the cache is given up.
pub open spec fn started<F>(
    routes: Map<Seq<char>, F>,
    name: Seq<char>,
    args: Map<Seq<char>, Json>,
) -> StartedView<F> {
    let fills_cache = name == create_cache_path();
    if routes.contains_key(name) {
        StartedView::Call {
            run: RouteRun { fills_cache, state: RunState::Calling },
            handler: routes[name],
            argument: request_object(args),
        }
    } else if fills_cache {
        StartedView::Ended(OutcomeView::Abort)
    } else {
        StartedView::Ended(OutcomeView::Respond(not_found()))
    }
}

/// Whether the run waits for the event.
pub open spec fn expects(run: RouteRun, event: EventView) -> bool {
    match run.state {
        RunState::Calling => event is Threw || event is Returned,
        RunState::Converting(Conversion::Document) => event is Document,
        RunState::Converting(Conversion::Text) => event is Text,
        RunState::Converting(Conversion::Object) => event is Object,
    }
}

/// What the result is to be read as.
pub open spec fn conversion(fills_cache: bool, is_string: bool) -> Conversion {
    if fills_cache {
        Conversion::Document
    } else if is_string {
        Conversion::Text
    } else {
        Conversion::Object
    }
}

/// What an event that the run waits for leads to.
pub open spec fn step_of(run: RouteRun, event: EventView) -> StepView {
    match event {
        EventView::Threw => StepView::Ended(
            if run.fills_cache {
                OutcomeView::Abort
            } else {
                OutcomeView::Respond(internal_error())
            },
        ),
        EventView::Returned { is_string } => {
            let wanted = conversion(run.fills_cache, is_string);
            StepView::Convert(
                RouteRun { fills_cache: run.fills_cache, state: RunState::Converting(wanted) },
                wanted,
            )
        },
        EventView::Document(_) => StepView::Ended(OutcomeView::Respond(page(Seq::empty()))),
        EventView::Text(text) => StepView::Ended(OutcomeView::Respond(page(text))),
        EventView::Object(o) => StepView::Ended(
            match object_reply(o) {
                Some(reply) => OutcomeView::Respond(reply),
                None => OutcomeView::Abort,
            },
        ),
    }
}

/// The cache after an event: a result that was read for the cache replaces it.
pub open spec fn cache_after(cache: Json, event: EventView) -> Json {
    match event {
        EventView::Document(document) => document,
        _ => cache,
    }
}

/// The handler of the request and the argument to call it with, or the answer
/// where there is none.
pub fn run_route_value<'a, F, C>(routes: &'a RouteTable<F>, req: &RouteRequest<C>) -> (r: Result<
    (&'a F, Value),
    Reply,
>)
    ensures
        match r {
            Ok((handler, argument)) => {
                &&& routes@.contains_key(req.route_name@)
                &&& *handler == routes@[req.route_name@]
                &&& json(argument) == request_object(entries(req.route_args))
                &&& carries(argument, req.route_args)
            },
            Err(reply) => {
                &&& !routes@.contains_key(req.route_name@)
                &&& reply@ == not_found()
                &&& reply.value() is None
            },
        },
{
    match routes.get(req.route_name.as_str()) {
        Some(handler) => {
            let params = value(Draft::Object(req.route_args.clone()));
            let mut request = serde_json::Map::new();
            request.insert("params".to_owned(), params);
            proof {
                assert(held(request).dom() =~= set!["params"@]);
                assert(entries(request) =~= Map::empty().insert("params"@, json(params)));
            }
            Ok((handler, value(Draft::Object(request))))
        },
        None => Err(Reply::not_found()),
    }
}

impl RouteRun {
    /// Starts a run of the handler that the request names.
    pub fn start<'a, F, C>(routes: &'a RouteTable<F>, req: &RouteRequest<C>) -> (r: Started<'a, F>)
        ensures
            r@ == started(routes@, req.route_name@, entries(req.route_args)),
            match r {
                Started::Call { argument, .. } => carries(argument, req.route_args),
                Started::Ended(Outcome::Respond(reply)) => reply.value() is None,
                Started::Ended(Outcome::Abort) => true,
            },
    {
        let fills_cache = req.route_name == CREATE_CACHE.to_owned();
        match run_route_value(routes, req) {
            Ok((handler, argument)) => Started::Call {
                run: RouteRun { fills_cache, state: RunState::Calling },
                handler,
                argument,
            },
            Err(reply) => if fills_cache {
                Started::Ended(Outcome::Abort)
            } else {
                Started::Ended(Outcome::Respond(reply))
            },
        }
    }

    /// Whether the run waits for the event.
    pub fn expects(&self, event: &RunEvent) -> (r: bool)
        ensures
            r == expects(*self, event@),
    {
        match (self.state, event) {
            (RunState::Calling, RunEvent::Threw) => true,
            (RunState::Calling, RunEvent::Returned { .. }) => true,
            (RunState::Converting(Conversion::Document), RunEvent::Document(_)) => true,
            (RunState::Converting(Conversion::Text), RunEvent::Text(_)) => true,
            (RunState::Converting(Conversion::Object), RunEvent::Object(_)) => true,
            _ => false,
        }
    }

    /// Takes the event that the run waits for, and fills the cache where the
    /// result is meant for it.
    pub fn run_route(self, event: RunEvent, cache: &mut Cache) -> (r: Step)
        requires
            expects(self, event@),
        ensures
            r@ == step_of(self, event@),
            r matches Step::Ended(Outcome::Respond(reply)) ==> reply.value() == value_sent(event),
            event matches RunEvent::Text(text) ==> (r matches Step::Ended(Outcome::Respond(reply))
                && reply@ == (ReplyView { status: 200, content: Content::Html(text@) })),
            final(cache)@ == cache_after(old(cache)@, event@),
            final(cache).value() == value_cached(old(cache).value(), event),
    {
        match event {
            RunEvent::Threw => if self.fills_cache {
                Step::Ended(Outcome::Abort)
            } else {
                Step::Ended(Outcome::Respond(Reply::internal_error()))
            },
            RunEvent::Returned { is_string } => {
                let wanted = if self.fills_cache {
                    Conversion::Document
                } else if is_string {
                    Conversion::Text
                } else {
                    Conversion::Object
                };
                let run = RouteRun {
                    fills_cache: self.fills_cache,
                    state: RunState::Converting(wanted),
                };
                Step::Convert(run, wanted)
            },
            RunEvent::Document(document) => {
                cache.store(document);
                Step::Ended(Outcome::Respond(Reply::html(String::new())))
            },
            RunEvent::Text(text) => Step::Ended(Outcome::Respond(Reply::html(text))),
            RunEvent::Object(o) => match render_object(&o) {
                Some(reply) => Step::Ended(Outcome::Respond(reply)),
                None => Step::Ended(Outcome::Abort),
            },
        }
    }
}

/// How a handler behaves: it fails, or gives a result that reads as these.
pub enum Behaviour {
    Throws,
    Gives {
        is_string: bool,
        document: Json,
        text: Seq<char>,
        object: Map<Seq<char>, Json>,
    },
}

/// The result of the handler, read as told.
pub open spec fn reading(behaviour: Behaviour, wanted: Conversion) -> EventView
    recommends
        behaviour is Gives,
{
    match wanted {
        Conversion::Document => EventView::Document(behaviour->document),
        Conversion::Text => EventView::Text(behaviour->text),
        Conversion::Object => EventView::Object(behaviour->object),
    }
}

/// The end of a whole run, and the cache after it, where each event that the run
/// waits for comes from a handler of that behaviour.
pub open spec fn whole_run<F>(
    routes: Map<Seq<char>, F>,
    name: Seq<char>,
    args: Map<Seq<char>, Json>,
    behaviour: Behaviour,
    cache: Json,
) -> (OutcomeView, Json) {
    match started(routes, name, args) {
        StartedView::Ended(outcome) => (outcome, cache),
        StartedView::Call { run, .. } => {
            let event = match behaviour {
                Behaviour::Throws => EventView::Threw,
                Behaviour::Gives { is_string, .. } => EventView::Returned { is_string },
            };
            match step_of(run, event) {
                StepView::Ended(outcome) => (outcome, cache_after(cache, event)),
                StepView::Convert(next, wanted) => {
                    let result = reading(behaviour, wanted);
                    match step_of(next, result) {
                        StepView::Ended(outcome) => (
                            outcome,
                            cache_after(cache_after(cache, event), result),
                        ),
                        StepView::Convert(_, _) => arbitrary(),
                    }
                },
            }
        },
    }
}

/// Whether the result of the run is read as a document just where it is meant for
/// the cache.
pub open spec fn consistent(run: RouteRun) -> bool {
    run.state matches RunState::Converting(wanted) ==> (wanted is Document <==> run.fills_cache)
}

/// A run starts consistent and every step keeps it so.
pub proof fn law_run_stays_consistent<F>(
    routes: Map<Seq<char>, F>,
    name: Seq<char>,
    args: Map<Seq<char>, Json>,
    run: RouteRun,
    event: EventView,
)
    ensures
        started(routes, name, args) matches StartedView::Call { run: first, .. } ==> consistent(
            first,
        ),
        consistent(run) && expects(run, event) ==> (step_of(run, event) matches StepView::Convert(
            next,
            _,
        ) ==> consistent(next)),
{
}

/// A run takes at most two events: the end of the call, and, where that gave a
/// result, the result read as told, which the run then waits for. The second
/// event always ends it.
pub proof fn law_run_ends_after_two_events(run: RouteRun, first: EventView, second: EventView)
    requires
        run.state is Calling,
        expects(run, first),
    ensures
        match step_of(run, first) {
            StepView::Ended(_) => first is Threw,
            StepView::Convert(next, wanted) => {
                &&& first is Returned
                &&& next.state == RunState::Converting(wanted)
                &&& expects(next, second) ==> step_of(next, second) is Ended
            },
        },
{
}

/// A request for a path without a handler is answered 404, and no handler is
/// called. The path of the cache builder is the exception.
pub proof fn law_unknown_path_is_not_found<F>(
    routes: Map<Seq<char>, F>,
    name: Seq<char>,
    args: Map<Seq<char>, Json>,
    behaviour: Behaviour,
    cache: Json,
)
    requires
        !routes.contains_key(name),
        name != create_cache_path(),
    ensures
        started(routes, name, args) is Ended,
        whole_run(routes, name, args, behaviour, cache) == (
            OutcomeView::Respond(not_found()),
            cache,
        ),
{
}

/// A request for a path with a handler calls that handler, with the path
/// parameters under `params` and nothing else.
pub proof fn law_known_path_calls_its_handler<F>(
    routes: Map<Seq<char>, F>,
    name: Seq<char>,
    args: Map<Seq<char>, Json>,
)
    requires
        routes.contains_key(name),
    ensures
        started(routes, name, args) matches StartedView::Call { handler, argument, .. } && {
            &&& handler == routes[name]
            &&& argument matches Json::Object(o) && o.dom() == set!["params"@] && o["params"@]
                == Json::Object(args)
        },
{
    assert(request_object(args)->Object_0.dom() =~= set!["params"@]);
}

/// A page whose handler fails is answered 500.
pub proof fn law_failing_handler_is_internal_error<F>(
    routes: Map<Seq<char>, F>,
    name: Seq<char>,
    args: Map<Seq<char>, Json>,
    cache: Json,
)
    requires
        routes.contains_key(name),
        name != create_cache_path(),
    ensures
        whole_run(routes, name, args, Behaviour::Throws, cache) == (
            OutcomeView::Respond(internal_error()),
            cache,
        ),
{
}

/// A page whose handler gives a text is that text; one whose handler gives an
/// object is what the object asks for.
pub proof fn law_page_is_what_the_handler_gives<F>(
    routes: Map<Seq<char>, F>,
    name: Seq<char>,
    args: Map<Seq<char>, Json>,
    behaviour: Behaviour,
    cache: Json,
)
    requires
        routes.contains_key(name),
        name != create_cache_path(),
        behaviour is Gives,
    ensures
        whole_run(routes, name, args, behaviour, cache).0 == if behaviour->is_string {
            OutcomeView::Respond(page(behaviour->text))
        } else {
            match object_reply(behaviour->object) {
                Some(reply) => OutcomeView::Respond(reply),
                None => OutcomeView::Abort,
            }
        },
{
}

/// The run of a page leaves the cache as it is.
pub proof fn law_pages_leave_the_cache<F>(
    routes: Map<Seq<char>, F>,
    name: Seq<char>,
    args: Map<Seq<char>, Json>,
    behaviour: Behaviour,
    cache: Json,
)
    requires
        name != create_cache_path(),
    ensures
        whole_run(routes, name, args, behaviour, cache).1 == cache,
{
}

/// The cache builder, where it gives a result, replaces the cache by it, and is
/// answered with an empty page. Where it fails or is missing the cache stays and
/// the run is given up.
pub proof fn law_cache_builder_fills_the_cache<F>(
    routes: Map<Seq<char>, F>,
    args: Map<Seq<char>, Json>,
    behaviour: Behaviour,
    cache: Json,
)
    ensures
        whole_run(routes, create_cache_path(), args, behaviour, cache) == if routes.contains_key(
            create_cache_path(),
        ) && behaviour is Gives {
            (OutcomeView::Respond(page(Seq::empty())), behaviour->document)
        } else {
            (OutcomeView::Abort, cache)
        },
{
}

/// A request to build the cache, where a builder is registered, calls it without
/// path parameters, and its result goes to the cache.
pub proof fn law_cache_request_calls_the_builder<F, C>(
    routes: Map<Seq<char>, F>,
    request: RouteRequest<C>,
)
    requires
        request.builds_cache(),
        routes.contains_key(create_cache_path()),
    ensures
        started(routes, request.route_name@, entries(request.route_args)) matches StartedView::Call {
            run,
            handler,
            argument,
        } && {
            &&& run.fills_cache
            &&& handler == routes[create_cache_path()]
            &&& argument == request_object(Map::empty())
        },
{
}

/// A run that took place.
pub struct PastRun {
    pub name: Seq<char>,
    pub args: Map<Seq<char>, Json>,
    pub behaviour: Behaviour,
}

/// Whether the run built the cache.
pub open spec fn built_cache<F>(routes: Map<Seq<char>, F>, run: PastRun) -> bool {
    &&& run.name == create_cache_path()
    &&& routes.contains_key(run.name)
    &&& run.behaviour is Gives
}

/// The cache after runs that took place one after the other.
pub open spec fn cache_after_runs<F>(
    routes: Map<Seq<char>, F>,
    runs: Seq<PastRun>,
    cache: Json,
) -> Json
    decreases runs.len(),
{
    if runs.len() == 0 {
        cache
    } else {
        let before = cache_after_runs(routes, runs.drop_last(), cache);
        whole_run(routes, runs.last().name, runs.last().args, runs.last().behaviour, before).1
    }
}

/// The cache holds what it was last built to be.
pub proof fn law_cache_is_what_was_built_last<F>(
    routes: Map<Seq<char>, F>,
    runs: Seq<PastRun>,
    cache: Json,
    i: int,
)
    requires
        0 <= i < runs.len(),
        built_cache(routes, runs[i]),
        forall|j: int| i < j < runs.len() ==> !built_cache(routes, #[trigger] runs[j]),
    ensures
        cache_after_runs(routes, runs, cache) == runs[i].behaviour->document,
    decreases runs.len(),
{
    let rest = runs.drop_last();
    if i < rest.len() {
        assert(!built_cache(routes, runs[runs.len() - 1]));
        law_cache_is_what_was_built_last(routes, rest, cache, i);
    }
}

/// Where it was never built, the cache holds what it held at first.
pub proof fn law_cache_stays_until_built<F>(
    routes: Map<Seq<char>, F>,
    runs: Seq<PastRun>,
    cache: Json,
)
    requires
        forall|j: int| 0 <= j < runs.len() ==> !built_cache(routes, #[trigger] runs[j]),
    ensures
        cache_after_runs(routes, runs, cache) == cache,
    decreases runs.len(),
{
    if runs.len() > 0 {
        assert(!built_cache(routes, runs[runs.len() - 1]));
        law_cache_stays_until_built(routes, runs.drop_last(), cache);
    }
}

/// Every reply of a run has a status that HTTP has a place for.
pub proof fn law_replies_have_valid_status<F>(
    routes: Map<Seq<char>, F>,
    name: Seq<char>,
    args: Map<Seq<char>, Json>,
    behaviour: Behaviour,
    cache: Json,
)
    ensures
        whole_run(routes, name, args, behaviour, cache).0 matches OutcomeView::Respond(reply)
            ==> valid_status(reply.status),
{
}

/// Only the cache builder and ill-formed objects make a run end without a reply.
pub proof fn law_only_ill_formed_pages_are_given_up<F>(
    routes: Map<Seq<char>, F>,
    name: Seq<char>,
    args: Map<Seq<char>, Json>,
    behaviour: Behaviour,
    cache: Json,
)
    requires
        name != create_cache_path(),
        whole_run(routes, name, args, behaviour, cache).0 is Abort,
    ensures
        routes.contains_key(name),
        behaviour matches Behaviour::Gives { is_string, object, .. } && !is_string
            && object_reply(object) is None,
{
}

/// A handler that gives a text is answered with success and the whole text as the
/// page, and the cache stays the very value that it was.
pub proof fn law_text_is_sent_whole(
    run: RouteRun,
    text: String,
    cache: &mut Cache,
    before: Value,
    step: Step,
    response: Response<Body>,
    after: Value,
)
    requires
        call_ensures(Cache::op_get_cache_value, (&*old(cache),), before),
        call_ensures(RouteRun::run_route, (run, RunEvent::Text(text), cache), step),
        call_ensures(Cache::op_get_cache_value, (&*final(cache),), after),
        step matches Step::Ended(Outcome::Respond(reply)) ==> call_ensures(
            Reply::into_response,
            (reply,),
            response,
        ),
    ensures
        step matches Step::Ended(Outcome::Respond(_)),
        wire(response).status == 200,
        wire(response).headers == Multiset::singleton(
            ("content-type"@, encode_utf8("text/html; charset=utf-8"@)),
        ),
        wire(response).body == encode_utf8(text@),
        after == before,
{
}

/// A handler that gives an object is answered with just what the object asks for,
/// and given up where it asks for nothing that can be sent. The cache stays the very
/// value that it was.
pub proof fn law_object_is_answered_as_it_asks(
    run: RouteRun,
    o: serde_json::Map<String, Value>,
    cache: &mut Cache,
    before: Value,
    rendered: Option<Reply>,
    asked: Response<Body>,
    step: Step,
    response: Response<Body>,
    after: Value,
)
    requires
        call_ensures(render_object, (&o,), rendered),
        rendered matches Some(reply) ==> call_ensures(Reply::into_response, (reply,), asked),
        call_ensures(Cache::op_get_cache_value, (&*old(cache),), before),
        call_ensures(RouteRun::run_route, (run, RunEvent::Object(o), cache), step),
        call_ensures(Cache::op_get_cache_value, (&*final(cache),), after),
        step matches Step::Ended(Outcome::Respond(reply)) ==> call_ensures(
            Reply::into_response,
            (reply,),
            response,
        ),
    ensures
        rendered is None ==> (step matches Step::Ended(Outcome::Abort)),
        rendered is Some ==> {
            &&& step matches Step::Ended(Outcome::Respond(_))
            &&& wire(response).status == wire(asked).status
            &&& wire(response).headers == wire(asked).headers
            &&& wire(response).body == wire(asked).body
        },
        after == before,
{
}

/// A document for the cache is what the cache then reads as, the very value, and
/// the run is answered with an empty page.
pub proof fn law_document_goes_to_the_cache(
    run: RouteRun,
    document: Value,
    cache: &mut Cache,
    step: Step,
    response: Response<Body>,
    after: Value,
)
    requires
        call_ensures(RouteRun::run_route, (run, RunEvent::Document(document), cache), step),
        call_ensures(Cache::op_get_cache_value, (&*final(cache),), after),
        step matches Step::Ended(Outcome::Respond(reply)) ==> call_ensures(
            Reply::into_response,
            (reply,),
            response,
        ),
    ensures
        after == document,
        step matches Step::Ended(Outcome::Respond(_)),
        wire(response).status == 200,
        wire(response).body == encode_utf8(Seq::empty()),
{
}

/// A page whose handler fails is answered 500, and a cache builder that fails is
/// given up. The cache stays the very value that it was.
pub proof fn law_failure_is_answered(
    run: RouteRun,
    cache: &mut Cache,
    before: Value,
    step: Step,
    response: Response<Body>,
    after: Value,
)
    requires
        call_ensures(Cache::op_get_cache_value, (&*old(cache),), before),
        call_ensures(RouteRun::run_route, (run, RunEvent::Threw, cache), step),
        call_ensures(Cache::op_get_cache_value, (&*final(cache),), after),
        step matches Step::Ended(Outcome::Respond(reply)) ==> call_ensures(
            Reply::into_response,
            (reply,),
            response,
        ),
    ensures
        run.fills_cache ==> (step matches Step::Ended(Outcome::Abort)),
        !run.fills_cache ==> {
            &&& step matches Step::Ended(Outcome::Respond(_))
            &&& wire(response).status == 500
            &&& wire(response).body == encode_utf8("Error"@)
        },
        after == before,
{
}

/// A result is read as a document where it is meant for the cache, else as a text
/// where it is one, else as an object; the run then waits for just that reading. The
/// cache stays the very value that it was.
pub proof fn law_result_is_read_by_its_use(
    run: RouteRun,
    is_string: bool,
    cache: &mut Cache,
    before: Value,
    step: Step,
    after: Value,
    event: RunEvent,
    awaited: bool,
)
    requires
        call_ensures(Cache::op_get_cache_value, (&*old(cache),), before),
        call_ensures(RouteRun::run_route, (run, RunEvent::Returned { is_string }, cache), step),
        call_ensures(Cache::op_get_cache_value, (&*final(cache),), after),
        step matches Step::Convert(next, _) ==> call_ensures(
            RouteRun::expects,
            (&next, &event),
            awaited,
        ),
    ensures
        step matches Step::Convert(next, wanted) && {
            &&& next.fills_cache == run.fills_cache
            &&& wanted is Document <==> run.fills_cache
            &&& wanted is Text <==> !run.fills_cache && is_string
            &&& wanted is Object <==> !run.fills_cache && !is_string
            &&& awaited <==> match event {
                RunEvent::Document(_) => wanted is Document,
                RunEvent::Text(_) => wanted is Text,
                RunEvent::Object(_) => wanted is Object,
                RunEvent::Threw | RunEvent::Returned { .. } => false,
            }
        },
        after == before,
{
}

/// A request is run by the handler that the table has for its path. The argument is
/// an object whose only entry, `params`, is the object of path parameters of the
/// request. The result is meant for the cache exactly where the path is that of the
/// cache builder, and the run waits for the end of the call.
pub proof fn law_request_calls_its_handler<F, C>(
    routes: RouteTable<F>,
    req: RouteRequest<C>,
    path: &str,
    found: Option<&F>,
    start: Started<'_, F>,
    event: RunEvent,
    awaited: bool,
)
    requires
        path@ == req.route_name@,
        call_ensures(RouteTable::<F>::get, (&routes, path), found),
        call_ensures(RouteRun::start::<F, C>, (&routes, &req), start),
        start matches Started::Call { run, .. } ==> call_ensures(
            RouteRun::expects,
            (&run, &event),
            awaited,
        ),
    ensures
        found matches Some(h) ==> (start matches Started::Call { run, handler, argument } && {
            &&& *handler == *h
            &&& layer(argument) matches Layer::Object(o) && held(o).dom() == set!["params"@]
                && listed(o) == seq!["params"@] && layer(held(o)["params"@]) == Layer::Object(
                req.route_args,
            )
            &&& run.fills_cache <==> req.route_name@ == "__create_cache"@
            &&& awaited <==> event is Threw || event is Returned
        }),
        found is None ==> start is Ended,
{
}

/// A request for a path without a handler is answered 404; one for the cache builder
/// is given up.
pub proof fn law_request_without_a_handler<F, C>(
    routes: RouteTable<F>,
    req: RouteRequest<C>,
    path: &str,
    start: Started<'_, F>,
    response: Response<Body>,
)
    requires
        path@ == req.route_name@,
        call_ensures(RouteTable::<F>::get, (&routes, path), None::<&F>),
        call_ensures(RouteRun::start::<F, C>, (&routes, &req), start),
        start matches Started::Ended(Outcome::Respond(reply)) ==> call_ensures(
            Reply::into_response,
            (reply,),
            response,
        ),
    ensures
        req.route_name@ == "__create_cache"@ ==> (start matches Started::Ended(Outcome::Abort)),
        req.route_name@ != "__create_cache"@ ==> {
            &&& start matches Started::Ended(Outcome::Respond(_))
            &&& wire(response).status == 404
            &&& wire(response).body == encode_utf8("404 not found"@)
        },
{
}

/// The handler of a request and its argument are those that the run is started with,
/// and without a handler the answer is 404.
pub proof fn law_handler_and_argument<F, C>(
    routes: RouteTable<F>,
    req: RouteRequest<C>,
    path: &str,
    found: Option<&F>,
    r: Result<(&F, Value), Reply>,
    response: Response<Body>,
)
    requires
        path@ == req.route_name@,
        call_ensures(RouteTable::<F>::get, (&routes, path), found),
        call_ensures(run_route_value::<F, C>, (&routes, &req), r),
        r matches Err(reply) ==> call_ensures(Reply::into_response, (reply,), response),
    ensures
        found matches Some(h) ==> (r matches Ok((handler, argument)) && *handler == *h && (layer(
            argument,
        ) matches Layer::Object(o) && held(o).dom() == set!["params"@] && layer(
            held(o)["params"@],
        ) == Layer::Object(req.route_args))),
        found is None ==> {
            &&& r is Err
            &&& wire(response).status == 404
            &&& wire(response).body == encode_utf8("404 not found"@)
        },
{
}

/// What a client asks for in a path reaches the handler: under the name of a
/// parameter, inside `params`, stands the whole text that was given last under that
/// name.
pub proof fn law_parameters_reach_the_handler<F, C>(
    routes: RouteTable<F>,
    path: &str,
    params: Vec<(String, String)>,
    channel: C,
    req: RouteRequest<C>,
    run: RouteRun,
    handler: &F,
    argument: Value,
    i: int,
)
    requires
        call_ensures(RouteRequest::<C>::for_page, (path, params, channel), req),
        call_ensures(
            RouteRun::start::<F, C>,
            (&routes, &req),
            Started::Call { run, handler, argument },
        ),
        0 <= i < params@.len(),
        forall|j: int| i < j < params@.len() ==> (#[trigger] params@[j]).0@ != params@[i].0@,
    ensures
        layer(argument) matches Layer::Object(o) && (layer(held(o)["params"@]) matches Layer::Object(
            args,
        ) && held(args).contains_key(params@[i].0@) && json(held(args)[params@[i].0@])
            == Json::Text(params@[i].1@)),
{
    law_page_request_carries_what_was_asked(path, params, channel, req, i, params@[i].0@);
}

/// Any request can be started, and a run takes every event that it is told to wait
/// for.
pub proof fn law_awaited_events_are_taken<F, C>(
    routes: RouteTable<F>,
    req: RouteRequest<C>,
    run: RouteRun,
    event: RunEvent,
    cache: &mut Cache,
)
    ensures
        call_requires(RouteRun::start::<F, C>, (&routes, &req)),
        call_ensures(RouteRun::expects, (&run, &event), true) ==> call_requires(
            RouteRun::run_route,
            (run, event, cache),
        ),
{
}

} // verus!
