use axum::body::to_bytes;
use jsserve::cache::Cache;
use jsserve::reply::Reply;
use jsserve::request::RouteRequest;
use jsserve::routes::{RouteTable, CREATE_CACHE};
use jsserve::run::{
    run_route_value, Conversion, Outcome, RouteRun, RunEvent, RunState, Started, Step,
};
use serde_json::Value;

fn text(s: &str) -> Value {
    Value::String(s.to_string())
}

fn table() -> RouteTable<u32> {
    let mut routes = RouteTable::new();
    routes.insert("/user/:id", 1);
    routes.insert(CREATE_CACHE, 2);
    routes
}

fn request(path: &str) -> RouteRequest<()> {
    RouteRequest::for_page(path, vec![("id".to_string(), "7".to_string())], ())
}

fn page(reply: Reply) -> (u16, String) {
    let response = reply.into_response();
    let status = response.status().as_u16();
    let bytes = tokio::runtime::Builder::new_current_thread()
        .build()
        .unwrap()
        .block_on(to_bytes(response.into_body(), usize::MAX))
        .unwrap();
    (status, String::from_utf8(bytes.to_vec()).unwrap())
}

fn call(path: &str) -> RouteRun {
    match RouteRun::start(&table(), &request(path)) {
        Started::Call { run, .. } => run,
        Started::Ended(_) => panic!("no call"),
    }
}

fn convert(step: Step) -> (RouteRun, Conversion) {
    match step {
        Step::Convert(run, wanted) => (run, wanted),
        Step::Ended(_) => panic!("ended"),
    }
}

fn reply(step: Step) -> (u16, String) {
    match step {
        Step::Ended(Outcome::Respond(reply)) => page(reply),
        _ => panic!("no reply"),
    }
}

fn aborted(step: Step) -> bool {
    matches!(step, Step::Ended(Outcome::Abort))
}

#[test]
fn the_handler_gets_the_parameters() {
    let routes = table();
    let (handler, argument) = match run_route_value(&routes, &request("/user/:id")) {
        Ok(found) => found,
        Err(_) => panic!("not found"),
    };
    assert_eq!(*handler, 1);
    let mut params = serde_json::Map::new();
    params.insert("id".to_string(), text("7"));
    let mut expected = serde_json::Map::new();
    expected.insert("params".to_string(), Value::Object(params));
    assert_eq!(argument, Value::Object(expected));
}

#[test]
fn an_unknown_path_is_not_found() {
    match run_route_value(&table(), &request("/nowhere")) {
        Ok(_) => panic!("found"),
        Err(reply) => assert_eq!(page(reply), (404, "404 not found".to_string())),
    }
    match RouteRun::start(&table(), &request("/nowhere")) {
        Started::Ended(Outcome::Respond(reply)) => {
            assert_eq!(page(reply), (404, "404 not found".to_string()))
        }
        _ => panic!("not answered"),
    }
}

#[test]
fn a_missing_cache_builder_is_given_up() {
    let routes: RouteTable<u32> = RouteTable::new();
    let req: RouteRequest<()> = RouteRequest::for_cache();
    assert!(matches!(
        RouteRun::start(&routes, &req),
        Started::Ended(Outcome::Abort)
    ));
}

#[test]
fn a_run_starts_with_the_call() {
    match RouteRun::start(&table(), &request("/user/:id")) {
        Started::Call { run, handler, .. } => {
            assert_eq!(*handler, 1);
            assert!(!run.fills_cache);
            assert_eq!(run.state, RunState::Calling);
            assert!(run.expects(&RunEvent::Threw));
            assert!(run.expects(&RunEvent::Returned { is_string: true }));
            assert!(!run.expects(&RunEvent::Document(Value::Null)));
            assert!(!run.expects(&RunEvent::Text(String::new())));
            assert!(!run.expects(&RunEvent::Object(serde_json::Map::new())));
        }
        Started::Ended(_) => panic!("ended"),
    }
}

#[test]
fn a_failing_page_is_an_error() {
    let mut cache = Cache::new();
    let step = call("/user/:id").run_route(RunEvent::Threw, &mut cache);
    assert_eq!(reply(step), (500, "Error".to_string()));
    assert_eq!(cache.op_get_cache_value(), Value::Null);
}

#[test]
fn a_text_is_the_page() {
    let mut cache = Cache::new();
    let step = call("/user/:id").run_route(RunEvent::Returned { is_string: true }, &mut cache);
    let (run, wanted) = convert(step);
    assert_eq!(wanted, Conversion::Text);
    assert_eq!(run.state, RunState::Converting(Conversion::Text));
    assert!(run.expects(&RunEvent::Text(String::new())));
    assert!(!run.expects(&RunEvent::Object(serde_json::Map::new())));
    let step = run.run_route(RunEvent::Text("hello".to_string()), &mut cache);
    assert_eq!(reply(step), (200, "hello".to_string()));
    assert_eq!(cache.op_get_cache_value(), Value::Null);
}

#[test]
fn an_object_says_what_the_page_is() {
    let mut cache = Cache::new();
    let step = call("/user/:id").run_route(RunEvent::Returned { is_string: false }, &mut cache);
    let (run, wanted) = convert(step);
    assert_eq!(wanted, Conversion::Object);
    let mut o = serde_json::Map::new();
    o.insert("json".to_string(), Value::from(12));
    o.insert("status".to_string(), Value::from(201));
    assert!(run.expects(&RunEvent::Object(o.clone())));
    assert_eq!(reply(run.run_route(RunEvent::Object(o), &mut cache)), (201, "12".to_string()));
}

#[test]
fn an_ill_formed_object_is_given_up() {
    let mut cache = Cache::new();
    let step = call("/user/:id").run_route(RunEvent::Returned { is_string: false }, &mut cache);
    let (run, _) = convert(step);
    let mut o = serde_json::Map::new();
    o.insert("html".to_string(), Value::from(12));
    assert!(aborted(run.run_route(RunEvent::Object(o), &mut cache)));
}

#[test]
fn the_cache_builder_fills_the_cache() {
    for is_string in [true, false] {
        let mut cache = Cache::new();
        let run = call(CREATE_CACHE);
        assert!(run.fills_cache);
        let (run, wanted) = convert(run.run_route(RunEvent::Returned { is_string }, &mut cache));
        assert_eq!(wanted, Conversion::Document);
        assert_eq!(cache.op_get_cache_value(), Value::Null);
        assert!(run.expects(&RunEvent::Document(Value::Null)));
        let step = run.run_route(RunEvent::Document(text("built")), &mut cache);
        assert_eq!(reply(step), (200, String::new()));
        assert_eq!(cache.op_get_cache_value(), text("built"));
    }
}

#[test]
fn a_failing_cache_builder_is_given_up() {
    let mut cache = Cache::new();
    cache.store(text("before"));
    assert!(aborted(call(CREATE_CACHE).run_route(RunEvent::Threw, &mut cache)));
    assert_eq!(cache.op_get_cache_value(), text("before"));
}

#[test]
fn the_cache_is_what_was_built_last() {
    let mut cache = Cache::new();
    for n in 0..3 {
        let step = call(CREATE_CACHE).run_route(RunEvent::Returned { is_string: false }, &mut cache);
        convert(step).0.run_route(RunEvent::Document(Value::from(n)), &mut cache);
        call("/user/:id").run_route(RunEvent::Threw, &mut cache);
        assert_eq!(cache.op_get_cache_value(), Value::from(n));
    }
}

#[test]
fn values_go_through_a_run_as_they_are() {
    let mut entry = serde_json::Map::new();
    entry.insert("z".to_string(), Value::from(1));
    entry.insert("a".to_string(), Value::from(2));
    let entry = Value::Object(entry);

    let mut cache = Cache::new();
    let (run, _) = convert(
        call(CREATE_CACHE).run_route(RunEvent::Returned { is_string: false }, &mut cache),
    );
    run.run_route(RunEvent::Document(entry.clone()), &mut cache);
    assert_eq!(cache.op_get_cache_value().to_string(), entry.to_string());

    let mut object = serde_json::Map::new();
    object.insert("json".to_string(), entry.clone());
    let (run, _) = convert(
        call("/user/:id").run_route(RunEvent::Returned { is_string: false }, &mut cache),
    );
    let sent = reply(run.run_route(RunEvent::Object(object), &mut cache));
    assert_eq!(sent, (200, entry.to_string()));
    assert_eq!(cache.op_get_cache_value().to_string(), entry.to_string());
}
