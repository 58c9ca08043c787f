use jsserve::reply::Reply;
use jsserve::request::{
    populate_initial_cache, req_handler, route_args, Delivery, RouteRequest,
};
use jsserve::routes::{RouteTable, CREATE_CACHE};
use serde_json::Value;

fn pair(k: &str, v: &str) -> (String, String) {
    (k.to_string(), v.to_string())
}

#[test]
fn parameters_become_texts() {
    let args = route_args(vec![pair("id", "7"), pair("name", "Ann")]);
    assert_eq!(args.len(), 2);
    assert_eq!(args.get("id"), Some(&Value::String("7".to_string())));
    assert_eq!(args.get("name"), Some(&Value::String("Ann".to_string())));
    assert!(route_args(vec![]).is_empty());
}

#[test]
fn the_last_parameter_of_a_name_wins() {
    let args = route_args(vec![pair("id", "1"), pair("x", "2"), pair("id", "3")]);
    assert_eq!(args.len(), 2);
    assert_eq!(args.get("id"), Some(&Value::String("3".to_string())));
    assert_eq!(args.get("x"), Some(&Value::String("2".to_string())));
}

#[test]
fn a_page_request_waits_for_its_reply() {
    let req = RouteRequest::for_page("/user/:id", vec![pair("id", "7")], 5u8);
    assert_eq!(req.route_name, "/user/:id");
    assert_eq!(req.response_channel, Some(5));
    assert_eq!(req.route_args.get("id"), Some(&Value::String("7".to_string())));
    let (channel, reply) = req.deliver(Reply::not_found()).unwrap();
    assert_eq!(channel, 5);
    assert_eq!(reply.into_response().status().as_u16(), 404);
}

#[test]
fn nobody_waits_for_the_cache() {
    let req: RouteRequest<u8> = RouteRequest::for_cache();
    assert_eq!(req.route_name, "__create_cache");
    assert_eq!(req.response_channel, None);
    assert!(req.route_args.is_empty());
    assert!(req.deliver(Reply::not_found()).is_none());
}

#[test]
fn the_cache_is_filled_at_first_where_there_is_a_builder() {
    let mut routes = RouteTable::new();
    routes.insert("/", 1);
    assert!(populate_initial_cache::<i32, u8>(&routes).is_none());
    routes.insert(CREATE_CACHE, 2);
    let req = populate_initial_cache::<i32, u8>(&routes).unwrap();
    assert_eq!(req.route_name, CREATE_CACHE);
    assert_eq!(req.response_channel, None);
    assert!(req.route_args.is_empty());
}

#[test]
fn a_client_gets_the_reply() {
    let reply = req_handler(Delivery::Replied(Reply::html("x".to_string()).with_status(201)));
    assert_eq!(reply.into_response().status().as_u16(), 201);
}

#[test]
fn a_client_without_a_reply_gets_an_error() {
    assert_eq!(req_handler(Delivery::SendFailed).into_response().status().as_u16(), 500);
    assert_eq!(req_handler(Delivery::NoReply).into_response().status().as_u16(), 500);
}

#[test]
fn parameters_are_listed_as_they_first_come() {
    let args = route_args(vec![pair("z", "1"), pair("a", "2"), pair("z", "3")]);
    assert_eq!(Value::Object(args).to_string(), "{\"z\":\"3\",\"a\":\"2\"}");
    let request = RouteRequest::for_page("/p", vec![pair("b", "x"), pair("a", "y")], ());
    assert_eq!(Value::Object(request.route_args).to_string(), "{\"b\":\"x\",\"a\":\"y\"}");
}
