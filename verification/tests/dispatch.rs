use jsserve::dispatch::{run_loop, LoopAction, LoopEvent};
use jsserve::reply::Reply;
use jsserve::request::RouteRequest;

fn take(request: RouteRequest<u32>) -> RouteRequest<u32> {
    match run_loop(LoopEvent::Received(request)) {
        LoopAction::Run(request) => request,
        _ => panic!("not run"),
    }
}

fn status(reply: Reply) -> u16 {
    reply.into_response().status().as_u16()
}

#[test]
fn every_request_is_run() {
    let page = take(RouteRequest::for_page("/a", vec![], 7));
    assert_eq!(page.route_name, "/a");
    assert_eq!(page.response_channel, Some(7));
    let cache = take(RouteRequest::for_cache());
    assert_eq!(cache.route_name, "__create_cache");
    assert_eq!(cache.response_channel, None);
}

#[test]
fn the_loop_stops_when_nothing_can_come_in() {
    assert!(matches!(run_loop::<u32>(LoopEvent::Closed), LoopAction::Stop));
}

#[test]
fn replies_go_to_their_own_channels_in_any_order() {
    let first = take(RouteRequest::for_page("/a", vec![], 1));
    let second = take(RouteRequest::for_page("/b", vec![], 2));
    let cache = take(RouteRequest::for_cache());
    let mut sent = vec![];
    for (request, code) in [(second, 202), (cache, 203), (first, 201)] {
        let reply = Reply::html(String::new()).with_status(code);
        match run_loop(LoopEvent::Ended(request, reply)) {
            LoopAction::Send(channel, reply) => sent.push((channel, status(reply))),
            LoopAction::Nothing => {}
            _ => panic!("not the end of a run"),
        }
    }
    assert_eq!(sent, vec![(2, 202), (1, 201)]);
}
