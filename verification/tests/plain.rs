use axum::body::to_bytes;
use jsserve::plain::{find_route, text_reply};
use jsserve::reply::Reply;
use jsserve::routes::RouteTable;

fn page(reply: Reply) -> (u16, String) {
    let response = reply.into_response();
    let status = response.status().as_u16();
    let bytes = tokio::runtime::Builder::new_current_thread()
        .build()
        .unwrap()
        .block_on(to_bytes(response.into_body(), usize::MAX))
        .unwrap();
    (status, String::from_utf8(bytes.to_vec()).unwrap())
}

#[test]
fn a_plain_path_is_looked_up() {
    let mut routes = RouteTable::new();
    routes.insert("/", 1);
    assert!(matches!(find_route(&routes, "/"), Ok(&1)));
    match find_route(&routes, "/other") {
        Ok(_) => panic!("found"),
        Err(reply) => assert_eq!(page(reply), (404, "404 not found".to_string())),
    }
}

#[test]
fn only_texts_are_shown() {
    assert_eq!(page(text_reply(Some("hi".to_string()))), (200, "hi".to_string()));
    assert_eq!(page(text_reply(None)), (200, String::new()));
}
