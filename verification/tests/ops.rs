use jsserve::ops::{Ops, QueryFault};
use serde_json::Value;
use sqlx::{AnyPool, Row};

fn text(s: &str) -> Value {
    Value::String(s.to_string())
}

fn ops() -> Ops<u32, &'static str, char> {
    Ops::new(None)
}

#[test]
fn scripts_start_with_nothing() {
    let ops = ops();
    assert!(ops.pool.is_none());
    assert!(ops.sender.is_none());
    assert!(ops.routes.keys().is_empty());
}

#[test]
fn scripts_register_handlers() {
    let mut ops = ops();
    ops.op_route("/", 1);
    ops.op_route("/x", 2);
    ops.op_route("/", 3);
    ops.op_create_cache(4);
    assert_eq!(ops.routes.get("/"), Some(&3));
    assert_eq!(ops.routes.get("/x"), Some(&2));
    assert_eq!(ops.routes.get("__create_cache"), Some(&4));
    assert!(ops.pool.is_none());
}

#[test]
fn statements_need_a_database() {
    let mut ops = ops();
    let fault = ops.query_fault(&vec![Value::Null]);
    assert_eq!(fault, Some(QueryFault::NotConnected));
    assert_eq!(fault.unwrap().message(), "not connected to database");
    ops.op_connect_db("first");
    assert_eq!(ops.query_fault(&vec![]), None);
    assert_eq!(*ops.op_query("select 1".to_string(), vec![]).0, "first");
    ops.op_connect_db("second");
    assert_eq!(*ops.op_execute("select 1".to_string(), vec![]).0, "second");
}

#[test]
fn unknown_arguments_are_told() {
    let mut ops = ops();
    ops.op_connect_db("db");
    for bad in [Value::Null, Value::Array(vec![]), Value::Object(serde_json::Map::new())] {
        let fault = ops.query_fault(&vec![text("a"), bad]);
        assert_eq!(fault, Some(QueryFault::UnknownArgument));
        assert_eq!(fault.unwrap().message(), "unknonw argumen");
    }
    assert_eq!(ops.query_fault(&vec![text("a"), Value::Bool(true), Value::from(1), Value::from(0.5)]), None);
}

#[test]
fn arguments_are_bound_in_order() {
    let mut ops = ops();
    ops.op_connect_db("db");
    let pars = vec![
        text("a"),
        Value::Bool(false),
        Value::from(-7),
        Value::from(i64::MAX),
        Value::from(u64::MAX),
        Value::from(1.5),
    ];
    let expected = "[Text(\"a\"), Bool(false), BigInt(-7), BigInt(9223372036854775807), \
                    Double(1.8446744073709552e19), Double(1.5)]";
    let (_, query) = ops.op_query("select ?".to_string(), pars.clone());
    assert_eq!(query.sql, "select ?");
    assert_eq!(format!("{:?}", query.arguments.values.0), expected);
    let (_, statement) = ops.op_execute("delete".to_string(), pars);
    assert_eq!(statement.sql, "delete");
    assert_eq!(format!("{:?}", statement.arguments.values.0), expected);
}

#[test]
fn the_cache_is_renewed_through_the_sender() {
    assert!(ops().op_flush_cache::<u8>().is_none());
    let ops: Ops<u32, &'static str, char> = Ops::new(Some('s'));
    let (sender, request) = ops.op_flush_cache::<u8>().unwrap();
    assert_eq!(*sender, 's');
    assert_eq!(request.route_name, "__create_cache");
    assert_eq!(request.response_channel, None);
    assert!(request.route_args.is_empty());
}

#[test]
fn a_database_takes_the_bound_arguments() {
    let rows = tokio::runtime::Builder::new_current_thread()
        .enable_all()
        .build()
        .unwrap()
        .block_on(async {
            sqlx::any::install_default_drivers();
            let pool = AnyPool::connect("sqlite::memory:").await.unwrap();
            let mut ops: Ops<u32, AnyPool, char> = Ops::new(None);
            ops.op_connect_db(pool);
            let pars = vec![text("x"), Value::from(40), Value::from(2)];
            let (pool, query) = ops.op_query("select ? || '!', ? + ?".to_string(), pars);
            sqlx::query_with(&query.sql, query.arguments).fetch_all(pool).await.unwrap()
        });
    assert_eq!(rows.len(), 1);
    assert_eq!(rows[0].get::<String, usize>(0), "x!");
    assert_eq!(rows[0].get::<i64, usize>(1), 42);
}
