use jsserve::connect::{ConnectEvent, ConnectState, ConnectStep, Opening};

const URL: &str = "sqlite://site.db";

#[test]
fn a_database_that_exists_is_connected_to() {
    let mut opening = Opening::begin(URL);
    assert_eq!(opening.db_url, URL);
    assert_eq!(opening.state, ConnectState::Checking);
    match opening.connect_database::<u8>(ConnectEvent::Exists(Some(true))) {
        ConnectStep::Connect(line) => assert_eq!(line, "Database already exists"),
        _ => panic!("not connected"),
    }
    assert_eq!(opening.state, ConnectState::Connecting);
    match opening.connect_database(ConnectEvent::Connected(Ok(9u8))) {
        ConnectStep::Open(pool) => assert_eq!(pool, 9),
        _ => panic!("not open"),
    }
}

#[test]
fn a_database_that_is_not_found_is_made() {
    for known in [Some(false), None] {
        let mut opening = Opening::begin(URL);
        match opening.connect_database::<u8>(ConnectEvent::Exists(known)) {
            ConnectStep::Create(line) => assert_eq!(line, "Creating database sqlite://site.db"),
            _ => panic!("not made"),
        }
        assert_eq!(opening.state, ConnectState::Creating);
        match opening.connect_database::<u8>(ConnectEvent::Created(Ok(()))) {
            ConnectStep::Connect(line) => assert_eq!(line, "Create db success"),
            _ => panic!("not connected"),
        }
        assert_eq!(opening.state, ConnectState::Connecting);
    }
}

#[test]
fn errors_end_the_opening() {
    let mut opening = Opening::begin(URL);
    opening.connect_database::<u8>(ConnectEvent::Exists(None));
    match opening.connect_database::<u8>(ConnectEvent::Created(Err("full".to_string()))) {
        ConnectStep::Abort(words) => assert_eq!(words, "error: full"),
        _ => panic!("not given up"),
    }
    let mut opening = Opening::begin(URL);
    opening.connect_database::<u8>(ConnectEvent::Exists(Some(true)));
    match opening.connect_database::<u8>(ConnectEvent::Connected(Err("locked".to_string()))) {
        ConnectStep::Abort(words) => assert_eq!(words, "error: locked"),
        _ => panic!("not given up"),
    }
}

#[test]
fn each_state_awaits_its_event() {
    let events: [ConnectEvent<u8>; 3] = [
        ConnectEvent::Exists(None),
        ConnectEvent::Created(Ok(())),
        ConnectEvent::Connected(Ok(1)),
    ];
    let states = [ConnectState::Checking, ConnectState::Creating, ConnectState::Connecting];
    for (i, state) in states.into_iter().enumerate() {
        let opening = Opening { db_url: URL.to_string(), state };
        for (j, event) in events.iter().enumerate() {
            assert_eq!(opening.awaits(event), i == j);
        }
    }
}
