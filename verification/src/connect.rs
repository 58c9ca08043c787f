//! How a database is opened: it is made first where it does not exist.
use vstd::prelude::*;

verus! {

/// What opening a database waits for.
#[derive(Clone, Copy, Debug, PartialEq, Eq, Structural)]
pub enum ConnectState {
    /// Whether the database exists.
    Checking,
    /// The end of making it.
    Creating,
    /// The end of connecting to it.
    Connecting,
}

/// What the database answered.
#[verifier::reject_recursive_types(P)]
pub enum ConnectEvent<P> {
    /// Whether the database exists, where that could be told.
    Exists(Option<bool>),
    /// The database was made, or the words of the error.
    Created(Result<(), String>),
    /// The connection, or the words of the error.
    Connected(Result<P, String>),
}

/// What to do next.
#[verifier::reject_recursive_types(P)]
pub enum ConnectStep<P> {
    /// Say the line and make the database.
    Create(String),
    /// Say the line and connect.
    Connect(String),
    /// The database is open.
    Open(P),
    /// Give up with the words.
    Abort(String),
}

/// What to do next, with the lines as characters.
#[verifier::reject_recursive_types(P)]
pub enum ConnectStepView<P> {
    Create(Seq<char>),
    Connect(Seq<char>),
    Open(P),
    Abort(Seq<char>),
}

impl<P> View for ConnectStep<P> {
    type V = ConnectStepView<P>;

    open spec fn view(&self) -> ConnectStepView<P> {
        match *self {
            ConnectStep::Create(line) => ConnectStepView::Create(line@),
            ConnectStep::Connect(line) => ConnectStepView::Connect(line@),
            ConnectStep::Open(pool) => ConnectStepView::Open(pool),
            ConnectStep::Abort(words) => ConnectStepView::Abort(words@),
        }
    }
}

/// Whether the event is the one that is waited for.
pub open spec fn awaits<P>(state: ConnectState, event: ConnectEvent<P>) -> bool {
    match state {
        ConnectState::Checking => event is Exists,
        ConnectState::Creating => event is Created,
        ConnectState::Connecting => event is Connected,
    }
}

/// What to do after the event. A database of which it cannot be told whether it
/// exists is made.
pub open spec fn connect_step<P>(db_url: Seq<char>, event: ConnectEvent<P>) -> ConnectStepView<P> {
    match event {
        ConnectEvent::Exists(Some(true)) => ConnectStepView::Connect("Database already exists"@),
        ConnectEvent::Exists(_) => ConnectStepView::Create("Creating database "@ + db_url),
        ConnectEvent::Created(Ok(_)) => ConnectStepView::Connect("Create db success"@),
        ConnectEvent::Created(Err(error)) => ConnectStepView::Abort("error: "@ + error@),
        ConnectEvent::Connected(Ok(pool)) => ConnectStepView::Open(pool),
        ConnectEvent::Connected(Err(error)) => ConnectStepView::Abort("error: "@ + error@),
    }
}

/// What is waited for after the event.
pub open spec fn connect_state<P>(state: ConnectState, event: ConnectEvent<P>) -> ConnectState {
    match event {
        ConnectEvent::Exists(Some(true)) => ConnectState::Connecting,
        ConnectEvent::Exists(_) => ConnectState::Creating,
        ConnectEvent::Created(Ok(_)) => ConnectState::Connecting,
        _ => state,
    }
}

/// The opening of a database that is under way.
pub struct Opening {
    pub db_url: String,
    pub state: ConnectState,
}

impl Opening {
    /// Begins with the question whether the database exists.
    pub fn begin(db_url: &str) -> (r: Opening)
        ensures
            r.db_url@ == db_url@,
            r.state == ConnectState::Checking,
    {
        Opening { db_url: db_url.to_owned(), state: ConnectState::Checking }
    }

    /// Whether the event is the one that is waited for.
    pub fn awaits<P>(&self, event: &ConnectEvent<P>) -> (r: bool)
        ensures
            r == awaits(self.state, *event),
    {
        match (self.state, event) {
            (ConnectState::Checking, ConnectEvent::Exists(_)) => true,
            (ConnectState::Creating, ConnectEvent::Created(_)) => true,
            (ConnectState::Connecting, ConnectEvent::Connected(_)) => true,
            _ => false,
        }
    }

    /// Takes the event that is waited for.
    pub fn connect_database<P>(&mut self, event: ConnectEvent<P>) -> (r: ConnectStep<P>)
        requires
            awaits(old(self).state, event),
        ensures
            r@ == connect_step(old(self).db_url@, event),
            final(self).state == connect_state(old(self).state, event),
            final(self).db_url == old(self).db_url,
    {
        match event {
            ConnectEvent::Exists(known) => {
                if known.unwrap_or(false) {
                    self.state = ConnectState::Connecting;
                    ConnectStep::Connect("Database already exists".to_owned())
                } else {
                    self.state = ConnectState::Creating;
                    let mut line = "Creating database ".to_owned();
                    line.append(self.db_url.as_str());
                    ConnectStep::Create(line)
                }
            },
            ConnectEvent::Created(result) => match result {
                Ok(_) => {
                    self.state = ConnectState::Connecting;
                    ConnectStep::Connect("Create db success".to_owned())
                },
                Err(error) => ConnectStep::Abort(error_words(error)),
            },
            ConnectEvent::Connected(result) => match result {
                Ok(pool) => ConnectStep::Open(pool),
                Err(error) => ConnectStep::Abort(error_words(error)),
            },
        }
    }
}

/// The words in which an error is reported.
fn error_words(error: String) -> (r: String)
    ensures
        r@ == "error: "@ + error@,
{
    let mut words = "error: ".to_owned();
    words.append(error.as_str());
    words
}

/// A database is made just where it is not known to exist, and it is connected
/// to just after it was found or made.
pub proof fn law_made_only_where_not_found<P>(
    db_url: Seq<char>,
    state: ConnectState,
    event: ConnectEvent<P>,
)
    requires
        awaits(state, event),
    ensures
        connect_step(db_url, event) is Create <==> (event matches ConnectEvent::Exists(known)
            && known != Some(true)),
        connect_step(db_url, event) is Connect <==> (event matches ConnectEvent::Exists(Some(true)))
            || (event matches ConnectEvent::Created(Ok(_))),
        connect_step(db_url, event) is Create ==> connect_state(state, event) is Creating,
        connect_step(db_url, event) is Connect ==> connect_state(state, event) is Connecting,
{
}

/// Opening moves forward only, so that it ends after three events.
pub proof fn law_opening_moves_forward<P>(
    db_url: Seq<char>,
    state: ConnectState,
    event: ConnectEvent<P>,
)
    requires
        awaits(state, event),
    ensures
        connect_step(db_url, event) is Open || connect_step(db_url, event) is Abort || match state {
            ConnectState::Checking => !(connect_state(state, event) is Checking),
            ConnectState::Creating => connect_state(state, event) is Connecting,
            ConnectState::Connecting => false,
        },
{
}

/// A database that is known to exist is connected to at once. Any other is made,
/// and the line that says so ends with its whole name.
pub proof fn law_found_is_connected_and_missing_is_made<P>(
    opening: &mut Opening,
    known: Option<bool>,
    step: ConnectStep<P>,
)
    requires
        call_ensures(
            Opening::connect_database::<P>,
            (opening, ConnectEvent::Exists(known)),
            step,
        ),
    ensures
        known == Some(true) ==> {
            &&& step matches ConnectStep::Connect(line)
            &&& line@ == "Database already exists"@
            &&& final(opening).state == ConnectState::Connecting
        },
        known != Some(true) ==> {
            &&& step matches ConnectStep::Create(line)
            &&& line@ == "Creating database "@ + old(opening).db_url@
            &&& final(opening).state == ConnectState::Creating
        },
        final(opening).db_url@ == old(opening).db_url@,
{
}

/// A database that was made is connected to. Where making it failed the opening is
/// given up, in words that end with the whole error.
pub proof fn law_made_is_connected<P>(
    opening: &mut Opening,
    result: Result<(), String>,
    step: ConnectStep<P>,
)
    requires
        call_ensures(
            Opening::connect_database::<P>,
            (opening, ConnectEvent::Created(result)),
            step,
        ),
    ensures
        result is Ok ==> {
            &&& step matches ConnectStep::Connect(line)
            &&& line@ == "Create db success"@
            &&& final(opening).state == ConnectState::Connecting
        },
        result matches Err(error) ==> (step matches ConnectStep::Abort(words) && words@
            == "error: "@ + error@),
        final(opening).db_url@ == old(opening).db_url@,
{
}

/// A database that was connected to is open, by that very connection. Where
/// connecting failed the opening is given up, in words that end with the whole
/// error.
pub proof fn law_connected_is_open<P>(
    opening: &mut Opening,
    result: Result<P, String>,
    step: ConnectStep<P>,
)
    requires
        call_ensures(
            Opening::connect_database::<P>,
            (opening, ConnectEvent::Connected(result)),
            step,
        ),
    ensures
        result matches Ok(pool) ==> step == ConnectStep::Open(pool),
        result matches Err(error) ==> (step matches ConnectStep::Abort(words) && words@
            == "error: "@ + error@),
        final(opening).db_url@ == old(opening).db_url@,
{
}

/// Opening begins with the question whether the database of the whole name exists,
/// and takes the answer to what it asked last, nothing else.
pub proof fn law_opening_awaits_its_answer<P>(
    db_url: &str,
    begun: Opening,
    opening: Opening,
    event: ConnectEvent<P>,
    awaited: bool,
)
    requires
        call_ensures(Opening::begin, (db_url,), begun),
        call_ensures(Opening::awaits::<P>, (&opening, &event), awaited),
    ensures
        begun.db_url@ == db_url@,
        begun.state == ConnectState::Checking,
        awaited <==> match event {
            ConnectEvent::Exists(_) => opening.state == ConnectState::Checking,
            ConnectEvent::Created(_) => opening.state == ConnectState::Creating,
            ConnectEvent::Connected(_) => opening.state == ConnectState::Connecting,
        },
{
}

/// The answer that is told to be awaited is taken.
pub proof fn law_awaited_answers_are_taken<P>(opening: &mut Opening, event: ConnectEvent<P>)
    ensures
        call_ensures(Opening::awaits::<P>, (&*old(opening), &event), true) ==> call_requires(
            Opening::connect_database::<P>,
            (opening, event),
        ),
{
}

} // verus!
