//! What scripts can do: register handlers, reach the database and renew the
//! cache.
use crate::json::{elements, entries, held, json, Json};
use crate::request::RouteRequest;
use crate::routes::{create_cache_path, RouteTable, CREATE_CACHE};
use crate::sql::{
    all_bindable, argument, arguments, bind, can_bind, double, is_bindable, SqlArgument,
};
use serde_json::Value;
use sqlx::any::AnyArguments;
use vstd::prelude::*;

verus! {

/// Why a statement cannot be run.
#[derive(Clone, Copy, Debug, PartialEq, Eq, Structural)]
pub enum QueryFault {
    /// No database was connected.
    NotConnected,
    /// A parameter is neither a text nor a truth value nor a number.
    UnknownArgument,
}

impl QueryFault {
    /// The words in which the fault is reported.
    pub fn message(&self) -> (r: &'static str)
        ensures
            r@ == match *self {
                QueryFault::NotConnected => "not connected to database"@,
                QueryFault::UnknownArgument => "unknonw argumen"@,
            },
    {
        match self {
            QueryFault::NotConnected => "not connected to database",
            QueryFault::UnknownArgument => "unknonw argumen",
        }
    }
}

/// Why a statement with these parameters cannot be run, if so.
pub open spec fn query_fault_of<P>(pool: Option<P>, documents: Seq<Json>) -> Option<QueryFault> {
    if pool is None {
        Some(QueryFault::NotConnected)
    } else if !all_bindable(documents) {
        Some(QueryFault::UnknownArgument)
    } else {
        None
    }
}

/// A statement with its arguments, ready to be run.
pub struct Statement<'q> {
    pub sql: String,
    pub arguments: AnyArguments<'q>,
}

impl<'q> Statement<'q> {
    /// Whether this is the statement `sql` with the arguments that the documents
    /// stand for, in their order.
    pub open spec fn runs(&self, sql: Seq<char>, documents: Seq<Json>) -> bool {
        &&& self.sql@ == sql
        &&& arguments(self.arguments) == documents.map_values(
            |document: Json| argument(document),
        )
    }
}

/// The state that scripts act on: the database they are connected to, the
/// handlers they registered, and the way to send requests to the runner.
#[verifier::reject_recursive_types(F)]
#[verifier::reject_recursive_types(P)]
#[verifier::reject_recursive_types(S)]
pub struct Ops<F, P, S> {
    pub pool: Option<P>,
    pub routes: RouteTable<F>,
    pub sender: Option<S>,
}

impl<F, P, S> Ops<F, P, S> {
    /// The state before any script ran.
    pub fn new(tx_req: Option<S>) -> (r: Ops<F, P, S>)
        ensures
            r.pool is None,
            r.routes@ == Map::<Seq<char>, F>::empty(),
            r.sender == tx_req,
    {
        Ops { pool: None, routes: RouteTable::new(), sender: tx_req }
    }

    /// Registers a handler.
    pub fn op_route(&mut self, path: &str, router: F)
        ensures
            final(self).routes@ == old(self).routes@.insert(path@, router),
            final(self).pool == old(self).pool,
            final(self).sender == old(self).sender,
    {
        self.routes.insert(path, router);
    }

    /// Registers the cache builder.
    pub fn op_create_cache(&mut self, create_cache_fn: F)
        ensures
            final(self).routes@ == old(self).routes@.insert(create_cache_path(), create_cache_fn),
            final(self).pool == old(self).pool,
            final(self).sender == old(self).sender,
    {
        self.routes.insert(CREATE_CACHE, create_cache_fn);
    }

    /// Takes a database connection in place of the one before.
    pub fn op_connect_db(&mut self, pool: P)
        ensures
            final(self).pool == Some(pool),
            final(self).routes == old(self).routes,
            final(self).sender == old(self).sender,
    {
        self.pool = Some(pool);
    }

    /// Why a statement with these parameters cannot be run, if so.
    pub fn query_fault(&self, pars: &Vec<Value>) -> (r: Option<QueryFault>)
        ensures
            r == query_fault_of(self.pool, elements(pars@)),
    {
        match self.pool {
            None => Some(QueryFault::NotConnected),
            Some(_) => if can_bind(pars) {
                None
            } else {
                Some(QueryFault::UnknownArgument)
            },
        }
    }

    /// The database to query, and the query with its arguments.
    pub fn op_query<'q>(&self, sqlq: String, pars: Vec<Value>) -> (r: (&P, Statement<'q>))
        requires
            query_fault_of(self.pool, elements(pars@)) is None,
        ensures
            self.pool == Some(*r.0),
            r.1.runs(sqlq@, elements(pars@)),
    {
        match &self.pool {
            Some(pool) => (pool, Statement { sql: sqlq, arguments: bind(pars) }),
            None => vstd::pervasive::unreached(),
        }
    }

    /// The database to run a statement on, and the statement with its arguments.
    pub fn op_execute<'q>(&self, sqlq: String, pars: Vec<Value>) -> (r: (&P, Statement<'q>))
        requires
            query_fault_of(self.pool, elements(pars@)) is None,
        ensures
            self.pool == Some(*r.0),
            r.1.runs(sqlq@, elements(pars@)),
    {
        self.op_query(sqlq, pars)
    }

    /// The request to build the cache anew and where to send it, where there is a
    /// way to send it.
    pub fn op_flush_cache<C>(&self) -> (r: Option<(&S, RouteRequest<C>)>)
        ensures
            match r {
                Some((sender, request)) => {
                    &&& self.sender == Some(*sender)
                    &&& request.builds_cache()
                },
                None => self.sender is None,
            },
    {
        match &self.sender {
            Some(sender) => Some((sender, RouteRequest::for_cache())),
            None => None,
        }
    }
}

/// Without a database every statement is refused; with one, just those whose
/// parameters cannot all be bound.
pub proof fn law_statements_need_a_database<P>(pool: P, documents: Seq<Json>)
    ensures
        query_fault_of(None::<P>, documents) == Some(QueryFault::NotConnected),
        query_fault_of(Some(pool), documents) is None <==> all_bindable(documents),
        query_fault_of(Some(pool), documents) != Some(QueryFault::NotConnected),
{
}

/// Before any script ran there is no database and no handler for any path, and
/// requests are sent the way that was given.
pub proof fn law_at_first_nothing_is_there<F, P, S>(
    tx_req: Option<S>,
    ops: Ops<F, P, S>,
    asked: &str,
    found: Option<&F>,
)
    requires
        call_ensures(Ops::<F, P, S>::new, (tx_req,), ops),
        call_ensures(RouteTable::<F>::get, (&ops.routes, asked), found),
    ensures
        ops.pool is None,
        ops.sender == tx_req,
        found is None,
{
}

/// A handler that a script registers is found under the whole path; other paths,
/// the database and the way to send requests stay as they were.
pub proof fn law_registered_by_a_script<F, P, S>(
    ops: &mut Ops<F, P, S>,
    path: &str,
    router: F,
    asked: &str,
    before: Option<&F>,
    after: Option<&F>,
)
    requires
        call_ensures(RouteTable::<F>::get, (&old(ops).routes, asked), before),
        call_ensures(Ops::<F, P, S>::op_route, (ops, path, router), ()),
        call_ensures(RouteTable::<F>::get, (&final(ops).routes, asked), after),
    ensures
        asked@ == path@ ==> (after matches Some(h) && *h == router),
        asked@ != path@ ==> (after is Some <==> before is Some),
        asked@ != path@ && after is Some ==> *(after->0) == *(before->0),
        final(ops).pool == old(ops).pool,
        final(ops).sender == old(ops).sender,
{
}

/// The cache builder that a script registers is found under its path; other paths,
/// the database and the way to send requests stay as they were.
pub proof fn law_cache_builder_is_registered<F, P, S>(
    ops: &mut Ops<F, P, S>,
    create_cache_fn: F,
    asked: &str,
    before: Option<&F>,
    after: Option<&F>,
)
    requires
        call_ensures(RouteTable::<F>::get, (&old(ops).routes, asked), before),
        call_ensures(Ops::<F, P, S>::op_create_cache, (ops, create_cache_fn), ()),
        call_ensures(RouteTable::<F>::get, (&final(ops).routes, asked), after),
    ensures
        asked@ == "__create_cache"@ ==> (after matches Some(h) && *h == create_cache_fn),
        asked@ != "__create_cache"@ ==> (after is Some <==> before is Some),
        asked@ != "__create_cache"@ && after is Some ==> *(after->0) == *(before->0),
        final(ops).pool == old(ops).pool,
        final(ops).sender == old(ops).sender,
{
}

/// The database that statements go to is the one that was connected last; handlers
/// and the way to send requests stay as they were.
pub proof fn law_connected_database_is_used<F, P, S>(
    ops: &mut Ops<F, P, S>,
    pool: P,
    sqlq: String,
    pars: Vec<Value>,
    queried: (&P, Statement<'_>),
    executed: (&P, Statement<'_>),
)
    requires
        call_ensures(Ops::<F, P, S>::op_connect_db, (ops, pool), ()),
        call_ensures(Ops::<F, P, S>::op_query, (&*final(ops), sqlq, pars), queried),
        call_ensures(Ops::<F, P, S>::op_execute, (&*final(ops), sqlq, pars), executed),
    ensures
        *queried.0 == pool,
        *executed.0 == pool,
        final(ops).routes == old(ops).routes,
        final(ops).sender == old(ops).sender,
{
}

/// A statement is run with its whole text, and with an argument for each parameter,
/// in their order: the same truth value, text or integer of 64 bits with a sign,
/// and the double of any other number. A query and a statement are bound alike.
pub proof fn law_statement_is_run_as_given<F, P, S>(
    ops: Ops<F, P, S>,
    sqlq: String,
    pars: Vec<Value>,
    queried: (&P, Statement<'_>),
    executed: (&P, Statement<'_>),
    i: int,
)
    requires
        call_ensures(Ops::<F, P, S>::op_query, (&ops, sqlq, pars), queried),
        call_ensures(Ops::<F, P, S>::op_execute, (&ops, sqlq, pars), executed),
    ensures
        ops.pool == Some(*queried.0),
        queried.1.sql@ == sqlq@,
        arguments(queried.1.arguments).len() == pars@.len(),
        0 <= i < pars@.len() ==> {
            let bound = arguments(queried.1.arguments)[i];
            &&& json(pars@[i]) matches Json::Bool(b) ==> bound == SqlArgument::Bool(b)
            &&& json(pars@[i]) matches Json::Text(text) ==> bound == SqlArgument::Text(text)
            &&& json(pars@[i]) matches Json::Integer(k) ==> if i64::MIN <= k <= i64::MAX {
                bound matches SqlArgument::BigInt(n) && n == k
            } else {
                bound == SqlArgument::Double(double(json(pars@[i])))
            }
            &&& json(pars@[i]) is Real ==> bound == SqlArgument::Double(double(json(pars@[i])))
        },
        *executed.0 == *queried.0,
        executed.1.sql@ == sqlq@,
        arguments(executed.1.arguments) == arguments(queried.1.arguments),
{
    if 0 <= i < pars@.len() {
        assert(elements(pars@)[i] == json(pars@[i]));
    }
}

/// A statement can be run exactly where a database is connected and each parameter
/// is a text, a truth value or a number; a missing database is told first. Each
/// fault has its words.
pub proof fn law_statement_faults<F, P, S>(
    ops: Ops<F, P, S>,
    pars: Vec<Value>,
    fault: Option<QueryFault>,
    words: &str,
)
    requires
        call_ensures(Ops::<F, P, S>::query_fault, (&ops, &pars), fault),
        fault matches Some(f) ==> call_ensures(QueryFault::message, (&f,), words),
    ensures
        fault is None <==> ops.pool is Some && forall|i: int|
            0 <= i < pars@.len() ==> match json(#[trigger] pars@[i]) {
                Json::Text(_) | Json::Bool(_) | Json::Integer(_) | Json::Real(_) => true,
                _ => false,
            },
        fault is Some ==> words@ == if ops.pool is None {
            "not connected to database"@
        } else {
            "unknonw argumen"@
        },
{
    let documents = elements(pars@);
    if all_bindable(documents) {
        assert forall|i: int| 0 <= i < pars@.len() implies match json(#[trigger] pars@[i]) {
            Json::Text(_) | Json::Bool(_) | Json::Integer(_) | Json::Real(_) => true,
            _ => false,
        } by {
            assert(documents[i] == json(pars@[i]));
            assert(is_bindable(documents[i]));
        }
    } else {
        let i = choose|i: int| 0 <= i < documents.len() && !is_bindable(#[trigger] documents[i]);
        assert(json(pars@[i]) == documents[i]);
    }
}

/// A script that renews the cache has the request to build it sent, the way that
/// requests are sent; without such a way nothing is sent.
pub proof fn law_flush_asks_for_the_builder<F, P, S, C>(
    ops: Ops<F, P, S>,
    r: Option<(&S, RouteRequest<C>)>,
    name: Seq<char>,
)
    requires
        call_ensures(Ops::<F, P, S>::op_flush_cache::<C>, (&ops,), r),
    ensures
        r is Some <==> ops.sender is Some,
        r matches Some((sender, request)) ==> {
            &&& ops.sender == Some(*sender)
            &&& request.route_name@ == "__create_cache"@
            &&& request.response_channel is None
            &&& !held(request.route_args).contains_key(name)
        },
{
    if let Some((_, request)) = r {
        assert(held(request.route_args).contains_key(name) ==> entries(
            request.route_args,
        ).contains_key(name));
    }
}

/// A statement that has no fault can be run.
pub proof fn law_faultless_statements_can_be_run<F, P, S>(
    ops: Ops<F, P, S>,
    sqlq: String,
    pars: Vec<Value>,
)
    ensures
        call_requires(Ops::<F, P, S>::query_fault, (&ops, &pars)),
        call_ensures(Ops::<F, P, S>::query_fault, (&ops, &pars), None::<QueryFault>) ==> {
            &&& call_requires(Ops::<F, P, S>::op_query, (&ops, sqlq, pars))
            &&& call_requires(Ops::<F, P, S>::op_execute, (&ops, sqlq, pars))
        },
{
}

} // verus!
