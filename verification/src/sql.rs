//! The arguments of SQL statements.
use crate::json::{elements, json, layer, node, number, value, Draft, Json, Layer, Node};
use serde_json::{Number, Value};
use sqlx::any::AnyArguments;
use sqlx::Arguments;
use vstd::prelude::*;

verus! {

/// `sqlx::any::AnyArguments`, opaque.
#[verifier::external_type_specification]
#[verifier::external_body]
pub struct ExAnyArguments<'q>(AnyArguments<'q>);

/// One argument of a statement.
pub enum SqlArgument {
    Null,
    Bool(bool),
    BigInt(i64),
    /// A double, by its bits.
    Double(u64),
    Text(Seq<char>),
}

/// The arguments that an `AnyArguments` holds, in the order of their places in
/// the statement.
pub uninterp spec fn arguments(args: AnyArguments<'_>) -> Seq<SqlArgument>;

/// The bits of the double that `Number::as_f64` gives for a JSON number.
pub uninterp spec fn double(document: Json) -> u64;

/// Whether a document can be an argument: a text, a truth value or a number.
pub open spec fn is_bindable(document: Json) -> bool {
    document is Text || document is Bool || document is Integer || document is Real
}

/// Whether each document can be an argument.
pub open spec fn all_bindable(documents: Seq<Json>) -> bool {
    forall|i: int| 0 <= i < documents.len() ==> is_bindable(#[trigger] documents[i])
}

/// The argument that a document stands for. An integer that 64 bits with a sign
/// cannot hold is a double.
pub open spec fn argument(document: Json) -> SqlArgument
    recommends
        is_bindable(document),
{
    match document {
        Json::Text(text) => SqlArgument::Text(text),
        Json::Bool(b) => SqlArgument::Bool(b),
        Json::Integer(i) => if i64::MIN <= i <= i64::MAX {
            SqlArgument::BigInt(i as i64)
        } else {
            SqlArgument::Double(double(document))
        },
        Json::Real(_) => SqlArgument::Double(double(document)),
        _ => SqlArgument::Null,
    }
}

/// Whether an argument is what a document says: the same text, truth value or
/// integer, and the double of a number that no 64 bits with a sign hold.
pub open spec fn stands_for(bound: SqlArgument, document: Json) -> bool {
    match bound {
        SqlArgument::Text(text) => document == Json::Text(text),
        SqlArgument::Bool(b) => document == Json::Bool(b),
        SqlArgument::BigInt(k) => document == Json::Integer(k as int),
        SqlArgument::Double(bits) => bits == double(document) && (document is Real || (
        document matches Json::Integer(i) && !(i64::MIN <= i <= i64::MAX))),
        SqlArgument::Null => false,
    }
}

/// `AnyArguments::default`: no arguments.
#[verifier::external_body]
fn no_arguments<'q>() -> (r: AnyArguments<'q>)
    ensures
        arguments(r) == Seq::<SqlArgument>::empty(),
{
    AnyArguments::default()
}

/// `Arguments::add` of a text: it is encoded without fail and comes last.
#[verifier::external_body]
fn bind_text<'q>(args: &mut AnyArguments<'q>, text: String)
    ensures
        arguments(*final(args)) == arguments(*old(args)).push(SqlArgument::Text(text@)),
{
    let _ = args.add(text);
}

/// `Arguments::add` of a truth value: it is encoded without fail and comes last.
#[verifier::external_body]
fn bind_bool<'q>(args: &mut AnyArguments<'q>, b: bool)
    ensures
        arguments(*final(args)) == arguments(*old(args)).push(SqlArgument::Bool(b)),
{
    let _ = args.add(b);
}

/// `Arguments::add` of an optional integer: it is encoded without fail, as null
/// where there is none, and comes last.
#[verifier::external_body]
fn bind_integer<'q>(args: &mut AnyArguments<'q>, i: Option<i64>)
    ensures
        arguments(*final(args)) == arguments(*old(args)).push(
            match i {
                Some(k) => SqlArgument::BigInt(k),
                None => SqlArgument::Null,
            },
        ),
{
    let _ = args.add(i);
}

/// `Arguments::add` of the double that `Number::as_f64` gives, which it gives for
/// every number: it is encoded without fail and comes last. Which double that is
/// depends on the number alone; more is not said of it.
#[verifier::external_body]
fn bind_double<'q>(args: &mut AnyArguments<'q>, n: &Number)
    ensures
        arguments(*final(args)) == arguments(*old(args)).push(
            SqlArgument::Double(double(number(*n))),
        ),
{
    let _ = args.add(n.as_f64());
}

/// Whether each value can be an argument.
pub fn can_bind(pars: &Vec<Value>) -> (r: bool)
    ensures
        r == all_bindable(elements(pars@)),
{
    let ghost documents = elements(pars@);
    let mut i: usize = 0;
    while i < pars.len()
        invariant
            documents == elements(pars@),
            i <= pars@.len(),
            forall|j: int| 0 <= j < i ==> is_bindable(#[trigger] documents[j]),
        decreases pars@.len() - i,
    {
        assert(documents[i as int] == json(pars@[i as int]));
        match node(&pars[i]) {
            Node::Text(_) => {},
            Node::Bool(_) => {},
            Node::Num(_) => {},
            _ => {
                assert(!is_bindable(documents[i as int]));
                return false;
            },
        }
        i += 1;
    }
    true
}

/// Binds the values, in their order.
pub fn bind<'q>(pars: Vec<Value>) -> (r: AnyArguments<'q>)
    requires
        all_bindable(elements(pars@)),
    ensures
        arguments(r) == elements(pars@).map_values(|document: Json| argument(document)),
        forall|i: int|
            0 <= i < pars@.len() ==> stands_for(#[trigger] arguments(r)[i], json(pars@[i])),
{
    let ghost documents = elements(pars@);
    let ghost wanted = documents.map_values(|document: Json| argument(document));
    let mut args = no_arguments();
    let mut i: usize = 0;
    while i < pars.len()
        invariant
            documents == elements(pars@),
            wanted == documents.map_values(|document: Json| argument(document)),
            all_bindable(documents),
            i <= pars@.len(),
            arguments(args) == wanted.take(i as int),
        decreases pars@.len() - i,
    {
        let ghost before = arguments(args);
        assert(documents[i as int] == json(pars@[i as int]));
        assert(is_bindable(documents[i as int]));
        match node(&pars[i]) {
            Node::Text(text) => bind_text(&mut args, text.clone()),
            Node::Bool(b) => bind_bool(&mut args, b),
            Node::Num(n) => if n.is_i64() {
                bind_integer(&mut args, n.as_i64())
            } else {
                bind_double(&mut args, n)
            },
            _ => {},
        }
        assert(arguments(args) == before.push(argument(documents[i as int])));
        i += 1;
        assert(arguments(args) =~= wanted.take(i as int));
    }
    assert(wanted.take(i as int) =~= wanted);
    assert forall|j: int| 0 <= j < pars@.len() implies stands_for(
        #[trigger] arguments(args)[j],
        json(pars@[j]),
    ) by {
        assert(is_bindable(documents[j]));
        assert(arguments(args)[j] == argument(documents[j]));
    }
    args
}

/// The rows of a result as one document.
pub fn rows_value(rows: Vec<Value>) -> (r: Value)
    ensures
        layer(r) == Layer::Array(rows@),
        json(r) == Json::Array(elements(rows@)),
{
    value(Draft::Array(rows))
}

/// Each document is bound at its own place, and there are as many arguments as
/// documents.
pub proof fn law_arguments_keep_their_places(documents: Seq<Json>, i: int)
    requires
        all_bindable(documents),
        0 <= i < documents.len(),
    ensures
        documents.map_values(|document: Json| argument(document)).len() == documents.len(),
        documents.map_values(|document: Json| argument(document))[i] == argument(documents[i]),
        !(argument(documents[i]) is Null),
{
}

/// What is bound at a place is what was given there: the same truth value, the
/// whole text, the same integer where 64 bits with a sign hold it, and the double
/// of any other number. Nothing is left out and nothing is added.
pub proof fn law_bound_is_what_was_given(pars: Vec<Value>, args: AnyArguments<'_>, i: int)
    requires
        call_ensures(bind, (pars,), args),
        0 <= i < pars@.len(),
    ensures
        arguments(args).len() == pars@.len(),
        json(pars@[i]) matches Json::Bool(b) ==> arguments(args)[i] == SqlArgument::Bool(b),
        json(pars@[i]) matches Json::Text(text) ==> arguments(args)[i] == SqlArgument::Text(text),
        json(pars@[i]) matches Json::Integer(k) ==> if i64::MIN <= k <= i64::MAX {
            arguments(args)[i] matches SqlArgument::BigInt(n) && n == k
        } else {
            arguments(args)[i] == SqlArgument::Double(double(json(pars@[i])))
        },
        json(pars@[i]) is Real ==> arguments(args)[i] == SqlArgument::Double(
            double(json(pars@[i])),
        ),
{
    assert(elements(pars@)[i] == json(pars@[i]));
    assert(stands_for(arguments(args)[i], json(pars@[i])));
}

/// Different truth values, texts and integers of 64 bits with a sign are bound as
/// different arguments.
pub proof fn law_different_values_are_bound_differently(one: Json, other: Json)
    requires
        one is Text || one is Bool || (one matches Json::Integer(i) && i64::MIN <= i <= i64::MAX),
        other is Text || other is Bool || (other matches Json::Integer(i) && i64::MIN <= i
            <= i64::MAX),
        one != other,
    ensures
        argument(one) != argument(other),
{
}

/// Values can be bound exactly where each is a text, a truth value or a number.
pub proof fn law_texts_truth_values_and_numbers_can_be_bound(pars: Vec<Value>, can: bool)
    requires
        call_ensures(can_bind, (&pars,), can),
    ensures
        can <==> forall|i: int|
            0 <= i < pars@.len() ==> match json(#[trigger] pars@[i]) {
                Json::Text(_) | Json::Bool(_) | Json::Integer(_) | Json::Real(_) => true,
                _ => false,
            },
{
    let documents = elements(pars@);
    assert forall|i: int| 0 <= i < pars@.len() implies json(#[trigger] pars@[i]) == documents[i] by {}
    if can {
        assert forall|i: int| 0 <= i < pars@.len() implies match json(#[trigger] pars@[i]) {
            Json::Text(_) | Json::Bool(_) | Json::Integer(_) | Json::Real(_) => true,
            _ => false,
        } by {
            assert(is_bindable(documents[i]));
        }
    } else {
        let i = choose|i: int| 0 <= i < documents.len() && !is_bindable(#[trigger] documents[i]);
        assert(json(pars@[i]) == documents[i]);
    }
}

/// The rows become an array of those very rows, in their order.
pub proof fn law_rows_are_the_elements(rows: Vec<Value>, r: Value)
    requires
        call_ensures(rows_value, (rows,), r),
    ensures
        layer(r) == Layer::Array(rows@),
        json(r) matches Json::Array(a) && a.len() == rows@.len() && forall|i: int|
            0 <= i < a.len() ==> #[trigger] a[i] == json(rows@[i]),
{
}

/// Values that are told to be bindable can be bound.
pub proof fn law_bindable_values_can_be_bound(pars: Vec<Value>)
    ensures
        call_requires(can_bind, (&pars,)),
        call_ensures(can_bind, (&pars,), true) ==> call_requires(bind, (pars,)),
        call_requires(rows_value, (pars,)),
{
}

} // verus!
