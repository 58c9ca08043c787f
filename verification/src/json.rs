//! JSON documents, held as `serde_json` values and described by a tree.
//!
//! `serde_json::Value`, `serde_json::Map` and `serde_json::Number` are opaque to
//! the verifier. What they hold is given by [`json`], [`layer`], [`held`],
//! [`listed`] and [`integer`]; the functions marked `external_body` and the
//! `assume_specification` items below tie those to the calls into `serde_json`.
use serde_json::{Number, Value};
use vstd::prelude::*;

verus! {

/// `serde_json::Value`, opaque.
#[verifier::external_type_specification]
#[verifier::external_body]
pub struct ExValue(Value);

/// `serde_json::Number`, opaque.
#[verifier::external_type_specification]
#[verifier::external_body]
pub struct ExNumber(Number);

/// `serde_json::Map`, opaque.
#[verifier::external_type_specification]
#[verifier::external_body]
#[verifier::reject_recursive_types(K)]
#[verifier::reject_recursive_types(V)]
pub struct ExObject<K, V>(serde_json::Map<K, V>);

/// What a JSON document says. The entries of an object have no order here.
pub enum Json {
    Null,
    Bool(bool),
    /// A number that is stored as an integer.
    Integer(int),
    /// A number that is stored as a floating point number.
    Real(Number),
    Text(Seq<char>),
    Array(Seq<Json>),
    Object(Map<Seq<char>, Json>),
}

/// The outermost layer of a value, with the very parts that the value is made of.
pub enum Layer {
    Null,
    Bool(bool),
    Num(Number),
    Text(Seq<char>),
    Array(Seq<Value>),
    Object(serde_json::Map<String, Value>),
}

/// What a `serde_json::Value` says.
pub uninterp spec fn json(v: Value) -> Json;

/// The outermost layer of a `serde_json::Value`.
pub uninterp spec fn layer(v: Value) -> Layer;

/// The value that a `serde_json::Map` holds under each of its keys.
pub uninterp spec fn held(m: serde_json::Map<String, Value>) -> Map<Seq<char>, Value>;

/// The keys of a `serde_json::Map`, in the order in which it lists its entries.
/// The feature `preserve_order`, which this crate turns on, makes that the order
/// in which the keys came in.
pub uninterp spec fn listed(m: serde_json::Map<String, Value>) -> Seq<Seq<char>>;

/// What the values under each key say.
pub open spec fn said(m: Map<Seq<char>, Value>) -> Map<Seq<char>, Json> {
    m.map_values(|v: Value| json(v))
}

/// What a `serde_json::Map` says under each of its keys.
pub open spec fn entries(m: serde_json::Map<String, Value>) -> Map<Seq<char>, Json> {
    said(held(m))
}

/// The integer that a `serde_json::Number` stores, if it stores one.
pub uninterp spec fn integer(n: Number) -> Option<int>;

/// The document that is the single number `n`.
pub open spec fn number(n: Number) -> Json {
    match integer(n) {
        Some(i) => Json::Integer(i),
        None => Json::Real(n),
    }
}

/// What a value of that outermost layer says.
pub open spec fn tree(l: Layer) -> Json {
    match l {
        Layer::Null => Json::Null,
        Layer::Bool(b) => Json::Bool(b),
        Layer::Num(n) => number(n),
        Layer::Text(s) => Json::Text(s),
        Layer::Array(a) => Json::Array(elements(a)),
        Layer::Object(o) => Json::Object(entries(o)),
    }
}

/// What a sequence of values says, one by one.
pub open spec fn elements(s: Seq<Value>) -> Seq<Json> {
    s.map_values(|v: Value| json(v))
}

/// What an object says of `key`: the entry, or null where there is none.
pub open spec fn lookup(o: Map<Seq<char>, Json>, key: Seq<char>) -> Json {
    if o.contains_key(key) {
        o[key]
    } else {
        Json::Null
    }
}

/// The object made of `pairs`, in which a later pair replaces an earlier one of
/// the same key.
pub open spec fn collected(pairs: Seq<(String, Value)>) -> Map<Seq<char>, Value>
    decreases pairs.len(),
{
    if pairs.len() == 0 {
        Map::empty()
    } else {
        collected(pairs.drop_last()).insert(pairs.last().0@, pairs.last().1)
    }
}

/// The keys in the order in which each comes first, without repetition.
pub open spec fn first_named(keys: Seq<Seq<char>>) -> Seq<Seq<char>>
    decreases keys.len(),
{
    if keys.len() == 0 {
        Seq::empty()
    } else if keys.drop_last().contains(keys.last()) {
        first_named(keys.drop_last())
    } else {
        first_named(keys.drop_last()).push(keys.last())
    }
}

/// The outermost layer of a value, borrowed.
pub enum Node<'a> {
    Null,
    Bool(bool),
    Num(&'a Number),
    Text(&'a String),
    Array(&'a Vec<Value>),
    Object(&'a serde_json::Map<String, Value>),
}

impl<'a> View for Node<'a> {
    type V = Layer;

    open spec fn view(&self) -> Layer {
        match *self {
            Node::Null => Layer::Null,
            Node::Bool(b) => Layer::Bool(b),
            Node::Num(n) => Layer::Num(*n),
            Node::Text(s) => Layer::Text(s@),
            Node::Array(a) => Layer::Array(a@),
            Node::Object(o) => Layer::Object(*o),
        }
    }
}

/// The outermost layer of a value that is to be made.
pub enum Draft {
    Null,
    Text(String),
    Array(Vec<Value>),
    Object(serde_json::Map<String, Value>),
}

impl View for Draft {
    type V = Layer;

    open spec fn view(&self) -> Layer {
        match *self {
            Draft::Null => Layer::Null,
            Draft::Text(s) => Layer::Text(s@),
            Draft::Array(a) => Layer::Array(a@),
            Draft::Object(o) => Layer::Object(o),
        }
    }
}

/// Tells the variants of `serde_json::Value` apart: the node is the outermost
/// layer of the value, and the value says what that layer says.
#[verifier::external_body]
pub(crate) fn node(v: &Value) -> (r: Node<'_>)
    ensures
        r@ == layer(*v),
        tree(r@) == json(*v),
{
    match v {
        Value::Null => Node::Null,
        Value::Bool(b) => Node::Bool(*b),
        Value::Number(n) => Node::Num(n),
        Value::String(s) => Node::Text(s),
        Value::Array(a) => Node::Array(a),
        Value::Object(o) => Node::Object(o),
    }
}

/// The variants of `serde_json::Value` as constructors: the draft is the outermost
/// layer of the value, and the value says what that layer says.
#[verifier::external_body]
pub(crate) fn value(draft: Draft) -> (r: Value)
    ensures
        layer(r) == draft@,
        json(r) == tree(draft@),
{
    match draft {
        Draft::Null => Value::Null,
        Draft::Text(s) => Value::String(s),
        Draft::Array(a) => Value::Array(a),
        Draft::Object(o) => Value::Object(o),
    }
}

/// `Value::clone`: the copy is the same value.
pub assume_specification[ <Value as Clone>::clone ](v: &Value) -> (r: Value)
    ensures
        r == *v,
;

/// `Number::is_i64`: whether the number is stored as an integer that an `i64`
/// can hold.
pub assume_specification[ Number::is_i64 ](n: &Number) -> (r: bool)
    ensures
        r == (integer(*n) matches Some(i) && i64::MIN <= i <= i64::MAX),
;

/// `Number::as_i64`: the integer that the number stores, where an `i64` can hold
/// it.
pub assume_specification[ Number::as_i64 ](n: &Number) -> (r: Option<i64>)
    ensures
        r is Some <==> (integer(*n) matches Some(i) && i64::MIN <= i <= i64::MAX),
        r matches Some(k) ==> integer(*n) == Some(k as int),
;

/// `serde_json::Map::new`: an object without entries.
pub assume_specification[ serde_json::Map::<String, Value>::new ]() -> (r: serde_json::Map<
    String,
    Value,
>)
    ensures
        (held(r) == Map::<Seq<char>, Value>::empty()),
        listed(r) == Seq::<Seq<char>>::empty(),
;

/// `serde_json::Map::clone`: the copy is the same object.
pub assume_specification[ <serde_json::Map<String, Value> as Clone>::clone ](
    m: &serde_json::Map<String, Value>,
) -> (r: serde_json::Map<String, Value>)
    ensures
        r == *m,
;

/// `serde_json::Map::insert`: the key now has the value, the other entries stay,
/// and what the key had before comes back. A new key is listed last, and a known
/// one keeps its place.
pub assume_specification[ serde_json::Map::<String, Value>::insert ](
    m: &mut serde_json::Map<String, Value>,
    k: String,
    v: Value,
) -> (r: Option<Value>)
    ensures
        held(*final(m)) == held(*old(m)).insert(k@, v),
        (listed(*final(m)) == if held(*old(m)).contains_key(k@) {
            listed(*old(m))
        } else {
            listed(*old(m)).push(k@)
        }),
        match r {
            Some(w) => held(*old(m)).contains_key(k@) && w == held(*old(m))[k@],
            None => !held(*old(m)).contains_key(k@),
        },
;

/// `serde_json::Map::get`: the entry of the key, if there is one.
#[verifier::external_body]
pub(crate) fn get<'a>(m: &'a serde_json::Map<String, Value>, key: &str) -> (r: Option<&'a Value>)
    ensures
        match r {
            Some(v) => held(*m).contains_key(key@) && *v == held(*m)[key@],
            None => !held(*m).contains_key(key@),
        },
{
    m.get(key)
}

/// `serde_json::Map::contains_key`: whether the key has an entry.
#[verifier::external_body]
pub(crate) fn contains_key(m: &serde_json::Map<String, Value>, key: &str) -> (r: bool)
    ensures
        r == held(*m).contains_key(key@),
{
    m.contains_key(key)
}

/// `serde_json::Map::from_iter` on a vector: the pairs are entered from first to
/// last, a later one replacing an earlier one of the same key in its place.
#[verifier::external_body]
pub(crate) fn collect(pairs: Vec<(String, Value)>) -> (r: serde_json::Map<String, Value>)
    ensures
        held(r) == collected(pairs@),
        listed(r) == first_named(pairs@.map_values(|p: (String, Value)| p.0@)),
{
    serde_json::Map::from_iter(pairs)
}

/// `serde_json::from_value` into a `u16`: it succeeds on the integers from 0 to
/// 65535 and on nothing else.
#[verifier::external_body]
pub(crate) fn to_u16(v: Value) -> (r: Option<u16>)
    ensures
        r is Some <==> (json(v) matches Json::Integer(i) && 0 <= i <= u16::MAX),
        r matches Some(k) ==> json(v) == Json::Integer(k as int),
{
    serde_json::from_value(v).ok()
}

/// `serde_json::from_value` into a `String`: it succeeds on texts and on nothing
/// else.
#[verifier::external_body]
pub(crate) fn to_text(v: Value) -> (r: Option<String>)
    ensures
        r is Some <==> json(v) is Text,
        r matches Some(s) ==> json(v) == Json::Text(s@),
{
    serde_json::from_value(v).ok()
}

/// Putting each key where it comes first drops no key, adds none and repeats none.
pub proof fn law_first_named_names_each_key_once(keys: Seq<Seq<char>>, key: Seq<char>)
    ensures
        first_named(keys).contains(key) <==> keys.contains(key),
        first_named(keys).no_duplicates(),
    decreases keys.len(),
{
    if keys.len() > 0 {
        let rest = keys.drop_last();
        let last = keys.last();
        law_first_named_names_each_key_once(rest, key);
        law_first_named_names_each_key_once(rest, last);
        assert(keys =~= rest.push(last));
        assert(keys[keys.len() - 1] == last);
        if rest.contains(key) {
            let i = choose|i: int| 0 <= i < rest.len() && rest[i] == key;
            assert(keys[i] == key);
        }
        let named = first_named(rest);
        if named.contains(key) {
            let i = choose|i: int| 0 <= i < named.len() && named[i] == key;
            assert(named.push(last)[i] == key);
        }
        assert(named.push(last)[named.len() as int] == last);
    }
}

/// Of two keys that are listed, the one that comes first earlier is listed first.
pub proof fn law_first_named_keeps_the_order(keys: Seq<Seq<char>>, i: int, j: int) -> (places: (
    int,
    int,
))
    requires
        0 <= i < j < keys.len(),
        forall|k: int| 0 <= k < i ==> #[trigger] keys[k] != keys[i],
        forall|k: int| 0 <= k < j ==> #[trigger] keys[k] != keys[j],
    ensures
        0 <= places.0 < places.1 < first_named(keys).len(),
        first_named(keys)[places.0] == keys[i],
        first_named(keys)[places.1] == keys[j],
    decreases keys.len(),
{
    let rest = keys.drop_last();
    if j < rest.len() {
        assert(rest[i] == keys[i] && rest[j] == keys[j]);
        assert forall|k: int| 0 <= k < i implies #[trigger] rest[k] != rest[i] by {
            assert(keys[k] != keys[i]);
        }
        assert forall|k: int| 0 <= k < j implies #[trigger] rest[k] != rest[j] by {
            assert(keys[k] != keys[j]);
        }
        law_first_named_keeps_the_order(rest, i, j)
    } else {
        law_first_named_names_each_key_once(rest, keys[i]);
        assert(rest[i] == keys[i]);
        assert(rest.contains(keys[i]));
        let named = first_named(rest);
        let a = choose|a: int| 0 <= a < named.len() && named[a] == keys[i];
        assert(!rest.contains(keys.last())) by {
            if rest.contains(keys.last()) {
                let k = choose|k: int| 0 <= k < rest.len() && rest[k] == keys.last();
                assert(keys[k] == keys[j]);
            }
        }
        (a, named.len() as int)
    }
}

} // verus!
