//! The document that the cache builder made, which the handlers read.
use crate::json::{
    elements, entries, first_named, get, held, json, law_first_named_keeps_the_order,
    law_first_named_names_each_key_once, layer, listed, lookup, node, value, Draft, Json, Layer, Node,
};
use serde_json::Value;
use vstd::prelude::*;

verus! {

/// The entries of `o` under the texts in `keys`, with null for a text that `o`
/// has no entry for.
pub open spec fn picked(keys: Seq<Json>, o: Map<Seq<char>, Json>) -> Map<Seq<char>, Json> {
    Map::new(|k: Seq<char>| keys.contains(Json::Text(k)), |k: Seq<char>| lookup(o, k))
}

/// Whether every element is a text.
pub open spec fn all_texts(keys: Seq<Json>) -> bool {
    forall|i: int| 0 <= i < keys.len() ==> (#[trigger] keys[i]) is Text
}

/// Why no subset of `document` can be named by `subset`, if so.
pub open spec fn fault_of(subset: Json, document: Json) -> Option<SubsetFault> {
    match (subset, document) {
        (Json::Text(_), Json::Object(_)) => None,
        (Json::Array(keys), Json::Object(_)) => if all_texts(keys) {
            None
        } else {
            Some(SubsetFault::InvalidKey)
        },
        _ => Some(SubsetFault::UnknownSubset),
    }
}

/// The part of `document` that `subset` names: one entry for a text, an object of
/// entries for an array of texts.
pub open spec fn subset_of(subset: Json, document: Json) -> Json
    recommends
        fault_of(subset, document) is None,
{
    match (subset, document) {
        (Json::Text(key), Json::Object(o)) => lookup(o, key),
        (Json::Array(keys), Json::Object(o)) => Json::Object(picked(keys, o)),
        _ => Json::Null,
    }
}

/// Whether `part`, as far as it comes from `whole`, is made of the very values
/// that `whole` holds under the keys of `subset`.
pub open spec fn same_values(part: Value, subset: Value, whole: Value) -> bool {
    match (layer(subset), layer(whole)) {
        (Layer::Text(key), Layer::Object(o)) => held(o).contains_key(key) ==> part == held(o)[key],
        (Layer::Array(_), Layer::Object(o)) => layer(part) matches Layer::Object(p) && forall|
            k: Seq<char>,
        | #[trigger]
            held(p).contains_key(k) && held(o).contains_key(k) ==> held(p)[k] == held(o)[k],
        _ => true,
    }
}

/// The texts that the elements are.
pub open spec fn names(keys: Seq<Json>) -> Seq<Seq<char>>
    recommends
        all_texts(keys),
{
    keys.map_values(|key: Json| key->Text_0)
}

/// Whether `part`, where `subset` is an array of keys, lists its entries in the
/// order in which the keys are first named.
pub open spec fn lists_as_named(part: Value, subset: Json) -> bool {
    subset matches Json::Array(keys) ==> (layer(part) matches Layer::Object(p) && listed(p)
        == first_named(names(keys)))
}

/// Why a subset cannot be read.
#[derive(Clone, Copy, Debug, PartialEq, Eq, Structural)]
pub enum SubsetFault {
    /// An element of the array of keys is not a text.
    InvalidKey,
    /// The subset is neither a text nor an array, or the document is no object.
    UnknownSubset,
}

impl SubsetFault {
    /// The words in which the fault is reported.
    pub fn message(&self) -> (r: &'static str)
        ensures
            r@ == match *self {
                SubsetFault::InvalidKey => "invalid key"@,
                SubsetFault::UnknownSubset => "unknown subset"@,
            },
    {
        match self {
            SubsetFault::InvalidKey => "invalid key",
            SubsetFault::UnknownSubset => "unknown subset",
        }
    }
}

/// The cached document.
pub struct Cache {
    document: Value,
}

impl View for Cache {
    type V = Json;

    open spec fn view(&self) -> Json {
        json(self.value())
    }
}

impl Cache {
    /// The very value that is cached.
    pub closed spec fn value(&self) -> Value {
        self.document
    }

    /// A cache that nothing was stored in: it holds null.
    pub fn new() -> (r: Cache)
        ensures
            layer(r.value()) == Layer::Null,
            r@ == Json::Null,
    {
        Cache { document: value(Draft::Null) }
    }

    /// Replaces the document.
    pub fn store(&mut self, document: Value)
        ensures
            final(self).value() == document,
    {
        self.document = document;
    }

    /// The whole document.
    pub fn op_get_cache_value(&self) -> (r: Value)
        ensures
            r == self.value(),
    {
        self.document.clone()
    }

    /// Why `subset` names no part of the document, if so.
    pub fn subset_fault(&self, subset: &Value) -> (r: Option<SubsetFault>)
        ensures
            r == fault_of(json(*subset), self@),
    {
        match (node(subset), node(&self.document)) {
            (Node::Text(_), Node::Object(_)) => None,
            (Node::Array(keys), Node::Object(_)) => {
                let ghost wanted = elements(keys@);
                let mut i: usize = 0;
                while i < keys.len()
                    invariant
                        json(*subset) == Json::Array(wanted),
                        self@ is Object,
                        wanted == elements(keys@),
                        i <= keys@.len(),
                        forall|j: int| 0 <= j < i ==> (#[trigger] wanted[j]) is Text,
                    decreases keys@.len() - i,
                {
                    match node(&keys[i]) {
                        Node::Text(_) => {},
                        _ => {
                            assert(!(wanted[i as int] is Text));
                            return Some(SubsetFault::InvalidKey);
                        },
                    }
                    i += 1;
                }
                None
            },
            _ => Some(SubsetFault::UnknownSubset),
        }
    }

    /// The part of the document that `subset` names, made of the very values that
    /// the document holds. An object of several entries lists them in the order in
    /// which their keys are first named.
    pub fn op_get_cache_subset_value(&self, subset: Value) -> (r: Value)
        requires
            fault_of(json(subset), self@) is None,
        ensures
            json(r) == subset_of(json(subset), self@),
            same_values(r, subset, self.value()),
            lists_as_named(r, json(subset)),
    {
        match (node(&subset), node(&self.document)) {
            (Node::Text(key), Node::Object(o)) => entry_or_null(o, key),
            (Node::Array(keys), Node::Object(o)) => {
                let ghost wanted = elements(keys@);
                let ghost whole = entries(*o);
                let mut part = serde_json::Map::new();
                let mut i: usize = 0;
                assert(entries(part) =~= picked(wanted.take(0), whole));
                assert(names(wanted).take(0) =~= Seq::empty());
                while i < keys.len()
                    invariant
                        wanted == elements(keys@),
                        whole == entries(*o),
                        all_texts(wanted),
                        i <= keys@.len(),
                        entries(part) == picked(wanted.take(i as int), whole),
                        listed(part) == first_named(names(wanted).take(i as int)),
                        forall|k: Seq<char>| #[trigger]
                            held(part).contains_key(k) && held(*o).contains_key(k)
                                ==> held(part)[k] == held(*o)[k],
                    decreases keys@.len() - i,
                {
                    assert(wanted[i as int] == json(keys@[i as int]));
                    match node(&keys[i]) {
                        Node::Text(key) => {
                            let ghost before = part;
                            let entry = entry_or_null(o, key);
                            part.insert(key.clone(), entry);
                            proof {
                                assert(entries(part) =~= entries(before).insert(key@, json(entry)));
                                lemma_pick_one_more(wanted, whole, i as int, key@);
                                lemma_name_one_more(wanted, i as int, key@);
                                assert(entries(before).contains_key(key@) <==> held(
                                    before,
                                ).contains_key(key@));
                            }
                        },
                        _ => {},
                    }
                    i += 1;
                }
                assert(wanted.take(wanted.len() as int) =~= wanted);
                assert(names(wanted).take(wanted.len() as int) =~= names(wanted));
                value(Draft::Object(part))
            },
            _ => value(Draft::Null),
        }
    }
}

/// The entry of `key`, or null where there is none.
fn entry_or_null(o: &serde_json::Map<String, Value>, key: &String) -> (r: Value)
    ensures
        json(r) == lookup(entries(*o), key@),
        held(*o).contains_key(key@) ==> r == held(*o)[key@],
{
    match get(o, key.as_str()) {
        Some(v) => v.clone(),
        None => value(Draft::Null),
    }
}

/// Picking by one more key adds the entry of that key.
proof fn lemma_pick_one_more(
    keys: Seq<Json>,
    o: Map<Seq<char>, Json>,
    i: int,
    key: Seq<char>,
)
    requires
        0 <= i < keys.len(),
        keys[i] == Json::Text(key),
    ensures
        picked(keys.take(i + 1), o) == picked(keys.take(i), o).insert(key, lookup(o, key)),
{
    let less = keys.take(i);
    let more = keys.take(i + 1);
    assert(more =~= less.push(keys[i]));
    assert forall|k: Seq<char>|
        more.contains(Json::Text(k)) <==> (less.contains(Json::Text(k)) || k == key) by {
        if less.contains(Json::Text(k)) {
            let j = choose|j: int| 0 <= j < less.len() && less[j] == Json::Text(k);
            assert(more[j] == Json::Text(k));
        }
        assert(more[i] == Json::Text(key));
    }
    assert(picked(more, o) =~= picked(less, o).insert(key, lookup(o, key)));
}

/// Naming one more key lists it last, unless it was named before.
proof fn lemma_name_one_more(keys: Seq<Json>, i: int, key: Seq<char>)
    requires
        all_texts(keys),
        0 <= i < keys.len(),
        keys[i] == Json::Text(key),
    ensures
        first_named(names(keys).take(i + 1)) == if keys.take(i).contains(Json::Text(key)) {
            first_named(names(keys).take(i))
        } else {
            first_named(names(keys).take(i)).push(key)
        },
{
    let less = names(keys).take(i);
    let more = names(keys).take(i + 1);
    assert(more.drop_last() =~= less);
    assert(more.last() == key);
    if keys.take(i).contains(Json::Text(key)) {
        let j = choose|j: int| 0 <= j < i && keys.take(i)[j] == Json::Text(key);
        assert(less[j] == key);
    }
    if less.contains(key) {
        let j = choose|j: int| 0 <= j < i && less[j] == key;
        assert(keys[j] is Text);
        assert(keys.take(i)[j] == Json::Text(key));
    }
}

/// A subset by an array of keys has an entry for each of the keys and for nothing
/// else, and each entry is what the key alone would have named.
pub proof fn law_subset_entries(keys: Seq<Json>, o: Map<Seq<char>, Json>, k: Seq<char>)
    requires
        all_texts(keys),
    ensures
        fault_of(Json::Array(keys), Json::Object(o)) is None,
        fault_of(Json::Text(k), Json::Object(o)) is None,
        subset_of(Json::Array(keys), Json::Object(o)) matches Json::Object(part) && {
            &&& part.contains_key(k) <==> keys.contains(Json::Text(k))
            &&& part.contains_key(k) ==> part[k] == subset_of(Json::Text(k), Json::Object(o))
        },
{
}

/// Naming every key of the document, and no other, gives the whole document.
pub proof fn law_subset_by_every_key_is_the_document(keys: Seq<Json>, o: Map<Seq<char>, Json>)
    requires
        all_texts(keys),
        forall|k: Seq<char>| #[trigger] keys.contains(Json::Text(k)) <==> o.contains_key(k),
    ensures
        subset_of(Json::Array(keys), Json::Object(o)) == Json::Object(o),
{
    assert(picked(keys, o) =~= o);
}

/// The order of the keys, and how often one is named, make no difference to what
/// the subset says.
pub proof fn law_subset_ignores_order_and_repetition(
    keys: Seq<Json>,
    others: Seq<Json>,
    o: Map<Seq<char>, Json>,
)
    requires
        all_texts(keys),
        all_texts(others),
        forall|k: Seq<char>| #[trigger]
            keys.contains(Json::Text(k)) <==> others.contains(Json::Text(k)),
    ensures
        subset_of(Json::Array(keys), Json::Object(o)) == subset_of(
            Json::Array(others),
            Json::Object(o),
        ),
{
    assert(picked(keys, o) =~= picked(others, o));
}

/// What was stored is read back as the very value, and a new cache reads as null.
pub proof fn law_what_was_stored_is_read(
    cache: &mut Cache,
    document: Value,
    read: Value,
    fresh: Cache,
    nothing: Value,
)
    requires
        call_ensures(Cache::store, (cache, document), ()),
        call_ensures(Cache::op_get_cache_value, (&*final(cache),), read),
        call_ensures(Cache::new, (), fresh),
        call_ensures(Cache::op_get_cache_value, (&fresh,), nothing),
    ensures
        read == document,
        layer(nothing) == Layer::Null,
{
}

/// A key names the very value that the document holds under it, and null where it
/// holds none.
pub proof fn law_a_key_names_its_value(
    cache: Cache,
    whole: Value,
    o: serde_json::Map<String, Value>,
    subset: Value,
    key: Seq<char>,
    r: Value,
)
    requires
        call_ensures(Cache::op_get_cache_value, (&cache,), whole),
        layer(whole) == Layer::Object(o),
        json(whole) == Json::Object(entries(o)),
        layer(subset) == Layer::Text(key),
        json(subset) == Json::Text(key),
        call_ensures(Cache::op_get_cache_subset_value, (&cache, subset), r),
    ensures
        held(o).contains_key(key) ==> r == held(o)[key],
        !held(o).contains_key(key) ==> json(r) == Json::Null,
{
    assert(held(o).contains_key(key) <==> entries(o).contains_key(key));
}

/// An array of keys names an object with an entry for each of the keys and no
/// other: the very value that the document holds, and null where it holds none. The
/// object lists each key once, and two keys in the order in which they are first
/// named.
pub proof fn law_keys_name_their_values(
    cache: Cache,
    whole: Value,
    o: serde_json::Map<String, Value>,
    subset: Value,
    keys: Seq<Value>,
    r: Value,
    part: serde_json::Map<String, Value>,
    key: Seq<char>,
)
    requires
        call_ensures(Cache::op_get_cache_value, (&cache,), whole),
        layer(whole) == Layer::Object(o),
        json(whole) == Json::Object(entries(o)),
        layer(subset) == Layer::Array(keys),
        json(subset) == Json::Array(elements(keys)),
        forall|i: int| 0 <= i < keys.len() ==> json(#[trigger] keys[i]) is Text,
        call_ensures(Cache::op_get_cache_subset_value, (&cache, subset), r),
        layer(r) == Layer::Object(part),
        json(r) == Json::Object(entries(part)),
    ensures
        held(part).contains_key(key) <==> exists|i: int|
            0 <= i < keys.len() && json(#[trigger] keys[i]) == Json::Text(key),
        held(part).contains_key(key) && held(o).contains_key(key) ==> held(part)[key] == held(
            o,
        )[key],
        held(part).contains_key(key) && !held(o).contains_key(key) ==> json(held(part)[key])
            == Json::Null,
        listed(part).contains(key) <==> held(part).contains_key(key),
        listed(part).no_duplicates(),
{
    let wanted = elements(keys);
    assert(entries(part) == picked(wanted, entries(o)));
    assert(held(part).contains_key(key) <==> entries(part).contains_key(key));
    assert(held(o).contains_key(key) <==> entries(o).contains_key(key));
    assert(held(part).contains_key(key) ==> entries(part)[key] == json(held(part)[key]));
    if wanted.contains(Json::Text(key)) {
        let i = choose|i: int| 0 <= i < wanted.len() && wanted[i] == Json::Text(key);
        assert(json(keys[i]) == Json::Text(key));
        assert(names(wanted)[i] == key);
    }
    if exists|i: int| 0 <= i < keys.len() && json(#[trigger] keys[i]) == Json::Text(key) {
        let i = choose|i: int| 0 <= i < keys.len() && json(#[trigger] keys[i]) == Json::Text(key);
        assert(wanted[i] == Json::Text(key));
    }
    if names(wanted).contains(key) {
        let i = choose|i: int| 0 <= i < names(wanted).len() && names(wanted)[i] == key;
        assert(json(keys[i]) is Text);
        assert(wanted[i] == Json::Text(key));
    }
    law_first_named_names_each_key_once(names(wanted), key);
}

/// Of two keys that are named, the one that is first named earlier is listed first.
pub proof fn law_keys_are_listed_as_named(
    cache: Cache,
    subset: Value,
    keys: Seq<Value>,
    r: Value,
    part: serde_json::Map<String, Value>,
    i: int,
    j: int,
    first: Seq<char>,
    second: Seq<char>,
)
    requires
        json(subset) == Json::Array(elements(keys)),
        call_ensures(Cache::op_get_cache_subset_value, (&cache, subset), r),
        layer(r) == Layer::Object(part),
        forall|k: int| 0 <= k < keys.len() ==> json(#[trigger] keys[k]) is Text,
        0 <= i < j < keys.len(),
        json(keys[i]) == Json::Text(first),
        json(keys[j]) == Json::Text(second),
        forall|k: int| 0 <= k < i ==> json(#[trigger] keys[k]) != Json::Text(first),
        forall|k: int| 0 <= k < j ==> json(#[trigger] keys[k]) != Json::Text(second),
    ensures
        exists|a: int, b: int|
            0 <= a < b < listed(part).len() && #[trigger] listed(part)[a] == first
                && #[trigger] listed(part)[b] == second,
{
    let all = names(elements(keys));
    assert forall|k: int| 0 <= k < all.len() implies json(keys[k]) == Json::Text(
        #[trigger] all[k],
    ) by {
        assert(json(keys[k]) is Text);
    }
    let (a, b) = law_first_named_keeps_the_order(all, i, j);
    assert(listed(part)[a] == first && listed(part)[b] == second);
}

/// A subset can be read exactly where the document is an object and the subset is a
/// text or an array of texts; a key that is no text and any other subset are told
/// apart, each in its words.
pub proof fn law_subset_faults(
    cache: Cache,
    whole: Value,
    subset: Value,
    fault: Option<SubsetFault>,
    words: &str,
)
    requires
        call_ensures(Cache::op_get_cache_value, (&cache,), whole),
        call_ensures(Cache::subset_fault, (&cache, &subset), fault),
        fault matches Some(f) ==> call_ensures(SubsetFault::message, (&f,), words),
    ensures
        fault is None <==> json(whole) is Object && match json(subset) {
            Json::Text(_) => true,
            Json::Array(keys) => forall|i: int|
                0 <= i < keys.len() ==> (#[trigger] keys[i]) is Text,
            _ => false,
        },
        fault is Some ==> words@ == if json(whole) is Object && json(subset) is Array {
            "invalid key"@
        } else {
            "unknown subset"@
        },
{
}

/// The document can always be read, and a subset that has no fault can be read.
pub proof fn law_faultless_subsets_can_be_read(cache: Cache, subset: Value)
    ensures
        call_requires(Cache::op_get_cache_value, (&cache,)),
        call_requires(Cache::subset_fault, (&cache, &subset)),
        call_ensures(Cache::subset_fault, (&cache, &subset), None::<SubsetFault>) ==> call_requires(
            Cache::op_get_cache_subset_value,
            (&cache, subset),
        ),
{
}

} // verus!
