//! JSON values as the wallet daemon and the pinning services return them, and the
//! search for a newly created component address inside them.

use vstd::prelude::*;
use crate::text::{has_prefix, starts_with};

verus! {

/// A JSON value. Numbers are kept as their decimal text; an object keeps its members
/// in the order in which they are walked.
pub enum JsonValue {
    Null,
    Bool(bool),
    Number(String),
    Str(String),
    Array(Vec<JsonValue>),
    Object(Vec<(String, JsonValue)>),
}

/// The prefix of every component address.
pub open spec fn component_prefix() -> Seq<char> {
    "component_"@
}

/// The first string that starts with `component_` in a depth-first, left-to-right walk
/// of `v` (array elements in order, object members in order).
pub open spec fn first_component(v: JsonValue) -> Option<Seq<char>>
    decreases v, 0int,
{
    match v {
        JsonValue::Str(s) => if has_prefix(s@, component_prefix()) { Some(s@) } else { None },
        JsonValue::Array(a) => first_component_in_items(a@, 0),
        JsonValue::Object(m) => first_component_in_members(m@, 0),
        _ => None,
    }
}

/// `first_component` over the elements of `a` from index `i` on.
pub open spec fn first_component_in_items(a: Seq<JsonValue>, i: int) -> Option<Seq<char>>
    decreases a, a.len() - i,
{
    if 0 <= i < a.len() {
        match first_component(a[i]) {
            Some(s) => Some(s),
            None => first_component_in_items(a, i + 1),
        }
    } else {
        None
    }
}

/// `first_component` over the member values of `m` from index `i` on.
pub open spec fn first_component_in_members(m: Seq<(String, JsonValue)>, i: int) -> Option<Seq<char>>
    decreases m, m.len() - i,
{
    if 0 <= i < m.len() {
        match first_component(m[i].1) {
            Some(s) => Some(s),
            None => first_component_in_members(m, i + 1),
        }
    } else {
        None
    }
}


/// What the search finds is a component address: it starts with `component_`.
pub proof fn lemma_first_component_prefix(v: JsonValue)
    ensures
        first_component(v) matches Some(s) ==> has_prefix(s, component_prefix()),
    decreases v, 0int,
{
    match v {
        JsonValue::Array(a) => lemma_items_prefix(a@, 0),
        JsonValue::Object(m) => lemma_members_prefix(m@, 0),
        _ => {},
    }
}

proof fn lemma_items_prefix(a: Seq<JsonValue>, i: int)
    ensures
        first_component_in_items(a, i) matches Some(s) ==> has_prefix(s, component_prefix()),
    decreases a, a.len() - i,
{
    if 0 <= i < a.len() {
        lemma_first_component_prefix(a[i]);
        lemma_items_prefix(a, i + 1);
    }
}

proof fn lemma_members_prefix(m: Seq<(String, JsonValue)>, i: int)
    ensures
        first_component_in_members(m, i) matches Some(s) ==> has_prefix(s, component_prefix()),
    decreases m, m.len() - i,
{
    if 0 <= i < m.len() {
        lemma_first_component_prefix(m[i].1);
        lemma_members_prefix(m, i + 1);
    }
}

proof fn lemma_items_first_found(a: Seq<JsonValue>, i: int, k: int)
    requires
        0 <= i <= k < a.len(),
        first_component(a[k]) is Some,
        forall|j: int| 0 <= j < k ==> first_component(#[trigger] a[j]) is None,
    ensures
        first_component_in_items(a, i) == first_component(a[k]),
    decreases k - i,
{
    if i < k {
        lemma_items_first_found(a, i + 1, k);
    }
}

proof fn lemma_items_none_found(a: Seq<JsonValue>, i: int)
    requires
        0 <= i <= a.len(),
        forall|j: int| 0 <= j < a.len() ==> first_component(#[trigger] a[j]) is None,
    ensures
        first_component_in_items(a, i) is None,
    decreases a.len() - i,
{
    if i < a.len() {
        lemma_items_none_found(a, i + 1);
    }
}

proof fn lemma_members_first_found(m: Seq<(String, JsonValue)>, i: int, k: int)
    requires
        0 <= i <= k < m.len(),
        first_component(m[k].1) is Some,
        forall|j: int| 0 <= j < k ==> first_component((#[trigger] m[j]).1) is None,
    ensures
        first_component_in_members(m, i) == first_component(m[k].1),
    decreases k - i,
{
    if i < k {
        lemma_members_first_found(m, i + 1, k);
    }
}

/// The search goes in document order: in an array (or an object), when element (member
/// value) `k` is the first in which a component address is found, the address found in
/// the whole array (object) is the one found in element `k`; when no element holds one,
/// none is found. So a later element never wins over an earlier one.
pub proof fn lemma_first_component_document_order(v: JsonValue, k: int)
    ensures
        v matches JsonValue::Array(a) ==> (0 <= k < a@.len() && first_component(a@[k]) is Some
            && (forall|j: int| 0 <= j < k ==> first_component(#[trigger] a@[j]) is None)
            ==> first_component(v) == first_component(a@[k])),
        v matches JsonValue::Array(a) ==> ((forall|j: int| 0 <= j < a@.len() ==> first_component(#[trigger] a@[j]) is None)
            ==> first_component(v) is None),
        v matches JsonValue::Object(m) ==> (0 <= k < m@.len() && first_component(m@[k].1) is Some
            && (forall|j: int| 0 <= j < k ==> first_component((#[trigger] m@[j]).1) is None)
            ==> first_component(v) == first_component(m@[k].1)),
{
    match v {
        JsonValue::Array(a) => {
            if 0 <= k < a@.len() && first_component(a@[k]) is Some
                && (forall|j: int| 0 <= j < k ==> first_component(#[trigger] a@[j]) is None) {
                lemma_items_first_found(a@, 0, k);
            }
            if forall|j: int| 0 <= j < a@.len() ==> first_component(#[trigger] a@[j]) is None {
                lemma_items_none_found(a@, 0);
            }
        },
        JsonValue::Object(m) => {
            if 0 <= k < m@.len() && first_component(m@[k].1) is Some
                && (forall|j: int| 0 <= j < k ==> first_component((#[trigger] m@[j]).1) is None) {
                lemma_members_first_found(m@, 0, k);
            }
        },
        _ => {},
    }
}

/// The characters of an optional string.
pub open spec fn opt_chars(o: Option<String>) -> Option<Seq<char>> {
    match o {
        Some(s) => Some(s@),
        None => None,
    }
}

/// The first string in `v` that starts with `component_`, walking depth-first with
/// array elements and object members in order.
pub fn search_for_component(v: &JsonValue) -> (res: Option<String>)
    ensures
        opt_chars(res) == first_component(*v),
    decreases *v, 1int,
{
    match v {
        JsonValue::Str(s) => {
            if starts_with(s.as_str(), "component_") {
                Some(s.clone())
            } else {
                None
            }
        },
        JsonValue::Array(a) => {
            let mut i: usize = 0;
            while i < a.len()
                invariant
                    i <= a.len(),
                    first_component(*v) == first_component_in_items(a@, i as int),
                    *v == JsonValue::Array(*a),
                decreases a.len() - i,
            {
                proof {
                    assert(decreases_to!(*v => a@[i as int]));
                }
                let found = search_for_component(&a[i]);
                if found.is_some() {
                    return found;
                }
                i = i + 1;
            }
            None
        },
        JsonValue::Object(m) => {
            let mut i: usize = 0;
            while i < m.len()
                invariant
                    i <= m.len(),
                    first_component(*v) == first_component_in_members(m@, i as int),
                    *v == JsonValue::Object(*m),
                decreases m.len() - i,
            {
                proof {
                    assert(decreases_to!(*v => m@[i as int].1));
                }
                let found = search_for_component(&m[i].1);
                if found.is_some() {
                    return found;
                }
                i = i + 1;
            }
            None
        },
        _ => None,
    }
}

/// Extract the first newly-created component address from a transaction result.
pub fn extract_component_address(result: &JsonValue) -> (res: Option<String>)
    ensures
        opt_chars(res) == first_component(*result),
{
    search_for_component(result)
}


/// The value of the first member named `key` of the object `v`; nothing when `v` is
/// not an object or has no such member.
pub open spec fn member(v: JsonValue, key: Seq<char>) -> Option<JsonValue> {
    match v {
        JsonValue::Object(m) => member_from(m@, key, 0),
        _ => None,
    }
}

/// The value of the first member named `key` in `m` from index `i` on.
pub open spec fn member_from(m: Seq<(String, JsonValue)>, key: Seq<char>, i: int) -> Option<JsonValue>
    decreases m.len() - i,
{
    if 0 <= i < m.len() {
        if m[i].0@ == key { Some(m[i].1) } else { member_from(m, key, i + 1) }
    } else {
        None
    }
}

/// `v[key]` as JSON indexing reads it: the member value, or `null` when there is none.
pub open spec fn index(v: JsonValue, key: Seq<char>) -> JsonValue {
    match member(v, key) {
        Some(x) => x,
        None => JsonValue::Null,
    }
}

/// The text of `v` when it is a JSON string.
pub open spec fn str_of(v: JsonValue) -> Option<Seq<char>> {
    match v {
        JsonValue::Str(s) => Some(s@),
        _ => None,
    }
}

/// The first member named `key` is found at index `j` when no earlier member has that name.
pub proof fn lemma_member_at(m: Seq<(String, JsonValue)>, key: Seq<char>, i: int, j: int)
    requires
        0 <= i <= j < m.len(),
        m[j].0@ == key,
        forall|k: int| i <= k < j ==> (#[trigger] m[k]).0@ != key,
    ensures
        member_from(m, key, i) == Some(m[j].1),
    decreases j - i,
{
    if i < j {
        lemma_member_at(m, key, i + 1, j);
    }
}

impl JsonValue {
    /// The member named `key`, when `self` is an object that has one.
    pub fn get(&self, key: &str) -> (res: Option<&JsonValue>)
        ensures
            match res {
                Some(x) => member(*self, key@) == Some(*x),
                None => member(*self, key@) is None,
            },
    {
        match self {
            JsonValue::Object(m) => {
                let k = key.to_owned();
                let mut i: usize = 0;
                while i < m.len()
                    invariant
                        i <= m.len(),
                        k@ == key@,
                        member(*self, key@) == member_from(m@, key@, i as int),
                    decreases m.len() - i,
                {
                    if m[i].0 == k {
                        return Some(&m[i].1);
                    }
                    i = i + 1;
                }
                None
            },
            _ => None,
        }
    }

    /// `self[key]`, taken out of `self`: the member named `key`, or `null`.
    pub fn into_member(self, key: &str) -> (res: JsonValue)
        ensures
            res == index(self, key@),
    {
        match self {
            JsonValue::Object(m) => {
                let ghost m0 = m@;
                let mut m = m;
                let k = key.to_owned();
                let mut i: usize = 0;
                while i < m.len()
                    invariant
                        i <= m.len(),
                        k@ == key@,
                        m@ == m0,
                        member(self, key@) == member_from(m0, key@, 0),
                        member_from(m0, key@, 0) == member_from(m0, key@, i as int),
                    decreases m.len() - i,
                {
                    if m[i].0 == k {
                        let (_, x) = m.swap_remove(i);
                        assert(x == m0[i as int].1);
                        assert(member_from(m0, key@, i as int) == Some(x));
                        assert(member(self, key@) == member_from(m0, key@, 0));
                        return x;
                    }
                    i = i + 1;
                }
                JsonValue::Null
            },
            _ => JsonValue::Null,
        }
    }

    /// The text of `self` when it is a JSON string.
    pub fn as_str(&self) -> (res: Option<&str>)
        ensures
            match res {
                Some(s) => str_of(*self) == Some(s@),
                None => str_of(*self) is None,
            },
    {
        match self {
            JsonValue::Str(s) => Some(s.as_str()),
            _ => None,
        }
    }
}

} // verus!
