//! The document model: an immutable tree of scalar, sequence and mapping
//! nodes. The engine only ever reads values of this type; the caller parses
//! raw text into it before validation begins.
use vstd::prelude::*;

use crate::realnum::Real;

verus! {

/// One node of a document tree. Mappings are association lists in insertion
/// order; a lookup takes the first entry whose key matches.
#[derive(Debug, PartialEq, Eq)]
pub enum Value {
    /// An explicit null scalar.
    Null,
    /// A boolean scalar.
    Bool(bool),
    /// An integer scalar.
    Int(i64),
    /// A real scalar, held as an exact binary rational.
    Real(Real),
    /// A text scalar.
    Str(String),
    /// A sequence of nodes.
    Array(Vec<Value>),
    /// A mapping from key nodes to value nodes, in insertion order.
    Hash(Vec<(Value, Value)>),
    /// A node that could not be represented by the loader.
    Bad,
}

impl Value {
    /// The name of this node's kind, as it appears in error messages.
    pub fn type_to_str(&self) -> (r: &'static str)
        ensures
            r@ == self.kind_name(),
    {
        match self {
            Value::Null => "null",
            Value::Bool(_) => "boolean",
            Value::Int(_) => "integer",
            Value::Real(_) => "real",
            Value::Str(_) => "string",
            Value::Array(_) => "array",
            Value::Hash(_) => "hash",
            Value::Bad => "bad_value",
        }
    }

    /// The name of this node's kind, at the specification level.
    pub open spec fn kind_name(self) -> Seq<char> {
        match self {
            Value::Null => "null"@,
            Value::Bool(_) => "boolean"@,
            Value::Int(_) => "integer"@,
            Value::Real(_) => "real"@,
            Value::Str(_) => "string"@,
            Value::Array(_) => "array"@,
            Value::Hash(_) => "hash"@,
            Value::Bad => "bad_value"@,
        }
    }
}

/// Whether an entry's key is the string `key`.
pub open spec fn key_matches(e: (Value, Value), key: Seq<char>) -> bool {
    e.0 matches Value::Str(s) && s@ == key
}

/// The value stored under `key` in an association list, taking the first
/// entry whose key is the string `key`, or `None` when no entry matches.
pub open spec fn map_get(entries: Seq<(Value, Value)>, key: Seq<char>) -> Option<Value>
    decreases entries.len(),
{
    if entries.len() == 0 {
        None
    } else if key_matches(entries[0], key) {
        Some(entries[0].1)
    } else {
        map_get(entries.drop_first(), key)
    }
}

/// Whether the association list holds an entry under the string key `key`.
pub open spec fn has_key(entries: Seq<(Value, Value)>, key: Seq<char>) -> bool {
    map_get(entries, key) is Some
}

/// A successful `map_get` is witnessed by the index of a matching entry,
/// which scans and structural arguments can then reason from.
pub proof fn lemma_map_get_some_index(entries: Seq<(Value, Value)>, key: Seq<char>)
    requires
        map_get(entries, key) is Some,
    ensures
        exists|i: int|
            0 <= i < entries.len() && key_matches(entries[i], key) && map_get(entries, key) == Some(
                entries[i].1,
            ),
    decreases entries.len(),
{
    if key_matches(entries[0], key) {
        assert(0 <= 0 < entries.len() && key_matches(entries[0], key) && map_get(entries, key)
            == Some(entries[0].1));
    } else {
        lemma_map_get_some_index(entries.drop_first(), key);
        let j = choose|j: int|
            0 <= j < entries.drop_first().len() && key_matches(entries.drop_first()[j], key)
                && map_get(entries.drop_first(), key) == Some(entries.drop_first()[j].1);
        assert(entries[j + 1] == entries.drop_first()[j]);
        assert(0 <= j + 1 < entries.len() && key_matches(entries[j + 1], key) && map_get(
            entries,
            key,
        ) == Some(entries[j + 1].1));
    }
}

/// Whether no entry before position `j` has the string key `key`.
pub open spec fn no_earlier_key(entries: Seq<(Value, Value)>, j: int, key: Seq<char>) -> bool {
    forall|i: int| 0 <= i < j ==> !key_matches(#[trigger] entries[i], key)
}

/// `map_get` returns the value of the first entry whose key matches, and
/// only that one.
pub proof fn lemma_map_get_first(entries: Seq<(Value, Value)>, key: Seq<char>)
    ensures
        forall|j: int|
            (0 <= j < entries.len() && key_matches(#[trigger] entries[j], key) && no_earlier_key(
                entries,
                j,
                key,
            )) ==> map_get(entries, key) == Some(entries[j].1),
        map_get(entries, key) is Some ==> exists|j: int|
            0 <= j < entries.len() && key_matches(#[trigger] entries[j], key) && no_earlier_key(
                entries,
                j,
                key,
            ) && map_get(entries, key) == Some(entries[j].1),
    decreases entries.len(),
{
    if entries.len() == 0 {
    } else if key_matches(entries[0], key) {
        assert forall|j: int|
            (0 <= j < entries.len() && key_matches(#[trigger] entries[j], key) && no_earlier_key(
                entries,
                j,
                key,
            )) implies map_get(entries, key) == Some(entries[j].1) by {
            if j > 0 {
                assert(key_matches(entries[0], key));
                assert(false);
            }
        }
        assert(0 <= 0 < entries.len() && key_matches(entries[0], key) && no_earlier_key(
            entries,
            0,
            key,
        ) && map_get(entries, key) == Some(entries[0].1));
    } else {
        let rest = entries.drop_first();
        lemma_map_get_first(rest, key);
        assert forall|j: int|
            (0 <= j < entries.len() && key_matches(#[trigger] entries[j], key) && no_earlier_key(
                entries,
                j,
                key,
            )) implies map_get(entries, key) == Some(entries[j].1) by {
            assert(j != 0);
            assert(entries[j] == rest[j - 1]);
            assert forall|i: int| 0 <= i < j - 1 implies !key_matches(#[trigger] rest[i], key) by {
                assert(rest[i] == entries[i + 1]);
            }
            assert(no_earlier_key(rest, j - 1, key));
        }
        if map_get(entries, key) is Some {
            let j = choose|j: int|
                0 <= j < rest.len() && key_matches(#[trigger] rest[j], key) && no_earlier_key(
                    rest,
                    j,
                    key,
                ) && map_get(rest, key) == Some(rest[j].1);
            assert(entries[j + 1] == rest[j]);
            assert forall|i: int| 0 <= i < j + 1 implies !key_matches(
                #[trigger] entries[i],
                key,
            ) by {
                if i > 0 {
                    assert(rest[i - 1] == entries[i]);
                }
            }
            assert(0 <= j + 1 < entries.len() && key_matches(entries[j + 1], key)
                && no_earlier_key(entries, j + 1, key) && map_get(entries, key) == Some(
                entries[j + 1].1,
            ));
        }
    }
}

/// A value found under a key is structurally below the entry list, so
/// recursion that follows a lookup still descends.
pub proof fn lemma_field_value_smaller(entries: Seq<(Value, Value)>, key: Seq<char>, v: Value)
    requires
        map_get(entries, key) == Some(v),
    ensures
        decreases_to!(entries => v),
{
    lemma_map_get_some_index(entries, key);
    let j = choose|j: int|
        0 <= j < entries.len() && key_matches(entries[j], key) && map_get(entries, key) == Some(
            entries[j].1,
        );
    assert(decreases_to!(entries => entries[j]));
    assert(decreases_to!(entries[j] => entries[j].1));
    assert(entries[j].1 == v);
}

/// Looks `key` up in a mapping's entry list, returning a reference to the
/// first matching entry's value.
pub fn entries_get<'a>(entries: &'a Vec<(Value, Value)>, key: &String) -> (r: Option<&'a Value>)
    ensures
        match r {
            Some(v) => map_get(entries@, key@) == Some(*v),
            None => map_get(entries@, key@) is None,
        },
{
    let n = entries.len();
    let mut i: usize = 0;
    assert(entries@.skip(0) =~= entries@);
    while i < n
        invariant
            0 <= i <= n,
            n == entries@.len(),
            map_get(entries@, key@) == map_get(entries@.skip(i as int), key@),
        decreases n - i,
    {
        proof {
            assert(entries@.skip(i as int)[0] == entries@[i as int]);
            assert(entries@.skip(i as int).drop_first() =~= entries@.skip(i as int + 1));
        }
        let matched = match &entries[i].0 {
            Value::Str(s) => *s == *key,
            _ => false,
        };
        if matched {
            return Some(&entries[i].1);
        }
        i = i + 1;
    }
    assert(entries@.skip(n as int) =~= Seq::<(Value, Value)>::empty());
    None
}

/// Deep equality of two document nodes: structural equality with text
/// compared by contents. This is the equality notion of the engine's
/// `uniqueItems` check.
pub open spec fn veq(a: Value, b: Value) -> bool
    decreases a,
{
    match a {
        Value::Null => b is Null,
        Value::Bool(x) => b matches Value::Bool(y) && x == y,
        Value::Int(x) => b matches Value::Int(y) && x == y,
        Value::Real(x) => b matches Value::Real(y) && x == y,
        Value::Str(x) => b matches Value::Str(y) && x@ == y@,
        Value::Array(xs) => b matches Value::Array(ys) && seq_veq(xs@, ys@),
        Value::Hash(xs) => b matches Value::Hash(ys) && entries_veq(xs@, ys@),
        Value::Bad => b is Bad,
    }
}

/// Pointwise deep equality of two node sequences.
pub open spec fn seq_veq(xs: Seq<Value>, ys: Seq<Value>) -> bool
    decreases xs,
{
    xs.len() == ys.len() && (forall|i: int| 0 <= i < xs.len() ==> veq(#[trigger] xs[i], ys[i]))
}

/// Pointwise deep equality of two entry lists.
pub open spec fn entries_veq(xs: Seq<(Value, Value)>, ys: Seq<(Value, Value)>) -> bool
    decreases xs,
{
    xs.len() == ys.len() && (forall|i: int|
        0 <= i < xs.len() ==> veq((#[trigger] xs[i]).0, ys[i].0) && veq(xs[i].1, ys[i].1))
}

/// Deep equality of two document nodes.
pub fn value_eq(a: &Value, b: &Value) -> (r: bool)
    ensures
        r == veq(*a, *b),
    decreases *a,
{
    match a {
        Value::Null => matches!(b, Value::Null),
        Value::Bool(x) => match b {
            Value::Bool(y) => *x == *y,
            _ => false,
        },
        Value::Int(x) => match b {
            Value::Int(y) => *x == *y,
            _ => false,
        },
        Value::Real(x) => match b {
            Value::Real(y) => *x == *y,
            _ => false,
        },
        Value::Str(x) => match b {
            Value::Str(y) => *x == *y,
            _ => false,
        },
        Value::Array(xs) => match b {
            Value::Array(ys) => seq_eq(xs, ys),
            _ => false,
        },
        Value::Hash(xs) => match b {
            Value::Hash(ys) => entries_eq(xs, ys),
            _ => false,
        },
        Value::Bad => matches!(b, Value::Bad),
    }
}

fn seq_eq(xs: &Vec<Value>, ys: &Vec<Value>) -> (r: bool)
    ensures
        r == seq_veq(xs@, ys@),
    decreases *xs,
{
    if xs.len() != ys.len() {
        return false;
    }
    let n = xs.len();
    let mut i: usize = 0;
    while i < n
        invariant
            0 <= i <= n,
            n == xs@.len() && n == ys@.len(),
            forall|j: int| 0 <= j < i ==> veq(#[trigger] xs@[j], ys@[j]),
        decreases n - i,
    {
        assert(decreases_to!(*xs => xs@[i as int]));
        if !value_eq(&xs[i], &ys[i]) {
            return false;
        }
        i = i + 1;
    }
    true
}

fn entries_eq(xs: &Vec<(Value, Value)>, ys: &Vec<(Value, Value)>) -> (r: bool)
    ensures
        r == entries_veq(xs@, ys@),
    decreases *xs,
{
    if xs.len() != ys.len() {
        return false;
    }
    let n = xs.len();
    let mut i: usize = 0;
    while i < n
        invariant
            0 <= i <= n,
            n == xs@.len() && n == ys@.len(),
            forall|j: int|
                0 <= j < i ==> veq((#[trigger] xs@[j]).0, ys@[j].0) && veq(xs@[j].1, ys@[j].1),
        decreases n - i,
    {
        assert(decreases_to!(*xs => xs@[i as int].0));
        assert(decreases_to!(*xs => xs@[i as int].1));
        if !value_eq(&xs[i].0, &ys[i].0) {
            return false;
        }
        if !value_eq(&xs[i].1, &ys[i].1) {
            return false;
        }
        i = i + 1;
    }
    true
}

} // verus!
