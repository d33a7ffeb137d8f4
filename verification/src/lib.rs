//! A schema-description language and validation engine for structured
//! documents. Schema documents are compiled into an in-memory validator
//! graph (a `Context` of named `Schema`s over a closed union of node
//! kinds), and arbitrary documents are then checked against a named
//! schema, producing either success or a path-annotated report of every
//! violation found.
pub mod breadcrumb;
pub mod errors;
pub mod modifiers;
pub mod pattern;
pub mod realnum;
pub mod types;
pub mod utils;
pub mod value;

use vstd::prelude::*;

use crate::errors::{SchemaError, SchemaErrorKind, ValidationError, ValidationErrorKind};
use crate::modifiers::all_of::SchemaAllOf;
use crate::modifiers::any_of::SchemaAnyOf;
use crate::modifiers::not::SchemaNot;
use crate::modifiers::one_of::SchemaOneOf;
use crate::types::array::SchemaArray;
use crate::types::boolean::SchemaBool;
use crate::types::hash::SchemaHash;
use crate::types::integer::SchemaInteger;
use crate::types::object::SchemaObject;
use crate::types::reals::SchemaReal;
use crate::types::reference::SchemaReference;
use crate::types::string::SchemaString;
use crate::value::Value;
use vstd::string::StringExecFns;

verus! {

/// How many consecutive schema references may be followed without any
/// progress into the document before validation reports a depth error.
/// Reference chains are resolved lazily, so a cycle that consumes no input
/// would otherwise never terminate.
pub const REF_FUEL: u64 = 64;

/// One compiled schema node: a closed union of document-shape kinds and
/// logical combinators.
#[derive(Debug)]
pub enum PropertyType {
    Object(SchemaObject),
    Array(SchemaArray),
    Hash(SchemaHash),
    String(SchemaString),
    Integer(SchemaInteger),
    Real(SchemaReal),
    Bool(SchemaBool),
    Reference(SchemaReference),
    Not(SchemaNot),
    OneOf(SchemaOneOf),
    AllOf(SchemaAllOf),
    AnyOf(SchemaAnyOf),
}

/// A single named schema: a URI and the root node compiled from its
/// `schema` field.
#[derive(Debug)]
pub struct Schema {
    pub uri: String,
    pub schema: PropertyType,
}

/// A registry of compiled schemas, keyed by URI. References are resolved
/// against it lazily, at validation time, so schemas may refer to each
/// other and to themselves in any declaration order.
#[derive(Debug)]
pub struct Context {
    pub schemas: Vec<Schema>,
}

/// The schema registered under `uri`, with a later registration shadowing
/// an earlier one of the same URI.
pub open spec fn schemas_lookup(ss: Seq<Schema>, uri: Seq<char>) -> Option<Schema>
    decreases ss,
{
    if ss.len() == 0 {
        None
    } else if ss.last().uri@ == uri {
        Some(ss.last())
    } else {
        schemas_lookup(ss.drop_last(), uri)
    }
}

/// Whether the document `doc` satisfies the schema node `prop` under the
/// registry `ctx`. `fuel` bounds how many consecutive references may be
/// followed without consuming any document structure; every descent into
/// a child document node starts afresh with `REF_FUEL`.
pub open spec fn prop_valid(ctx: Context, prop: PropertyType, doc: Value, fuel: nat) -> bool
    decreases doc, fuel, prop,
{
    match prop {
        PropertyType::Object(s) => match doc {
            Value::Hash(entries) => {
                &&& s.contract_ok(entries@)
                &&& entries_ok_upto(ctx, s.items@, entries@, entries@.len() as int)
            },
            _ => false,
        },
        PropertyType::Array(s) => match doc {
            Value::Array(items) => {
                &&& (s.min_items matches Some(m) ==> items@.len() >= m)
                &&& (s.max_items matches Some(m) ==> items@.len() <= m)
                &&& (s.unique_items ==> all_distinct(items@))
                &&& (s.contains matches Some(c) ==> contains_count_ok(
                    s.min_contains,
                    s.max_contains,
                    count_valid_docs(ctx, *c, items@),
                ))
                &&& (s.items matches Some(p) ==> docs_valid_upto(
                    ctx,
                    *p,
                    items@,
                    items@.len() as int,
                ))
            },
            _ => false,
        },
        PropertyType::Hash(s) => match doc {
            Value::Hash(entries) => s.items matches Some(p) ==> values_valid_upto(
                ctx,
                *p,
                entries@,
                entries@.len() as int,
            ),
            _ => false,
        },
        PropertyType::String(s) => s.accepts(doc),
        PropertyType::Integer(s) => s.accepts(doc),
        PropertyType::Real(s) => s.accepts(doc),
        PropertyType::Bool(_) => doc is Bool,
        PropertyType::Reference(s) => fuel > 0 && (schemas_lookup(ctx.schemas@, s.uri@)
            matches Some(found) && prop_valid(ctx, found.schema, doc, (fuel - 1) as nat)),
        PropertyType::Not(s) => !prop_valid(ctx, *s.item, doc, fuel),
        PropertyType::OneOf(s) => count_valid(ctx, s.items@, doc, fuel) == 1,
        PropertyType::AllOf(s) => count_valid(ctx, s.items@, doc, fuel) == s.items@.len(),
        PropertyType::AnyOf(s) => count_valid(ctx, s.items@, doc, fuel) >= 1,
    }
}

/// How many of the given child nodes the document satisfies.
pub open spec fn count_valid(
    ctx: Context,
    children: Seq<PropertyType>,
    doc: Value,
    fuel: nat,
) -> nat
    decreases doc, fuel, children,
{
    if children.len() == 0 {
        0
    } else {
        count_valid(ctx, children.drop_last(), doc, fuel) + if prop_valid(
            ctx,
            children.last(),
            doc,
            fuel,
        ) {
            1nat
        } else {
            0nat
        }
    }
}

/// How many elements of a sequence satisfy the node `p`, each judged with
/// a fresh reference budget.
pub open spec fn count_valid_docs(ctx: Context, p: PropertyType, items: Seq<Value>) -> nat
    decreases items, 0nat, p,
{
    if items.len() == 0 {
        0
    } else {
        count_valid_docs(ctx, p, items.drop_last()) + if prop_valid(
            ctx,
            p,
            items.last(),
            REF_FUEL as nat,
        ) {
            1nat
        } else {
            0nat
        }
    }
}

/// How many elements of a sequence fail the node `p`.
pub open spec fn count_invalid_docs(ctx: Context, p: PropertyType, items: Seq<Value>) -> nat
    decreases items, 0nat, p,
{
    if items.len() == 0 {
        0
    } else {
        count_invalid_docs(ctx, p, items.drop_last()) + if prop_valid(
            ctx,
            p,
            items.last(),
            REF_FUEL as nat,
        ) {
            0nat
        } else {
            1nat
        }
    }
}

/// How many entry values of a mapping fail the node `p`.
pub open spec fn count_invalid_values(
    ctx: Context,
    p: PropertyType,
    entries: Seq<(Value, Value)>,
) -> nat
    decreases entries, 0nat, p,
{
    if entries.len() == 0 {
        0
    } else {
        count_invalid_values(ctx, p, entries.drop_last()) + if prop_valid(
            ctx,
            p,
            entries.last().1,
            REF_FUEL as nat,
        ) {
            0nat
        } else {
            1nat
        }
    }
}

/// Whether the first `k` elements of a sequence all satisfy the node
/// `p`, each judged with a fresh reference budget.
pub open spec fn docs_valid_upto(ctx: Context, p: PropertyType, items: Seq<Value>, k: int) -> bool
    decreases items, k, p,
{
    if k <= 0 || k > items.len() {
        true
    } else {
        docs_valid_upto(ctx, p, items, k - 1) && prop_valid(
            ctx,
            p,
            items[k - 1],
            REF_FUEL as nat,
        )
    }
}

/// Whether the first `k` entry values of a mapping all satisfy the node
/// `p`, each judged with a fresh reference budget.
pub open spec fn values_valid_upto(
    ctx: Context,
    p: PropertyType,
    entries: Seq<(Value, Value)>,
    k: int,
) -> bool
    decreases entries, k, p,
{
    if k <= 0 || k > entries.len() {
        true
    } else {
        values_valid_upto(ctx, p, entries, k - 1) && prop_valid(
            ctx,
            p,
            entries[k - 1].1,
            REF_FUEL as nat,
        )
    }
}

/// Whether the first `k` mapping entries each pass the object field
/// checks.
pub open spec fn entries_ok_upto(
    ctx: Context,
    fields: Seq<(String, PropertyType)>,
    entries: Seq<(Value, Value)>,
    k: int,
) -> bool
    decreases entries, k, fields,
{
    if k <= 0 || k > entries.len() {
        true
    } else {
        entries_ok_upto(ctx, fields, entries, k - 1) && entry_fields_ok(
            ctx,
            fields,
            entries,
            k - 1,
        )
    }
}

/// The prefix reading of the object entry checks coincides with the
/// per-entry quantifier.
#[verifier::spinoff_prover]
pub proof fn lemma_entries_ok_upto_forall(
    ctx: Context,
    fields: Seq<(String, PropertyType)>,
    entries: Seq<(Value, Value)>,
    k: int,
)
    requires
        0 <= k <= entries.len(),
    ensures
        entries_ok_upto(ctx, fields, entries, k) <==> (forall|j: int|
            0 <= j < k ==> #[trigger] entry_fields_ok(ctx, fields, entries, j)),
    decreases k,
{
    if k > 0 {
        lemma_entries_ok_upto_forall(ctx, fields, entries, k - 1);
        if entries_ok_upto(ctx, fields, entries, k) {
            assert forall|j: int| 0 <= j < k implies #[trigger] entry_fields_ok(
                ctx,
                fields,
                entries,
                j,
            ) by {
                if j < k - 1 {
                    assert(entries_ok_upto(ctx, fields, entries, k - 1));
                } else {
                    assert(entry_fields_ok(ctx, fields, entries, k - 1));
                }
            }
        }
        if forall|j: int| 0 <= j < k ==> #[trigger] entry_fields_ok(ctx, fields, entries, j) {
            assert(entry_fields_ok(ctx, fields, entries, k - 1));
            assert(entries_ok_upto(ctx, fields, entries, k - 1));
            assert(entries_ok_upto(ctx, fields, entries, k));
        }
    }
}

/// Whether no two elements of a sequence are deeply equal.
pub open spec fn all_distinct(items: Seq<Value>) -> bool {
    forall|i: int, j: int|
        0 <= i < j < items.len() ==> !crate::value::veq(#[trigger] items[i], #[trigger] items[j])
}

/// Whether the number of elements matching a `contains` schema satisfies
/// the configured counts: with no explicit counts at least one match is
/// required, otherwise the count must lie between them.
pub open spec fn contains_count_ok(
    min_contains: Option<usize>,
    max_contains: Option<usize>,
    cnt: nat,
) -> bool {
    &&& (min_contains matches Some(m) ==> cnt >= m)
    &&& (min_contains is None ==> cnt >= 1)
    &&& (max_contains matches Some(m) ==> cnt <= m)
}

/// Whether one mapping entry, when it is the first occurrence of its key
/// and its value is present, satisfies every schema field of that name.
pub open spec fn entry_fields_ok(
    ctx: Context,
    fields: Seq<(String, PropertyType)>,
    entries: Seq<(Value, Value)>,
    j: int,
) -> bool
    recommends
        0 <= j < entries.len(),
    decreases entries, 0nat, fields,
{
    if 0 <= j < entries.len() {
        match entries[j].0 {
            Value::Str(k) => (crate::value::no_earlier_key(entries, j, k@) && !(entries[j].1
                is Null) && !(entries[j].1 is Bad)) ==> (forall|f: int|
                0 <= f < fields.len() && (#[trigger] fields[f]).0@ == k@ ==> prop_valid(
                    ctx,
                    fields[f].1,
                    entries[j].1,
                    REF_FUEL as nat,
                )),
            _ => true,
        }
    } else {
        true
    }
}

/// All of the children are satisfied exactly when the count of satisfied
/// children is full; this is the combinator law that `allOf` rests on.
#[verifier::spinoff_prover]
pub proof fn lemma_count_valid_all(ctx: Context, children: Seq<PropertyType>, doc: Value, fuel: nat)
    ensures
        (count_valid(ctx, children, doc, fuel) == children.len()) <==> (forall|i: int|
            0 <= i < children.len() ==> prop_valid(ctx, #[trigger] children[i], doc, fuel)),
    decreases children,
{
    if children.len() > 0 {
        let rest = children.drop_last();
        lemma_count_valid_all(ctx, rest, doc, fuel);
        lemma_count_valid_bound(ctx, rest, doc, fuel);
        if count_valid(ctx, children, doc, fuel) == children.len() {
            assert forall|i: int| 0 <= i < children.len() implies prop_valid(
                ctx,
                #[trigger] children[i],
                doc,
                fuel,
            ) by {
                if i < children.len() - 1 {
                    assert(children[i] == rest[i]);
                }
            }
        }
        if forall|i: int| 0 <= i < children.len() ==> prop_valid(
            ctx,
            #[trigger] children[i],
            doc,
            fuel,
        ) {
            assert forall|i: int| 0 <= i < rest.len() implies prop_valid(
                ctx,
                #[trigger] rest[i],
                doc,
                fuel,
            ) by {
                assert(rest[i] == children[i]);
            }
            assert(prop_valid(ctx, children.last(), doc, fuel));
        }
    }
}

/// At least one child is satisfied exactly when the count of satisfied
/// children is positive; this is the combinator law that `anyOf` rests on.
#[verifier::spinoff_prover]
pub proof fn lemma_count_valid_any(ctx: Context, children: Seq<PropertyType>, doc: Value, fuel: nat)
    ensures
        (count_valid(ctx, children, doc, fuel) >= 1) <==> (exists|i: int|
            0 <= i < children.len() && prop_valid(ctx, #[trigger] children[i], doc, fuel)),
    decreases children,
{
    if children.len() > 0 {
        let rest = children.drop_last();
        lemma_count_valid_any(ctx, rest, doc, fuel);
        if count_valid(ctx, children, doc, fuel) >= 1 {
            if prop_valid(ctx, children.last(), doc, fuel) {
                assert(0 <= children.len() - 1 < children.len() && prop_valid(
                    ctx,
                    children[children.len() - 1],
                    doc,
                    fuel,
                ));
            } else {
                let i = choose|i: int|
                    0 <= i < rest.len() && prop_valid(ctx, #[trigger] rest[i], doc, fuel);
                assert(children[i] == rest[i]);
                assert(0 <= i < children.len() && prop_valid(ctx, children[i], doc, fuel));
            }
        }
        if exists|i: int| 0 <= i < children.len() && prop_valid(
            ctx,
            #[trigger] children[i],
            doc,
            fuel,
        ) {
            let i = choose|i: int|
                0 <= i < children.len() && prop_valid(ctx, #[trigger] children[i], doc, fuel);
            if i < children.len() - 1 {
                assert(rest[i] == children[i]);
                assert(0 <= i < rest.len() && prop_valid(ctx, rest[i], doc, fuel));
            }
        }
    }
}

/// The count of satisfied children never exceeds the number of children.
pub proof fn lemma_count_valid_bound(
    ctx: Context,
    children: Seq<PropertyType>,
    doc: Value,
    fuel: nat,
)
    ensures
        count_valid(ctx, children, doc, fuel) <= children.len(),
    decreases children,
{
    if children.len() > 0 {
        lemma_count_valid_bound(ctx, children.drop_last(), doc, fuel);
    }
}

/// Exactly one child is satisfied exactly when the count of satisfied
/// children is one; this is the exclusivity law that `oneOf` rests on.
#[verifier::rlimit(50)]
#[verifier::spinoff_prover]
pub proof fn lemma_count_valid_one(ctx: Context, children: Seq<PropertyType>, doc: Value, fuel: nat)
    ensures
        (count_valid(ctx, children, doc, fuel) == 1) <==> (exists|i: int|
            0 <= i < children.len() && prop_valid(ctx, #[trigger] children[i], doc, fuel)
                && (forall|j: int|
                0 <= j < children.len() && j != i ==> !prop_valid(
                    ctx,
                    #[trigger] children[j],
                    doc,
                    fuel,
                ))),
    decreases children,
{
    if children.len() > 0 {
        let rest = children.drop_last();
        lemma_count_valid_one(ctx, rest, doc, fuel);
        lemma_count_valid_any(ctx, rest, doc, fuel);
        lemma_count_valid_bound(ctx, rest, doc, fuel);
        assert forall|i: int| 0 <= i < rest.len() implies children[i] == rest[i] by {}
        if count_valid(ctx, children, doc, fuel) == 1 {
            if prop_valid(ctx, children.last(), doc, fuel) {
                let w = children.len() - 1;
                assert forall|j: int| 0 <= j < children.len() && j != w implies !prop_valid(
                    ctx,
                    #[trigger] children[j],
                    doc,
                    fuel,
                ) by {
                    assert(children[j] == rest[j]);
                }
                assert(0 <= w < children.len() && prop_valid(ctx, children[w], doc, fuel) && (
                forall|j: int|
                    0 <= j < children.len() && j != w ==> !prop_valid(
                        ctx,
                        #[trigger] children[j],
                        doc,
                        fuel,
                    )));
            } else {
                let w = choose|i: int|
                    0 <= i < rest.len() && prop_valid(ctx, #[trigger] rest[i], doc, fuel) && (
                    forall|j: int|
                        0 <= j < rest.len() && j != i ==> !prop_valid(
                            ctx,
                            #[trigger] rest[j],
                            doc,
                            fuel,
                        ));
                assert(0 <= w < children.len() && prop_valid(ctx, children[w], doc, fuel) && (
                forall|j: int|
                    0 <= j < children.len() && j != w ==> !prop_valid(
                        ctx,
                        #[trigger] children[j],
                        doc,
                        fuel,
                    )));
            }
        }
        if exists|i: int|
            0 <= i < children.len() && prop_valid(ctx, #[trigger] children[i], doc, fuel) && (
        forall|j: int|
            0 <= j < children.len() && j != i ==> !prop_valid(
                ctx,
                #[trigger] children[j],
                doc,
                fuel,
            )) {
            let w = choose|i: int|
                0 <= i < children.len() && prop_valid(ctx, #[trigger] children[i], doc, fuel) && (
                forall|j: int|
                    0 <= j < children.len() && j != i ==> !prop_valid(
                        ctx,
                        #[trigger] children[j],
                        doc,
                        fuel,
                    ));
            if w == children.len() - 1 {
                assert(count_valid(ctx, rest, doc, fuel) == 0) by {
                    if count_valid(ctx, rest, doc, fuel) >= 1 {
                        let i = choose|i: int|
                            0 <= i < rest.len() && prop_valid(ctx, #[trigger] rest[i], doc, fuel);
                        assert(prop_valid(ctx, children[i], doc, fuel));
                        assert(false);
                    }
                }
            } else {
                assert(0 <= w < rest.len() && prop_valid(ctx, rest[w], doc, fuel) && (forall|j: int|
                    0 <= j < rest.len() && j != w ==> !prop_valid(
                        ctx,
                        #[trigger] rest[j],
                        doc,
                        fuel,
                    )));
                assert(!prop_valid(ctx, children.last(), doc, fuel));
            }
        }
    }
}

/// Negation is an involution over success and failure: a document passes a
/// doubly negated schema exactly when it passes the schema the two
/// negations wrap.
pub proof fn lemma_not_involution(
    ctx: Context,
    outer: SchemaNot,
    inner: SchemaNot,
    doc: Value,
    fuel: nat,
)
    requires
        *outer.item == PropertyType::Not(inner),
    ensures
        prop_valid(ctx, PropertyType::Not(outer), doc, fuel) == prop_valid(
            ctx,
            *inner.item,
            doc,
            fuel,
        ),
{
    assert(prop_valid(ctx, PropertyType::Not(outer), doc, fuel) == !prop_valid(
        ctx,
        *outer.item,
        doc,
        fuel,
    ));
    assert(prop_valid(ctx, PropertyType::Not(inner), doc, fuel) == !prop_valid(
        ctx,
        *inner.item,
        doc,
        fuel,
    ));
}

/// Whether the schema document `yaml` compiles: it must be a mapping that
/// is a reference, a combinator, or a typed node whose own fields are
/// well-formed.
pub open spec fn prop_schema_wf(yaml: Value) -> bool
    decreases yaml, 0nat, 3nat,
{
    match yaml {
        Value::Hash(entries) => {
            if yaml.field_of("$ref"@) is Some {
                yaml.field_of("$ref"@) matches Some(v) && v is Str
            } else if yaml.field_of("not"@) is Some {
                SchemaNot::schema_wf(yaml) && children_of_field_wf(entries@, "not"@)
            } else if yaml.field_of("oneOf"@) is Some {
                SchemaOneOf::schema_wf(yaml) && elements_of_field_wf(entries@, "oneOf"@)
            } else if yaml.field_of("allOf"@) is Some {
                SchemaAllOf::schema_wf(yaml) && elements_of_field_wf(entries@, "allOf"@)
            } else if yaml.field_of("anyOf"@) is Some {
                SchemaAnyOf::schema_wf(yaml) && elements_of_field_wf(entries@, "anyOf"@)
            } else {
                match yaml.field_of("type"@) {
                    Some(t) => t matches Value::Str(name) && typed_schema_wf(name@, yaml),
                    None => false,
                }
            }
        },
        _ => false,
    }
}

/// The `type` names the engine knows.
pub open spec fn known_type_name(t: Seq<char>) -> bool {
    ||| t == "object"@
    ||| t == "array"@
    ||| t == "hash"@
    ||| t == "string"@
    ||| t == "integer"@
    ||| t == "real"@
    ||| t == "boolean"@
}

/// Whether a typed (non-combinator) schema node is well-formed, by its
/// `type` name.
pub open spec fn typed_schema_wf(name: Seq<char>, yaml: Value) -> bool
    decreases yaml, 0nat, 2nat,
{
    if name == "object"@ {
        SchemaObject::schema_wf(yaml)
    } else if name == "array"@ {
        SchemaArray::schema_wf(yaml)
    } else if name == "hash"@ {
        SchemaHash::schema_wf(yaml)
    } else if name == "string"@ {
        SchemaString::schema_wf(yaml)
    } else if name == "integer"@ {
        SchemaInteger::schema_wf(yaml)
    } else if name == "real"@ {
        SchemaReal::schema_wf(yaml)
    } else if name == "boolean"@ {
        SchemaBool::schema_wf(yaml)
    } else {
        false
    }
}

/// Whether the first value stored under `key` compiles as a schema node.
/// Phrased over the entry list so that the recursion descends the document
/// structurally.
pub open spec fn children_of_field_wf(entries: Seq<(Value, Value)>, key: Seq<char>) -> bool
    decreases entries, 0nat, 1nat,
{
    forall|j: int|
        0 <= j < entries.len() ==> ((crate::value::key_matches(#[trigger] entries[j], key)
            && crate::value::no_earlier_key(entries, j, key)) ==> prop_schema_wf(entries[j].1))
}

/// Whether every element of the array stored first under `key` compiles as
/// a schema node.
pub open spec fn elements_of_field_wf(entries: Seq<(Value, Value)>, key: Seq<char>) -> bool
    decreases entries, 0nat, 1nat,
{
    forall|j: int|
        0 <= j < entries.len() ==> ((crate::value::key_matches(#[trigger] entries[j], key)
            && crate::value::no_earlier_key(entries, j, key)) ==> (entries[j].1
            matches Value::Array(children) ==> seq_schema_wf(children@)))
}

/// Whether every node of a list compiles as a schema node.
pub open spec fn seq_schema_wf(children: Seq<Value>) -> bool
    decreases children, 0nat, 1nat,
{
    forall|i: int| 0 <= i < children.len() ==> prop_schema_wf(#[trigger] children[i])
}

/// Whether the first value stored under `key`, when present and not null,
/// compiles as a schema node.
pub open spec fn optional_child_wf(
    entries: Seq<(Value, Value)>,
    key: Seq<char>,
) -> bool
    decreases entries, 0nat, 1nat,
{
    forall|j: int|
        0 <= j < entries.len() ==> ((crate::value::key_matches(#[trigger] entries[j], key)
            && crate::value::no_earlier_key(entries, j, key) && !(entries[j].1 is Null) && !(
        entries[j].1 is Bad)) ==> prop_schema_wf(entries[j].1))
}

/// Whether `child` is the compilation of the first value stored under
/// `key`, when that value is present and not null.
pub open spec fn optional_child_compiled(
    entries: Seq<(Value, Value)>,
    key: Seq<char>,
    child: Option<Box<PropertyType>>,
) -> bool
    decreases entries, 0nat, 1nat,
{
    forall|j: int|
        0 <= j < entries.len() ==> ((crate::value::key_matches(#[trigger] entries[j], key)
            && crate::value::no_earlier_key(entries, j, key) && !(entries[j].1 is Null) && !(
        entries[j].1 is Bad)) ==> (child matches Some(c) && prop_compiled_from(
            *c,
            entries[j].1,
        )))
}

/// Whether the compiled node `prop` is what compiling `yaml` produces.
pub open spec fn prop_compiled_from(prop: PropertyType, yaml: Value) -> bool
    decreases yaml, 0nat, 3nat,
{
    match yaml {
        Value::Hash(entries) => {
            if yaml.field_of("$ref"@) is Some {
                prop matches PropertyType::Reference(s) && (yaml.field_of("$ref"@) matches Some(
                    Value::Str(u),
                ) && s.uri@ == u@)
            } else if yaml.field_of("not"@) is Some {
                prop matches PropertyType::Not(s) && child_of_field_compiled(
                    entries@,
                    "not"@,
                    *s.item,
                )
            } else if yaml.field_of("oneOf"@) is Some {
                prop matches PropertyType::OneOf(s) && elements_of_field_compiled(
                    entries@,
                    "oneOf"@,
                    s.items@,
                )
            } else if yaml.field_of("allOf"@) is Some {
                prop matches PropertyType::AllOf(s) && elements_of_field_compiled(
                    entries@,
                    "allOf"@,
                    s.items@,
                )
            } else if yaml.field_of("anyOf"@) is Some {
                prop matches PropertyType::AnyOf(s) && elements_of_field_compiled(
                    entries@,
                    "anyOf"@,
                    s.items@,
                )
            } else {
                match yaml.field_of("type"@) {
                    Some(t) => t matches Value::Str(name) && typed_compiled_from(
                        name@,
                        prop,
                        yaml,
                    ),
                    None => false,
                }
            }
        },
        _ => false,
    }
}

/// Whether a typed node compiled to the given variant with the fields the
/// schema text dictates.
pub open spec fn typed_compiled_from(name: Seq<char>, prop: PropertyType, yaml: Value) -> bool
    decreases yaml, 0nat, 2nat,
{
    if name == "object"@ {
        prop matches PropertyType::Object(s) && s.compiled_from(yaml)
    } else if name == "array"@ {
        prop matches PropertyType::Array(s) && s.compiled_from(yaml)
    } else if name == "hash"@ {
        prop matches PropertyType::Hash(s) && s.compiled_from(yaml)
    } else if name == "string"@ {
        prop matches PropertyType::String(s) && s.compiled_from(yaml)
    } else if name == "integer"@ {
        prop matches PropertyType::Integer(s) && s.compiled_from(yaml)
    } else if name == "real"@ {
        prop matches PropertyType::Real(s) && s.compiled_from(yaml)
    } else if name == "boolean"@ {
        prop matches PropertyType::Bool(_)
    } else {
        false
    }
}

/// Whether `child` is the compilation of the first value under `key`.
pub open spec fn child_of_field_compiled(
    entries: Seq<(Value, Value)>,
    key: Seq<char>,
    child: PropertyType,
) -> bool
    decreases entries, 0nat, 1nat,
{
    forall|j: int|
        0 <= j < entries.len() ==> ((crate::value::key_matches(#[trigger] entries[j], key)
            && crate::value::no_earlier_key(entries, j, key)) ==> prop_compiled_from(
            child,
            entries[j].1,
        ))
}

/// Whether `children` are, element for element, the compilations of the
/// array stored first under `key`.
pub open spec fn elements_of_field_compiled(
    entries: Seq<(Value, Value)>,
    key: Seq<char>,
    children: Seq<PropertyType>,
) -> bool
    decreases entries, 0nat, 1nat,
{
    forall|j: int|
        0 <= j < entries.len() ==> ((crate::value::key_matches(#[trigger] entries[j], key)
            && crate::value::no_earlier_key(entries, j, key)) ==> (entries[j].1
            matches Value::Array(nodes) ==> seq_compiled_from(children, nodes@)))
}

/// Whether `children` are, element for element, the compilations of
/// `nodes`.
pub open spec fn seq_compiled_from(children: Seq<PropertyType>, nodes: Seq<Value>) -> bool
    decreases nodes, 0nat, 1nat,
{
    children.len() == nodes.len() && (forall|i: int|
        0 <= i < nodes.len() ==> prop_compiled_from(children[i], #[trigger] nodes[i]))
}

impl PropertyType {
    /// Compiles one schema node from its mapping, dispatching on the
    /// reference key, the combinator keys, and finally the `type` field.
    #[verifier::spinoff_prover]
    pub fn try_from(yaml: &Value) -> (r: Result<PropertyType, SchemaError>)
        ensures
            r is Ok <==> prop_schema_wf(*yaml),
            r matches Ok(p) ==> prop_compiled_from(p, *yaml),
            !(yaml is Hash) ==> (r matches Err(e) && e.kind
                matches SchemaErrorKind::WrongType { expected, actual } && expected@ == "hash"@
                && actual@ == yaml.kind_name() && e.state.segments@.len() == 0),
            yaml is Hash ==> (match yaml.field_of("$ref"@) {
                Some(v) => !(v is Str) ==> (r matches Err(e) && e.kind
                    matches SchemaErrorKind::WrongType { expected, actual } && expected@
                    == "string"@ && actual@ == v.kind_name() && e.state.segments@.len() == 0),
                None => true,
            }),
            (yaml is Hash && yaml.field_of("$ref"@) is None && yaml.field_of("not"@) is None
                && yaml.field_of("oneOf"@) is None && yaml.field_of("allOf"@) is None
                && yaml.field_of("anyOf"@) is None) ==> {
                &&& (yaml.field_of("type"@) is None ==> (r matches Err(e) && e.kind
                    matches SchemaErrorKind::FieldMissing { field } && field@ == "type"@
                    && e.state.segments@.len() == 0))
                &&& (match yaml.field_of("type"@) {
                    Some(t) => {
                        &&& (!(t is Str) ==> (r matches Err(e) && e.kind
                            matches SchemaErrorKind::WrongType { expected, actual } && expected@
                            == "string"@ && actual@ == t.kind_name() && e.state.segments@.len()
                            == 0))
                        &&& (match t {
                            Value::Str(name) => !known_type_name(name@) ==> (r matches Err(e)
                                && e.kind matches SchemaErrorKind::UnknownType { unknown_type }
                                && unknown_type@ == name@ && e.state.segments@.len() == 0),
                            _ => true,
                        })
                    },
                    None => true,
                })
            },
        decreases *yaml, 0nat, 2nat,
    {
        let entries = match yaml {
            Value::Hash(entries) => entries,
            _ => {
                return Err(
                    SchemaErrorKind::WrongType {
                        expected: String::from_str("hash"),
                        actual: String::from_str(yaml.type_to_str()),
                    }.into_error(),
                );
            },
        };
        if let Some(v) = yaml.lookup_opt(&String::from_str("$ref")) {
            return match v {
                Value::Str(uri) => Ok(
                    PropertyType::Reference(SchemaReference { uri: uri.clone() }),
                ),
                other => Err(
                    SchemaErrorKind::WrongType {
                        expected: String::from_str("string"),
                        actual: String::from_str(other.type_to_str()),
                    }.into_error(),
                ),
            };
        }
        if yaml.lookup_opt(&String::from_str("not")).is_some() {
            let compiled = SchemaNot::try_from(yaml)?;
            return Ok(PropertyType::Not(compiled));
        }
        if yaml.lookup_opt(&String::from_str("oneOf")).is_some() {
            let compiled = SchemaOneOf::try_from(yaml)?;
            return Ok(PropertyType::OneOf(compiled));
        }
        if yaml.lookup_opt(&String::from_str("allOf")).is_some() {
            let compiled = SchemaAllOf::try_from(yaml)?;
            return Ok(PropertyType::AllOf(compiled));
        }
        if yaml.lookup_opt(&String::from_str("anyOf")).is_some() {
            let compiled = SchemaAnyOf::try_from(yaml)?;
            return Ok(PropertyType::AnyOf(compiled));
        }
        let typename = match yaml.lookup_opt(&String::from_str("type")) {
            None => {
                return Err(
                    SchemaErrorKind::FieldMissing { field: String::from_str("type") }.into_error(),
                );
            },
            Some(v) => match v {
                Value::Str(name) => name,
                other => {
                    return Err(
                        SchemaErrorKind::WrongType {
                            expected: String::from_str("string"),
                            actual: String::from_str(other.type_to_str()),
                        }.into_error(),
                    );
                },
            },
        };
        if *typename == String::from_str("object") {
            let compiled = SchemaObject::try_from(yaml)?;
            Ok(PropertyType::Object(compiled))
        } else if *typename == String::from_str("array") {
            let compiled = SchemaArray::try_from(yaml)?;
            Ok(PropertyType::Array(compiled))
        } else if *typename == String::from_str("hash") {
            let compiled = SchemaHash::try_from(yaml)?;
            Ok(PropertyType::Hash(compiled))
        } else if *typename == String::from_str("string") {
            let compiled = SchemaString::try_from(yaml)?;
            Ok(PropertyType::String(compiled))
        } else if *typename == String::from_str("integer") {
            let compiled = SchemaInteger::try_from(yaml)?;
            Ok(PropertyType::Integer(compiled))
        } else if *typename == String::from_str("real") {
            let compiled = SchemaReal::try_from(yaml)?;
            Ok(PropertyType::Real(compiled))
        } else if *typename == String::from_str("boolean") {
            let compiled = SchemaBool::try_from(yaml)?;
            Ok(PropertyType::Bool(compiled))
        } else {
            Err(SchemaErrorKind::UnknownType { unknown_type: typename.clone() }.into_error())
        }
    }

    /// Validates a document node, following references with the given
    /// fuel.
    #[verifier::spinoff_prover]
    pub fn validate_fuel(&self, ctx: &Context, doc: &Value, fuel: u64) -> (r: Result<
        (),
        ValidationError,
    >)
        ensures
            (r is Ok) == prop_valid(*ctx, *self, *doc, fuel as nat),
            self matches PropertyType::Reference(sr) ==> {
                &&& (fuel == 0 ==> (r matches Err(e) && e.kind
                    matches ValidationErrorKind::RecursionLimit { uri } && uri@ == sr.uri@
                    && e.state.segments@.len() == 0))
                &&& ((fuel > 0 && schemas_lookup(ctx.schemas@, sr.uri@) is None) ==> (r
                    matches Err(e) && e.kind matches ValidationErrorKind::UnknownSchema { uri }
                    && uri@ == sr.uri@ && e.state.segments@.len() == 0))
            },
        decreases *doc, fuel, *self,
    {
        match self {
            PropertyType::Object(s) => {
                proof {
                    assert(decreases_to!(*self => *s));
                }
                s.validate_fuel(ctx, doc, fuel)
            },
            PropertyType::Array(s) => {
                proof {
                    assert(decreases_to!(*self => *s));
                }
                s.validate_fuel(ctx, doc, fuel)
            },
            PropertyType::Hash(s) => {
                proof {
                    assert(decreases_to!(*self => *s));
                }
                s.validate_fuel(ctx, doc, fuel)
            },
            PropertyType::String(s) => s.validate(ctx, doc),
            PropertyType::Integer(s) => s.validate(ctx, doc),
            PropertyType::Real(s) => s.validate(ctx, doc),
            PropertyType::Bool(s) => s.validate(ctx, doc),
            PropertyType::Reference(s) => {
                if fuel == 0 {
                    Err(
                        ValidationErrorKind::RecursionLimit { uri: s.uri.clone() }.into_error(),
                    )
                } else {
                    match ctx.get_schema(s.uri.as_str()) {
                        Some(schema) => schema.schema.validate_fuel(ctx, doc, fuel - 1),
                        None => Err(
                            ValidationErrorKind::UnknownSchema { uri: s.uri.clone() }.into_error(),
                        ),
                    }
                }
            },
            PropertyType::Not(s) => {
                proof {
                    assert(decreases_to!(*self => *s));
                }
                s.validate_fuel(ctx, doc, fuel)
            },
            PropertyType::OneOf(s) => {
                proof {
                    assert(decreases_to!(*self => *s));
                }
                s.validate_fuel(ctx, doc, fuel)
            },
            PropertyType::AllOf(s) => {
                proof {
                    assert(decreases_to!(*self => *s));
                }
                s.validate_fuel(ctx, doc, fuel)
            },
            PropertyType::AnyOf(s) => {
                proof {
                    assert(decreases_to!(*self => *s));
                }
                s.validate_fuel(ctx, doc, fuel)
            },
        }
    }

    /// Validates a document node with a fresh reference budget.
    pub fn validate(&self, ctx: &Context, doc: &Value) -> (r: Result<(), ValidationError>)
        ensures
            (r is Ok) == prop_valid(*ctx, *self, *doc, REF_FUEL as nat),
            self matches PropertyType::Reference(sr) ==> (schemas_lookup(ctx.schemas@, sr.uri@)
                is None ==> (r matches Err(e) && e.kind
                matches ValidationErrorKind::UnknownSchema { uri } && uri@ == sr.uri@
                && e.state.segments@.len() == 0)),
        decreases *doc, REF_FUEL as nat + 1, *self,
    {
        self.validate_fuel(ctx, doc, REF_FUEL)
    }
}

impl Schema {
    /// Whether the top-level schema document `yaml` is well-formed: a
    /// mapping with exactly the keys `uri` (a string) and `schema` (a
    /// compilable node).
    pub open spec fn schema_wf(yaml: Value) -> bool {
        match yaml {
            Value::Hash(entries) => {
                &&& crate::utils::contract_issues(
                    entries@,
                    seq!["uri"@, "schema"@],
                    Seq::empty(),
                ).len() == 0
                &&& yaml.field_of("uri"@) matches Some(u) && u is Str
                &&& yaml.field_of("schema"@) is Some
                &&& children_of_field_wf(entries@, "schema"@)
            },
            _ => false,
        }
    }

    /// Whether this schema is what compiling `yaml` produces.
    pub open spec fn compiled_from(self, yaml: Value) -> bool {
        match yaml {
            Value::Hash(entries) => {
                &&& yaml.field_of("uri"@) matches Some(Value::Str(u)) && self.uri@ == u@
                &&& child_of_field_compiled(entries@, "schema"@, self.schema)
            },
            _ => false,
        }
    }

    /// Compiles one top-level schema document.
    #[verifier::spinoff_prover]
    pub fn try_from(yaml: &Value) -> (r: Result<Schema, SchemaError>)
        ensures
            r is Ok <==> Self::schema_wf(*yaml),
            r matches Ok(s) ==> s.compiled_from(*yaml),
            !(yaml is Hash) ==> (r matches Err(e) && e.kind
                matches SchemaErrorKind::WrongType { expected, actual } && expected@ == "hash"@
                && actual@ == yaml.kind_name() && e.state.segments@.len() == 0),
            (match *yaml {
                Value::Hash(entries) => ({
                    let issues = crate::utils::contract_issues(
                        entries@,
                        seq!["uri"@, "schema"@],
                        Seq::empty(),
                    );
                    issues.len() > 0 ==> (r matches Err(e)
                        && crate::utils::schema_strict_failure(e, issues))
                }),
                _ => true,
            }),
            (match *yaml {
                Value::Hash(entries) => (crate::utils::contract_issues(
                    entries@,
                    seq!["uri"@, "schema"@],
                    Seq::empty(),
                ).len() == 0 ==> {
                    &&& (yaml.field_of("uri"@) is None ==> (r matches Err(e) && e.kind
                        matches SchemaErrorKind::FieldMissing { field } && field@ == "uri"@
                        && e.state.segments@.len() == 0))
                    &&& (match yaml.field_of("uri"@) {
                        Some(u) => {
                            &&& (!(u is Str) ==> (r matches Err(e) && e.kind
                                matches SchemaErrorKind::WrongType { expected, actual }
                                && expected@ == "string"@ && actual@ == u.kind_name()
                                && e.state.segments@.len() == 0))
                            &&& (match u {
                                Value::Str(utext) => {
                                    &&& (yaml.field_of("schema"@) is None ==> (r matches Err(e)
                                        && e.kind matches SchemaErrorKind::FieldMissing { field }
                                        && field@ == "schema"@ && e.state.segments@.len() == 0))
                                    &&& (match yaml.field_of("schema"@) {
                                        Some(node) => !prop_schema_wf(node) ==> (r matches Err(e)
                                            && e.state.segments@.len() >= 1
                                            && crate::breadcrumb::is_name(
                                            e.state.segments@.last(),
                                            utext@,
                                        )),
                                        None => true,
                                    })
                                },
                                _ => true,
                            })
                        },
                        None => true,
                    })
                }),
                _ => true,
            }),
    {
        let mut req: Vec<String> = Vec::new();
        req.push(String::from_str("uri"));
        req.push(String::from_str("schema"));
        let opt: Vec<String> = Vec::new();
        proof {
            assert(crate::utils::names_of(req@) =~= seq!["uri"@, "schema"@]);
            assert(crate::utils::names_of(opt@) =~= Seq::<Seq<char>>::empty());
        }
        match yaml.strict_contents(&req, &opt) {
            Ok(_) => (),
            Err(g) => {
                let ghost gg = g;
                let e = g.into_schema_error();
                proof {
                    if *yaml is Hash {
                        crate::utils::lemma_strict_adoption_schema(
                            gg,
                            e,
                            crate::utils::contract_issues(
                                yaml->Hash_0@,
                                crate::utils::names_of(req@),
                                crate::utils::names_of(opt@),
                            ),
                        );
                    }
                }
                return Err(e);

            },
        }
        let uri = match yaml.lookup_opt(&String::from_str("uri")) {
            Some(v) => match v {
                Value::Str(u) => u.clone(),
                other => {
                    return Err(
                        SchemaErrorKind::WrongType {
                            expected: String::from_str("string"),
                            actual: String::from_str(other.type_to_str()),
                        }.into_error(),
                    );
                },
            },
            None => {
                return Err(
                    SchemaErrorKind::FieldMissing { field: String::from_str("uri") }.into_error(),
                );
            },
        };
        let node = match yaml.lookup_opt(&String::from_str("schema")) {
            Some(v) => v,
            None => {
                return Err(
                    SchemaErrorKind::FieldMissing {
                        field: String::from_str("schema"),
                    }.into_error(),
                );
            },
        };
        proof {
            let entries = yaml->Hash_0;
            crate::value::lemma_map_get_first(entries@, "schema"@);
        }
        let schema = match PropertyType::try_from(node) {
            Ok(p) => p,
            Err(e) => {
                return Err(e.add_path_name(uri));
            },
        };
        Ok(Schema { uri, schema })
    }

    /// Validates a document against this schema's root node.
    pub fn validate(&self, ctx: &Context, doc: &Value) -> (r: Result<(), ValidationError>)
        ensures
            (r is Ok) == prop_valid(*ctx, self.schema, *doc, REF_FUEL as nat),
            self.schema matches PropertyType::Reference(sr) ==> (schemas_lookup(
                ctx.schemas@,
                sr.uri@,
            ) is None ==> (r matches Err(e) && e.kind
                matches ValidationErrorKind::UnknownSchema { uri } && uri@ == sr.uri@
                && e.state.segments@.len() == 0)),
    {
        self.schema.validate(ctx, doc)
    }
}

/// How many of the first `k` schema documents fail to compile.
pub open spec fn count_not_wf(docs: Seq<Value>, k: int) -> nat
    decreases k,
{
    if k <= 0 {
        0
    } else {
        count_not_wf(docs, k - 1) + if Schema::schema_wf(docs[k - 1]) {
            0nat
        } else {
            1nat
        }
    }
}

impl Context {
    /// An empty registry.
    pub fn new() -> (r: Context)
        ensures
            r.schemas@.len() == 0,
    {
        Context { schemas: Vec::new() }
    }

    /// Compiles a list of schema documents into a registry. Every
    /// document is attempted; all failures are aggregated. A later
    /// document whose URI repeats an earlier one shadows it.
    #[verifier::spinoff_prover]
    pub fn try_from(documents: &Vec<Value>) -> (r: Result<Context, SchemaError>)
        ensures
            r is Ok <==> (forall|i: int|
                0 <= i < documents@.len() ==> Schema::schema_wf(#[trigger] documents@[i])),
            r matches Ok(ctx) ==> ctx.schemas@.len() == documents@.len() && (forall|i: int|
                0 <= i < documents@.len() ==> (#[trigger] ctx.schemas@[i]).compiled_from(
                    documents@[i],
                )),
            r matches Err(e) ==> ({
                let bad = count_not_wf(documents@, documents@.len() as int);
                &&& bad >= 1
                &&& (bad > 1 ==> (e.kind matches SchemaErrorKind::Multiple { errors: es }
                    && es@.len() == bad && e.state.segments@.len() == 0))
            }),
    {
        let mut schemas: Vec<Schema> = Vec::new();
        let mut errors: Vec<SchemaError> = Vec::new();
        let n = documents.len();
        let mut i: usize = 0;
        while i < n
            invariant
                0 <= i <= n,
                n == documents@.len(),
                errors@.len() == count_not_wf(documents@, i as int),
                errors@.len() == 0 ==> schemas@.len() == i,
                errors@.len() == 0 ==> (forall|j: int|
                    0 <= j < i ==> (#[trigger] schemas@[j]).compiled_from(documents@[j])),
                errors@.len() == 0 <==> (forall|j: int|
                    0 <= j < i ==> Schema::schema_wf(#[trigger] documents@[j])),
            decreases n - i,
        {
            match Schema::try_from(&documents[i]) {
                Ok(s) => schemas.push(s),
                Err(e) => errors.push(e),
            }
            i = i + 1;
        }
        match crate::errors::condense_schema_errors(errors) {
            Ok(_) => Ok(Context { schemas }),
            Err(e) => Err(e),
        }
    }

    /// The schema registered under `uri`, if any.
    pub fn get_schema<'a>(&'a self, uri: &str) -> (r: Option<&'a Schema>)
        ensures
            match r {
                Some(s) => schemas_lookup(self.schemas@, uri@) == Some(*s),
                None => schemas_lookup(self.schemas@, uri@) is None,
            },
    {
        let key = String::from_str(uri);
        let n = self.schemas.len();
        let mut i: usize = n;
        proof {
            assert(self.schemas@.take(n as int) =~= self.schemas@);
        }
        while i > 0
            invariant
                0 <= i <= n,
                n == self.schemas@.len(),
                key@ == uri@,
                schemas_lookup(self.schemas@, uri@) == schemas_lookup(
                    self.schemas@.take(i as int),
                    uri@,
                ),
            decreases i,
        {
            proof {
                assert(self.schemas@.take(i as int).last() == self.schemas@[i - 1]);
                assert(self.schemas@.take(i as int).drop_last() =~= self.schemas@.take(i - 1));
            }
            if self.schemas[i - 1].uri == key {
                return Some(&self.schemas[i - 1]);
            }
            i = i - 1;
        }
        proof {
            assert(self.schemas@.take(0) =~= Seq::<Schema>::empty());
        }
        None
    }
}

} // verus!
