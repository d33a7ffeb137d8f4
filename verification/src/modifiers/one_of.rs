//! The `oneOf` combinator: every child is evaluated, and exactly one must
//! succeed. Several successes are ambiguity, reported per successful
//! branch; none is failure, reported with every branch's own error.
use vstd::prelude::*;

use vstd::string::StringExecFns;

use crate::errors::{
    condense_validation_errors, SchemaError, SchemaErrorKind, ValidationError, ValidationErrorKind,
};
use crate::utils::{contract_issues, names_of};
use crate::value::{map_get, Value};
use crate::{count_valid, prop_valid, Context, PropertyType};

verus! {

/// A compiled `oneOf` node.
#[derive(Debug)]
pub struct SchemaOneOf {
    pub items: Vec<PropertyType>,
}

impl SchemaOneOf {
    /// Whether a `oneOf` mapping is well-formed apart from its children:
    /// exactly the key `oneOf`, holding a non-empty array.
    pub open spec fn schema_wf(yaml: Value) -> bool {
        combinator_schema_wf(yaml, "oneOf"@)
    }

    /// Compiles a `oneOf` node from its mapping.
    pub fn try_from(yaml: &Value) -> (r: Result<SchemaOneOf, SchemaError>)
        ensures
            r is Ok <==> (Self::schema_wf(*yaml) && crate::elements_of_field_wf(
                yaml->Hash_0@,
                "oneOf"@,
            )),
            r matches Ok(s) ==> crate::elements_of_field_compiled(
                yaml->Hash_0@,
                "oneOf"@,
                s.items@,
            ),
            !(yaml is Hash) ==> (r matches Err(e) && e.kind
                matches SchemaErrorKind::WrongType { expected, actual } && expected@ == "hash"@
                && actual@ == yaml.kind_name() && e.state.segments@.len() == 0),
            (match *yaml {
                Value::Hash(entries) => ({
                    let issues = crate::utils::contract_issues(
                        entries@,
                        seq!["oneOf"@],
                        Seq::empty(),
                    );
                    issues.len() > 0 ==> (r matches Err(e)
                        && crate::utils::schema_strict_failure(e, issues))
                }),
                _ => true,
            }),
            r matches Err(e) ==> combinator_compile_errors(e, *yaml, "oneOf"@),
        decreases *yaml, 0nat, 1nat,
    {
        let items = compile_combinator_children(yaml, "oneOf")?;
        Ok(SchemaOneOf { items })
    }

    /// Validates with a fresh reference budget.
    pub fn validate(&self, ctx: &Context, doc: &Value) -> (r: Result<(), ValidationError>)
        ensures
            (r is Ok) == (count_valid(*ctx, self.items@, *doc, crate::REF_FUEL as nat) == 1),
            ({
                let cnt = count_valid(*ctx, self.items@, *doc, crate::REF_FUEL as nat);
                cnt > 1 ==> (r matches Err(e) && e.kind matches ValidationErrorKind::Multiple {
                    errors: es,
                } && es@.len() == cnt && e.state.segments@.len() == 1
                    && crate::breadcrumb::is_name(e.state.segments@[0], "oneOf"@) && (forall|
                    b: int,
                |
                    0 <= b < es@.len() ==> ambiguity_leaf(
                        *ctx,
                        self.items@,
                        *doc,
                        crate::REF_FUEL as nat,
                        #[trigger] es@[b],
                        b,
                    )))
            }),
            ({
                let cnt = count_valid(*ctx, self.items@, *doc, crate::REF_FUEL as nat);
                (cnt == 0 && self.items@.len() > 1) ==> (r matches Err(e) && e.kind
                    matches ValidationErrorKind::Multiple { errors: es } && es@.len()
                    == self.items@.len() && e.state.segments@.len() == 0)
            }),
    {
        self.validate_fuel(ctx, doc, crate::REF_FUEL)
    }

    /// Validates by evaluating every child independently: one success is
    /// success; none is failure with all children's errors; several is an
    /// ambiguity error naming each successful branch by its position.
    pub fn validate_fuel(&self, ctx: &Context, doc: &Value, fuel: u64) -> (r: Result<
        (),
        ValidationError,
    >)
        ensures
            (r is Ok) == (count_valid(*ctx, self.items@, *doc, fuel as nat) == 1),
            ({
                let cnt = count_valid(*ctx, self.items@, *doc, fuel as nat);
                cnt > 1 ==> (r matches Err(e) && e.kind matches ValidationErrorKind::Multiple {
                    errors: es,
                } && es@.len() == cnt && e.state.segments@.len() == 1
                    && crate::breadcrumb::is_name(e.state.segments@[0], "oneOf"@) && (forall|
                    b: int,
                |
                    0 <= b < es@.len() ==> ambiguity_leaf(
                        *ctx,
                        self.items@,
                        *doc,
                        fuel as nat,
                        #[trigger] es@[b],
                        b,
                    )))
            }),
            ({
                let cnt = count_valid(*ctx, self.items@, *doc, fuel as nat);
                (cnt == 0 && self.items@.len() > 1) ==> (r matches Err(e) && e.kind
                    matches ValidationErrorKind::Multiple { errors: es } && es@.len()
                    == self.items@.len() && e.state.segments@.len() == 0)
            }),
        decreases *doc, fuel, *self,
    {
        let n = self.items.len();
        let mut errors: Vec<ValidationError> = Vec::new();
        let mut valid_indices: Vec<usize> = Vec::new();
        let mut i: usize = 0;
        proof {
            assert(self.items@.subrange(0, 0) =~= Seq::<PropertyType>::empty());
        }
        while i < n
            invariant
                0 <= i <= n,
                n == self.items@.len(),
                valid_indices@.len() == count_valid(
                    *ctx,
                    self.items@.subrange(0, i as int),
                    *doc,
                    fuel as nat,
                ),
                valid_indices@.len() + errors@.len() == i,
                forall|b: int|
                    0 <= b < valid_indices@.len() ==> (0 <= #[trigger] valid_indices@[b] < i
                        && prop_valid(
                        *ctx,
                        self.items@[valid_indices@[b] as int],
                        *doc,
                        fuel as nat,
                    ) && count_valid(
                        *ctx,
                        self.items@.subrange(0, valid_indices@[b] as int),
                        *doc,
                        fuel as nat,
                    ) == b),
            decreases n - i,
        {
            let ghost prefix = self.items@.subrange(0, i as int);
            let ghost next = self.items@.subrange(0, i as int + 1);
            proof {
                assert(next.drop_last() =~= prefix);
                assert(next.last() == self.items@[i as int]);
                assert(decreases_to!(*self => self.items));
            }
            match self.items[i].validate_fuel(ctx, doc, fuel) {
                Ok(_) => valid_indices.push(i),
                Err(e) => errors.push(e),
            }
            i = i + 1;
        }
        proof {
            assert(self.items@.subrange(0, n as int) =~= self.items@);
        }
        if valid_indices.len() == 1 {
            return Ok(());
        }
        if valid_indices.len() == 0 {
            return match condense_validation_errors(errors) {
                Err(e) => Err(e),
                Ok(_) => Err(
                    ValidationErrorKind::Multiple { errors: Vec::new() }.into_error(),
                ),
            };
        }
        let m = valid_indices.len();
        let mut branch_errors: Vec<ValidationError> = Vec::new();
        let mut j: usize = 0;
        while j < m
            invariant
                0 <= j <= m,
                m == valid_indices@.len(),
                branch_errors@.len() == j,
                forall|b: int|
                    0 <= b < valid_indices@.len() ==> (0 <= #[trigger] valid_indices@[b]
                        < self.items@.len() && prop_valid(
                        *ctx,
                        self.items@[valid_indices@[b] as int],
                        *doc,
                        fuel as nat,
                    ) && count_valid(
                        *ctx,
                        self.items@.subrange(0, valid_indices@[b] as int),
                        *doc,
                        fuel as nat,
                    ) == b),
                forall|b: int|
                    0 <= b < j ==> ambiguity_leaf(
                        *ctx,
                        self.items@,
                        *doc,
                        fuel as nat,
                        #[trigger] branch_errors@[b],
                        b,
                    ),
            decreases m - j,
        {
            let piece = ValidationErrorKind::ValidationError {
                error: String::from_str(
                    "multiple branches of oneOf validated successfully. oneOf must only contain a single valid branch",
                ),
            }.with_path_index(valid_indices[j]);
            proof {
                assert(ambiguity_leaf(*ctx, self.items@, *doc, fuel as nat, piece, j as int));
            }
            branch_errors.push(piece);
            j = j + 1;
        }
        Err(
            ValidationErrorKind::Multiple { errors: branch_errors }.into_error().add_path_name(
                String::from_str("oneOf"),
            ),
        )
    }
}

/// Whether an error is the ambiguity report for the `b`-th successful
/// branch of a `oneOf`: the fixed message, under the index of the branch
/// whose position among the successful branches is `b`.
pub open spec fn ambiguity_leaf(
    ctx: Context,
    children: Seq<PropertyType>,
    doc: Value,
    fuel: nat,
    e: ValidationError,
    b: int,
) -> bool {
    &&& e.kind matches ValidationErrorKind::ValidationError { error } && error@
        == "multiple branches of oneOf validated successfully. oneOf must only contain a single valid branch"@
    &&& e.state.segments@.len() == 1
    &&& exists|i: int|
        0 <= i < children.len() && prop_valid(ctx, #[trigger] children[i], doc, fuel)
            && count_valid(ctx, children.subrange(0, i), doc, fuel) == b
            && crate::breadcrumb::is_index(e.state.segments@[0], i)
}

/// How many of the first `k` child nodes fail to compile.
pub open spec fn count_bad_nodes(nodes: Seq<Value>, k: int) -> nat
    decreases k,
{
    if k <= 0 {
        0
    } else {
        count_bad_nodes(nodes, k - 1) + if crate::prop_schema_wf(nodes[k - 1]) {
            0nat
        } else {
            1nat
        }
    }
}

/// The compile findings a combinator's key itself can produce, and the
/// shape of its aggregated child failures.
pub open spec fn combinator_compile_errors(e: SchemaError, yaml: Value, key: Seq<char>) -> bool {
    match yaml {
        Value::Hash(entries) => (crate::utils::contract_issues(
            entries@,
            seq![key],
            Seq::empty(),
        ).len() == 0) ==> {
            &&& (yaml.field_of(key) is None ==> (e.kind
                matches SchemaErrorKind::FieldMissing { field } && field@ == key
                && e.state.segments@.len() == 0))
            &&& (match yaml.field_of(key) {
                Some(v) => {
                    &&& (!(v is Array) ==> (e.kind
                        matches SchemaErrorKind::WrongType { expected, actual } && expected@
                        == "array"@ && actual@ == v.kind_name() && e.state.segments@.len() == 0))
                    &&& (match v {
                        Value::Array(nodes) => {
                            let bad = count_bad_nodes(nodes@, nodes@.len() as int);
                            &&& (bad == 1 ==> (e.state.segments@.len() >= 1
                                && crate::breadcrumb::is_name(
                                e.state.segments@.last(),
                                "items"@,
                            )))
                            &&& (bad > 1 ==> (e.kind
                                matches SchemaErrorKind::Multiple { errors: es } && es@.len()
                                == bad && e.state.segments@.len() == 0 && (forall|b: int|
                                0 <= b < es@.len() ==> ((#[trigger] es@[b]).state.segments@.len()
                                    >= 1 && crate::breadcrumb::is_name(
                                    es@[b].state.segments@.last(),
                                    "items"@,
                                )))))
                            &&& ((bad == 0 && nodes@.len() == 0) ==> (e.kind
                                matches SchemaErrorKind::MalformedField { error } && error@ == key
                                + " modifier requires an array of schemas to validate against"@
                                && e.state.segments@.len() == 1 && crate::breadcrumb::is_name(
                                e.state.segments@[0],
                                key,
                            )))
                        },
                        _ => true,
                    })
                },
                None => true,
            })
        },
        _ => true,
    }
}

/// Whether a combinator mapping is well-formed apart from its children:
/// exactly the combinator's own key, holding a non-empty array.
pub open spec fn combinator_schema_wf(yaml: Value, key: Seq<char>) -> bool {
    match yaml {
        Value::Hash(entries) => {
            &&& contract_issues(entries@, seq![key], Seq::empty()).len() == 0
            &&& (match yaml.field_of(key) {
                Some(v) => v matches Value::Array(children) && children@.len() > 0,
                None => false,
            })
        },
        _ => false,
    }
}

/// Compiles the child list of a combinator node: the combinator's key must
/// hold a non-empty array, every element is compiled, and all failures are
/// aggregated under the path `items`.
pub fn compile_combinator_children(yaml: &Value, key: &'static str) -> (r: Result<
    Vec<PropertyType>,
    SchemaError,
>)
    ensures
        r is Ok <==> (combinator_schema_wf(*yaml, key@) && crate::elements_of_field_wf(
            yaml->Hash_0@,
            key@,
        )),
        r matches Ok(children) ==> crate::elements_of_field_compiled(
            yaml->Hash_0@,
            key@,
            children@,
        ),
        !(yaml is Hash) ==> (r matches Err(e) && e.kind
            matches SchemaErrorKind::WrongType { expected, actual } && expected@ == "hash"@
            && actual@ == yaml.kind_name() && e.state.segments@.len() == 0),
        (match *yaml {
            Value::Hash(entries) => ({
                let issues = contract_issues(entries@, seq![key@], Seq::empty());
                issues.len() > 0 ==> (r matches Err(e) && crate::utils::schema_strict_failure(
                    e,
                    issues,
                ))
            }),
            _ => true,
        }),
        r matches Err(e) ==> combinator_compile_errors(e, *yaml, key@),
    decreases *yaml, 0nat, 0nat,
{
    let entries = match yaml {
        Value::Hash(entries) => entries,
        _ => {
            return Err(
                SchemaErrorKind::WrongType {
                    expected: String::from_str("hash"),
                    actual: String::from_str(yaml.type_to_str()),
                }.into_error(),
            );
        },
    };
    let key_string = String::from_str(key);
    let mut req: Vec<String> = Vec::new();
    req.push(key_string.clone());
    let opt: Vec<String> = Vec::new();
    proof {
        assert(names_of(req@) =~= seq![key@]);
        assert(names_of(opt@) =~= Seq::<Seq<char>>::empty());
    }
    match yaml.strict_contents(&req, &opt) {
        Ok(_) => (),
        Err(g) => {
            let ghost gg = g;
            let e = g.into_schema_error();
            proof {
                if *yaml is Hash {
                    crate::utils::lemma_strict_adoption_schema(
                        gg,
                        e,
                        contract_issues(yaml->Hash_0@, names_of(req@), names_of(opt@)),
                    );
                }
            }
            return Err(e);

        },
    }
    let node_value = match yaml.lookup_opt(&key_string) {
        Some(v) => v,
        None => {
            return Err(
                SchemaErrorKind::FieldMissing { field: key_string }.into_error(),
            );
        },
    };
    let nodes = match node_value {
        Value::Array(nodes) => nodes,
        other => {
            return Err(
                SchemaErrorKind::WrongType {
                    expected: String::from_str("array"),
                    actual: String::from_str(other.type_to_str()),
                }.into_error(),
            );
        },
    };
    let ghost arrval = *node_value;
    proof {
        crate::value::lemma_map_get_first(entries@, key@);
        crate::value::lemma_field_value_smaller(entries@, key@, arrval);
    }
    let n = nodes.len();
    let mut children: Vec<PropertyType> = Vec::new();
    let mut errors: Vec<SchemaError> = Vec::new();
    let mut i: usize = 0;
    while i < n
        invariant
            0 <= i <= n,
            n == nodes@.len(),
            errors@.len() == 0 ==> children@.len() == i,
            errors@.len() == 0 ==> (forall|j: int|
                0 <= j < i ==> crate::prop_compiled_from(#[trigger] children@[j], nodes@[j])),
            errors@.len() == 0 <==> (forall|j: int|
                0 <= j < i ==> crate::prop_schema_wf(#[trigger] nodes@[j])),
            errors@.len() == count_bad_nodes(nodes@, i as int),
            forall|b: int|
                0 <= b < errors@.len() ==> ((#[trigger] errors@[b]).state.segments@.len() >= 1
                    && crate::breadcrumb::is_name(errors@[b].state.segments@.last(), "items"@)),
            yaml matches Value::Hash(es) && map_get(es@, key@) == Some(arrval),
            arrval matches Value::Array(nv) && nv@ == nodes@,
        decreases n - i,
    {
        proof {
            let es = yaml->Hash_0;
            assert(decreases_to!(*yaml => es));
            assert(decreases_to!(es => es@));
            crate::value::lemma_field_value_smaller(es@, key@, arrval);
            assert(decreases_to!(arrval => arrval->Array_0));
            assert(decreases_to!(arrval->Array_0 => arrval->Array_0@));
            assert(arrval->Array_0@ == nodes@);
            assert(decreases_to!(nodes@ => nodes@[i as int]));
        }
        match PropertyType::try_from(&nodes[i]) {
            Ok(p) => children.push(p),
            Err(e) => errors.push(e.add_path_name(String::from_str("items"))),
        }
        i = i + 1;
    }
    match crate::errors::condense_schema_errors(errors) {
        Ok(_) => (),
        Err(e) => {
            return Err(e);
        },
    }
    if children.len() == 0 {
        let msg = String::from_str(key).concat(
            " modifier requires an array of schemas to validate against",
        );
        return Err(
            SchemaErrorKind::MalformedField { error: msg }.with_path_name(String::from_str(key)),
        );
    }
    Ok(children)
}

} // verus!
