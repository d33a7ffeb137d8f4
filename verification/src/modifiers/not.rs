//! The `not` combinator: inverts the child's result, discarding the
//! child's own error.
use vstd::prelude::*;

use vstd::string::StringExecFns;

use crate::errors::{SchemaError, SchemaErrorKind, ValidationError, ValidationErrorKind};
use crate::utils::{contract_issues, names_of};
use crate::value::Value;
use crate::{prop_valid, Context, PropertyType};

verus! {

/// A compiled `not` node.
#[derive(Debug)]
pub struct SchemaNot {
    pub item: Box<PropertyType>,
}

impl SchemaNot {
    /// Whether a `not` mapping is well-formed apart from its child: it
    /// holds exactly the key `not`, whose value is a mapping.
    pub open spec fn schema_wf(yaml: Value) -> bool {
        match yaml {
            Value::Hash(entries) => {
                &&& contract_issues(entries@, seq!["not"@], Seq::empty()).len() == 0
                &&& (match yaml.field_of("not"@) {
                    Some(v) => v is Hash,
                    None => false,
                })
            },
            _ => false,
        }
    }

    /// Compiles a `not` node from its mapping.
    pub fn try_from(yaml: &Value) -> (r: Result<SchemaNot, SchemaError>)
        ensures
            r is Ok <==> (Self::schema_wf(*yaml) && crate::children_of_field_wf(
                yaml->Hash_0@,
                "not"@,
            )),
            r matches Ok(s) ==> crate::child_of_field_compiled(yaml->Hash_0@, "not"@, *s.item),
            !(yaml is Hash) ==> (r matches Err(e) && e.kind
                matches SchemaErrorKind::WrongType { expected, actual } && expected@ == "hash"@
                && actual@ == yaml.kind_name() && e.state.segments@.len() == 0),
            (match *yaml {
                Value::Hash(entries) => ({
                    let issues = contract_issues(entries@, seq!["not"@], Seq::empty());
                    issues.len() > 0 ==> (r matches Err(e)
                        && crate::utils::schema_strict_failure(e, issues))
                }),
                _ => true,
            }),
            (match *yaml {
                Value::Hash(entries) => ((contract_issues(
                    entries@,
                    seq!["not"@],
                    Seq::empty(),
                ).len() == 0) ==> {
                    &&& (yaml.field_of("not"@) is None ==> (r matches Err(e) && e.kind
                        matches SchemaErrorKind::FieldMissing { field } && field@ == "not"@
                        && e.state.segments@.len() == 0))
                    &&& (match yaml.field_of("not"@) {
                        Some(v) => {
                            &&& (!(v is Hash) ==> (r matches Err(e) && e.kind
                                matches SchemaErrorKind::WrongType { expected, actual }
                                && expected@ == "hash"@ && actual@ == v.kind_name()
                                && e.state.segments@.len() == 1 && crate::breadcrumb::is_name(
                                e.state.segments@[0],
                                "not"@,
                            )))
                            &&& ((v is Hash && !crate::prop_schema_wf(v)) ==> (r matches Err(e)
                                && e.state.segments@.len() >= 1 && crate::breadcrumb::is_name(
                                e.state.segments@.last(),
                                "not"@,
                            )))
                        },
                        None => true,
                    })
                }),
                _ => true,
            }),
        decreases *yaml, 0nat, 1nat,
    {
        let entries = match yaml {
            Value::Hash(entries) => entries,
            _ => {
                return Err(
                    SchemaErrorKind::WrongType {
                        expected: String::from_str("hash"),
                        actual: String::from_str(yaml.type_to_str()),
                    }.into_error(),
                );
            },
        };
        let mut req: Vec<String> = Vec::new();
        req.push(String::from_str("not"));
        let opt: Vec<String> = Vec::new();
        proof {
            assert(names_of(req@) =~= seq!["not"@]);
            assert(names_of(opt@) =~= Seq::<Seq<char>>::empty());
        }
        match yaml.strict_contents(&req, &opt) {
            Ok(_) => (),
            Err(g) => {
                let ghost gg = g;
                let e = g.into_schema_error();
                proof {
                    if *yaml is Hash {
                        crate::utils::lemma_strict_adoption_schema(
                            gg,
                            e,
                            contract_issues(yaml->Hash_0@, names_of(req@), names_of(opt@)),
                        );
                    }
                }
                return Err(e);

            },
        }
        let inner = match yaml.lookup_opt(&String::from_str("not")) {
            Some(v) => v,
            None => {
                return Err(
                    SchemaErrorKind::FieldMissing { field: String::from_str("not") }.into_error(),
                );
            },
        };
        match inner {
            Value::Hash(_) => (),
            other => {
                return Err(
                    SchemaErrorKind::WrongType {
                        expected: String::from_str("hash"),
                        actual: String::from_str(other.type_to_str()),
                    }.into_error().add_path_name(String::from_str("not")),
                );
            },
        }
        proof {
            crate::value::lemma_map_get_first(entries@, "not"@);
            crate::value::lemma_field_value_smaller(entries@, "not"@, *inner);
            assert(decreases_to!(*yaml => *entries));
            assert(decreases_to!(*entries => entries@));
        }
        let item = match PropertyType::try_from(inner) {
            Ok(p) => p,
            Err(e) => {
                return Err(e.add_path_name(String::from_str("not")));
            },
        };
        Ok(SchemaNot { item: Box::new(item) })
    }

    /// Validates with a fresh reference budget.
    pub fn validate(&self, ctx: &Context, doc: &Value) -> (r: Result<(), ValidationError>)
        ensures
            (r is Ok) == !prop_valid(*ctx, *self.item, *doc, crate::REF_FUEL as nat),
            r matches Err(e) ==> (e.kind matches ValidationErrorKind::ValidationError { error }
                && error@ == "validation inversion failed because inner result matched"@
                && e.state.segments@.len() == 1 && crate::breadcrumb::is_name(
                e.state.segments@[0],
                "not"@,
            )),
    {
        self.validate_fuel(ctx, doc, crate::REF_FUEL)
    }

    /// Validates by inverting the child's result: the child's success is
    /// this node's failure, and the child's error is discarded.
    pub fn validate_fuel(&self, ctx: &Context, doc: &Value, fuel: u64) -> (r: Result<
        (),
        ValidationError,
    >)
        ensures
            (r is Ok) == !prop_valid(*ctx, *self.item, *doc, fuel as nat),
            r matches Err(e) ==> (e.kind matches ValidationErrorKind::ValidationError { error }
                && error@ == "validation inversion failed because inner result matched"@
                && e.state.segments@.len() == 1 && crate::breadcrumb::is_name(
                e.state.segments@[0],
                "not"@,
            )),
        decreases *doc, fuel, *self,
    {
        match (*self.item).validate_fuel(ctx, doc, fuel) {
            Err(_) => Ok(()),
            Ok(_) => Err(
                ValidationErrorKind::ValidationError {
                    error: String::from_str(
                        "validation inversion failed because inner result matched",
                    ),
                }.with_path_name(String::from_str("not")),
            ),
        }
    }
}

} // verus!
