//! The hash schema node: an open-ended string-keyed map, optionally with
//! one uniform schema that every entry value must satisfy.
use vstd::prelude::*;

use vstd::string::StringExecFns;

use crate::errors::{
    condense_validation_errors, SchemaError, SchemaErrorKind, ValidationError, ValidationErrorKind,
};
use crate::utils::{contract_issues, names_of};
use crate::value::{map_get, Value};
use crate::{
    count_invalid_values, optional_child_compiled, optional_child_wf, prop_valid, Context,
    PropertyType, REF_FUEL,
};

verus! {

/// A compiled hash schema.
#[derive(Debug)]
pub struct SchemaHash {
    pub items: Option<Box<PropertyType>>,
}

impl SchemaHash {
    /// Whether a hash schema mapping is well-formed apart from its child:
    /// only the known keys, and an `items` value, when present, that is a
    /// mapping.
    pub open spec fn schema_wf(yaml: Value) -> bool
        decreases yaml, 0nat, 1nat,
    {
        match yaml {
            Value::Hash(entries) => {
                &&& contract_issues(entries@, Seq::empty(), seq!["items"@, "type"@]).len() == 0
                &&& (match yaml.field_of("items"@) {
                    Some(v) => v is Hash,
                    None => true,
                })
                &&& crate::optional_child_wf(entries@, "items"@)
            },
            _ => false,
        }
    }

    /// Whether this schema holds the child the mapping dictates.
    pub open spec fn compiled_from(self, yaml: Value) -> bool
        decreases yaml, 0nat, 1nat,
    {
        match yaml {
            Value::Hash(entries) => {
                &&& (yaml.field_of("items"@) is None ==> self.items is None)
                &&& optional_child_compiled(entries@, "items"@, self.items)
            },
            _ => false,
        }
    }

    /// Compiles a hash schema from its mapping.
    pub fn try_from(yaml: &Value) -> (r: Result<SchemaHash, SchemaError>)
        ensures
            r is Ok <==> Self::schema_wf(*yaml),
            r matches Ok(s) ==> s.compiled_from(*yaml),
            !(yaml is Hash) ==> (r matches Err(e) && e.kind
                matches SchemaErrorKind::WrongType { expected, actual } && expected@ == "hash"@
                && actual@ == yaml.kind_name() && e.state.segments@.len() == 0),
            (match *yaml {
                Value::Hash(entries) => ({
                    let issues = contract_issues(entries@, Seq::empty(), seq!["items"@, "type"@]);
                    issues.len() > 0 ==> (r matches Err(e)
                        && crate::utils::schema_strict_failure(e, issues))
                }),
                _ => true,
            }),
            (match *yaml {
                Value::Hash(entries) => ((contract_issues(
                    entries@,
                    Seq::empty(),
                    seq!["items"@, "type"@],
                ).len() == 0) ==> (match yaml.field_of("items"@) {
                    Some(v) => {
                        &&& (!(v is Hash) ==> (r matches Err(e) && e.kind
                            matches SchemaErrorKind::WrongType { expected, actual } && expected@
                            == "hash"@ && actual@ == v.kind_name() && e.state.segments@.len() == 1
                            && crate::breadcrumb::is_name(e.state.segments@[0], "items"@)))
                        &&& ((v is Hash && !crate::prop_schema_wf(v)) ==> (r matches Err(e)
                            && e.state.segments@.len() >= 1 && crate::breadcrumb::is_name(
                            e.state.segments@.last(),
                            "items"@,
                        )))
                    },
                    None => true,
                })),
                _ => true,
            }),
        decreases *yaml, 0nat, 1nat,
    {
        let entries = match yaml {
            Value::Hash(entries) => entries,
            _ => {
                return Err(
                    SchemaErrorKind::WrongType {
                        expected: String::from_str("hash"),
                        actual: String::from_str(yaml.type_to_str()),
                    }.into_error(),
                );
            },
        };
        let req: Vec<String> = Vec::new();
        let mut opt: Vec<String> = Vec::new();
        opt.push(String::from_str("items"));
        opt.push(String::from_str("type"));
        proof {
            assert(names_of(req@) =~= Seq::<Seq<char>>::empty());
            assert(names_of(opt@) =~= seq!["items"@, "type"@]);
        }
        match yaml.strict_contents(&req, &opt) {
            Ok(_) => (),
            Err(g) => {
                let ghost gg = g;
                let e = g.into_schema_error();
                proof {
                    if *yaml is Hash {
                        crate::utils::lemma_strict_adoption_schema(
                            gg,
                            e,
                            contract_issues(yaml->Hash_0@, names_of(req@), names_of(opt@)),
                        );
                    }
                }
                return Err(e);

            },
        }
        proof {
            crate::value::lemma_map_get_first(entries@, "items"@);
        }
        let inner = match yaml.lookup_opt(&String::from_str("items")) {
            Some(v) => v,
            None => {
                return Ok(SchemaHash { items: None });
            },
        };
        match inner {
            Value::Hash(_) => (),
            other => {
                return Err(
                    SchemaErrorKind::WrongType {
                        expected: String::from_str("hash"),
                        actual: String::from_str(other.type_to_str()),
                    }.into_error().add_path_name(String::from_str("items")),
                );
            },
        }
        proof {
            crate::value::lemma_map_get_first(entries@, "items"@);
            crate::value::lemma_field_value_smaller(entries@, "items"@, *inner);
            assert(decreases_to!(*yaml => *entries));
            assert(decreases_to!(*entries => entries@));
        }
        let item = match PropertyType::try_from(inner) {
            Ok(p) => p,
            Err(e) => {
                return Err(e.add_path_name(String::from_str("items")));
            },
        };
        Ok(SchemaHash { items: Some(Box::new(item)) })
    }

    /// Validates with a fresh reference budget.
    pub fn validate(&self, ctx: &Context, doc: &Value) -> (r: Result<(), ValidationError>)
        ensures
            (r is Ok) == prop_valid(*ctx, PropertyType::Hash(*self), *doc, REF_FUEL as nat),
            !(doc is Hash) ==> (r matches Err(e) && e.kind
                matches ValidationErrorKind::WrongType { expected, actual } && expected@ == "hash"@
                && actual@ == doc.kind_name() && e.state.segments@.len() == 0),
            match *doc {
                Value::Hash(entries) => (match self.items {
                    Some(p) => ({
                        let bad = count_invalid_values(*ctx, *p, entries@);
                        &&& (r is Err <==> bad >= 1)
                        &&& (bad == 1 ==> (r matches Err(e) && invalid_value_tail(
                            *ctx,
                            *p,
                            entries@,
                            e,
                            0,
                        )))
                        &&& (bad > 1 ==> (r matches Err(e) && e.kind
                            matches ValidationErrorKind::Multiple { errors: es } && es@.len()
                            == bad && e.state.segments@.len() == 0 && (forall|b: int|
                            0 <= b < es@.len() ==> invalid_value_tail(
                                *ctx,
                                *p,
                                entries@,
                                #[trigger] es@[b],
                                b,
                            ))))
                    }),
                    None => true,
                }),
                _ => true,
            },
    {
        self.validate_fuel(ctx, doc, REF_FUEL)
    }

    /// Validates a document node: it must be a mapping; when a uniform
    /// `items` schema is set, every entry value is validated against it
    /// and all failures are aggregated.
    pub fn validate_fuel(&self, ctx: &Context, doc: &Value, fuel: u64) -> (r: Result<
        (),
        ValidationError,
    >)
        ensures
            (r is Ok) == prop_valid(*ctx, PropertyType::Hash(*self), *doc, fuel as nat),
            !(doc is Hash) ==> (r matches Err(e) && e.kind
                matches ValidationErrorKind::WrongType { expected, actual } && expected@ == "hash"@
                && actual@ == doc.kind_name() && e.state.segments@.len() == 0),
            match *doc {
                Value::Hash(entries) => (match self.items {
                    Some(p) => ({
                        let bad = count_invalid_values(*ctx, *p, entries@);
                        &&& (r is Err <==> bad >= 1)
                        &&& (bad == 1 ==> (r matches Err(e) && invalid_value_tail(
                            *ctx,
                            *p,
                            entries@,
                            e,
                            0,
                        )))
                        &&& (bad > 1 ==> (r matches Err(e) && e.kind
                            matches ValidationErrorKind::Multiple { errors: es } && es@.len()
                            == bad && e.state.segments@.len() == 0 && (forall|b: int|
                            0 <= b < es@.len() ==> invalid_value_tail(
                                *ctx,
                                *p,
                                entries@,
                                #[trigger] es@[b],
                                b,
                            ))))
                    }),
                    None => true,
                }),
                _ => true,
            },
        decreases *doc, fuel, *self,
    {
        let _ = fuel;
        let entries = match doc {
            Value::Hash(entries) => entries,
            other => {
                return Err(
                    ValidationErrorKind::WrongType {
                        expected: String::from_str("hash"),
                        actual: String::from_str(other.type_to_str()),
                    }.into_error(),
                );
            },
        };
        let schema = match &self.items {
            Some(p) => p,
            None => {
                return Ok(());
            },
        };
        let n = entries.len();
        let mut errors: Vec<ValidationError> = Vec::new();
        let mut i: usize = 0;
        proof {
            assert(entries@.subrange(0, 0) =~= Seq::<(Value, Value)>::empty());
        }
        while i < n
            invariant
                0 <= i <= n,
                n == entries@.len(),
                doc matches Value::Hash(dv) && dv == entries,
                self.items matches Some(pp) && pp == *schema,
                errors@.len() == count_invalid_values(*ctx, **schema, entries@.subrange(0, i as int)),
                crate::values_valid_upto(*ctx, **schema, entries@, i as int) <==> errors@.len()
                    == 0,
                forall|b: int|
                    0 <= b < errors@.len() ==> invalid_value_tail(
                        *ctx,
                        **schema,
                        entries@,
                        #[trigger] errors@[b],
                        b,
                    ),
            decreases n - i,
        {
            let ghost prefix = entries@.subrange(0, i as int);
            let ghost next = entries@.subrange(0, i as int + 1);
            proof {
                assert(next.drop_last() =~= prefix);
                assert(next.last() == entries@[i as int]);
                assert(decreases_to!(*doc => *entries));
                assert(decreases_to!(*entries => entries@));
                assert(decreases_to!(entries@ => entries@[i as int]));
                assert(decreases_to!(entries@[i as int] => entries@[i as int].1));
            }
            match (**schema).validate(ctx, &entries[i].1) {
                Ok(_) => (),
                Err(e) => errors.push(e.add_path_index(i)),
            }
            i = i + 1;
        }
        proof {
            assert(entries@.subrange(0, n as int) =~= entries@);
        }
        let r = condense_validation_errors(errors);
        proof {
            let packaged = PropertyType::Hash(*self);
            assert(packaged->Hash_0 == *self);
            assert(doc->Hash_0 == *entries);
        }
        r
    }
}


/// Whether an error is the report for the `b`-th failing entry value of
/// a uniform `items` check: some child error, under the index of the
/// entry whose position among the failing entries is `b`.
pub open spec fn invalid_value_tail(
    ctx: Context,
    p: PropertyType,
    entries: Seq<(Value, Value)>,
    e: ValidationError,
    b: int,
) -> bool {
    &&& e.state.segments@.len() >= 1
    &&& exists|i: int|
        0 <= i < entries.len() && !prop_valid(
            ctx,
            p,
            (#[trigger] entries[i]).1,
            REF_FUEL as nat,
        ) && count_invalid_values(ctx, p, entries.subrange(0, i)) == b
            && crate::breadcrumb::is_index(e.state.segments@.last(), i)
}

} // verus!
