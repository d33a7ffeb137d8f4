//! The array schema node: cardinality bounds, an optional uniqueness
//! requirement, an optional `contains` schema with match counts, and an
//! optional uniform element schema.
use vstd::prelude::*;

use vstd::string::StringExecFns;

use crate::errors::{
    condense_validation_errors, SchemaError, SchemaErrorKind, ValidationError, ValidationErrorKind,
};
use crate::utils::{bad_count_field, contract_issues, count_field_error, names_of, try_into_usize};
use crate::value::{value_eq, veq, Value};
use crate::types::string::validation_msg;
use crate::{
    all_distinct, contains_count_ok, count_invalid_docs, count_valid_docs,
    optional_child_compiled, optional_child_wf, prop_valid, Context, PropertyType, REF_FUEL,
};

verus! {

/// A compiled array schema.
#[derive(Debug)]
pub struct SchemaArray {
    pub items: Option<Box<PropertyType>>,
    pub min_items: Option<usize>,
    pub max_items: Option<usize>,
    pub unique_items: bool,
    pub contains: Option<Box<PropertyType>>,
    pub min_contains: Option<usize>,
    pub max_contains: Option<usize>,
}

impl SchemaArray {
    /// Whether an array schema mapping is well-formed apart from its
    /// children.
    pub open spec fn schema_wf(yaml: Value) -> bool
        decreases yaml, 0nat, 1nat,
    {
        match yaml {
            Value::Hash(entries) => {
                &&& contract_issues(
                    entries@,
                    Seq::empty(),
                    seq![
                        "type"@,
                        "items"@,
                        "maxItems"@,
                        "minItems"@,
                        "uniqueItems"@,
                        "contains"@,
                        "minContains"@,
                        "maxContains"@,
                    ],
                ).len() == 0
                &&& (match yaml.field_of("minItems"@) {
                    Some(v) => v matches Value::Int(n) && 0 <= n <= usize::MAX,
                    None => true,
                })
                &&& (match yaml.field_of("maxItems"@) {
                    Some(v) => v matches Value::Int(n) && 0 <= n <= usize::MAX,
                    None => true,
                })
                &&& (match yaml.field_of("uniqueItems"@) {
                    Some(v) => v is Bool,
                    None => true,
                })
                &&& (match (yaml.field_of("minItems"@), yaml.field_of("maxItems"@)) {
                    (Some(Value::Int(a)), Some(Value::Int(b))) => a <= b,
                    _ => true,
                })
                &&& crate::optional_child_wf(entries@, "items"@)
                &&& crate::optional_child_wf(entries@, "contains"@)
                &&& (match yaml.field_of("minContains"@) {
                    Some(v) => v matches Value::Int(n) && 0 <= n <= usize::MAX,
                    None => true,
                })
                &&& (match yaml.field_of("maxContains"@) {
                    Some(v) => v matches Value::Int(n) && 0 <= n <= usize::MAX,
                    None => true,
                })
                &&& ((yaml.field_of("contains"@) is None && yaml.field_of("minContains"@)
                    is Some) ==> false)
                &&& ((yaml.field_of("contains"@) is None && yaml.field_of("maxContains"@)
                    is Some) ==> false)
                &&& (match (yaml.field_of("minContains"@), yaml.field_of("maxContains"@)) {
                    (Some(Value::Int(a)), Some(Value::Int(b))) => a <= b,
                    _ => true,
                })
            },
            _ => false,
        }
    }

    /// Whether this schema holds exactly the fields the mapping dictates.
    pub open spec fn compiled_from(self, yaml: Value) -> bool
        decreases yaml, 0nat, 1nat,
    {
        match yaml {
            Value::Hash(entries) => {
                &&& (match self.min_items {
                    Some(v) => yaml.field_of("minItems"@) matches Some(Value::Int(n)) && n == v,
                    None => yaml.field_of("minItems"@) is None,
                })
                &&& (match self.max_items {
                    Some(v) => yaml.field_of("maxItems"@) matches Some(Value::Int(n)) && n == v,
                    None => yaml.field_of("maxItems"@) is None,
                })
                &&& (match yaml.field_of("uniqueItems"@) {
                    Some(Value::Bool(b)) => self.unique_items == b,
                    _ => self.unique_items == false,
                })
                &&& (yaml.field_of("items"@) is None ==> self.items is None)
                &&& optional_child_compiled(entries@, "items"@, self.items)
                &&& (yaml.field_of("contains"@) is None ==> self.contains is None)
                &&& optional_child_compiled(entries@, "contains"@, self.contains)
                &&& (match self.min_contains {
                    Some(v) => yaml.field_of("minContains"@) matches Some(Value::Int(n)) && n
                        == v,
                    None => yaml.field_of("minContains"@) is None,
                })
                &&& (match self.max_contains {
                    Some(v) => yaml.field_of("maxContains"@) matches Some(Value::Int(n)) && n
                        == v,
                    None => yaml.field_of("maxContains"@) is None,
                })
            },
            _ => false,
        }
    }

    /// Compiles an array schema from its mapping.
    pub fn try_from(yaml: &Value) -> (r: Result<SchemaArray, SchemaError>)
        ensures
            r is Ok <==> Self::schema_wf(*yaml),
            r matches Ok(s) ==> s.compiled_from(*yaml),
            !(yaml is Hash) ==> (r matches Err(e) && e.kind
                matches SchemaErrorKind::WrongType { expected, actual } && expected@ == "hash"@
                && actual@ == yaml.kind_name() && e.state.segments@.len() == 0),
            (match *yaml {
                Value::Hash(entries) => ({
                    let issues = contract_issues(entries@, Seq::empty(), seq![
                        "type"@,
                        "items"@,
                        "maxItems"@,
                        "minItems"@,
                        "uniqueItems"@,
                        "contains"@,
                        "minContains"@,
                        "maxContains"@,
                    ]);
                    issues.len() > 0 ==> (r matches Err(e)
                        && crate::utils::schema_strict_failure(e, issues))
                }),
                _ => true,
            }),
            (match *yaml {
                Value::Hash(entries) => ((contract_issues(
                    entries@,
                    Seq::empty(),
                    seq![
                        "type"@,
                        "items"@,
                        "maxItems"@,
                        "minItems"@,
                        "uniqueItems"@,
                        "contains"@,
                        "minContains"@,
                        "maxContains"@,
                    ],
                ).len() == 0) ==> {
                    let minc_bad = bad_count_field(*yaml, "minItems"@);
                    let maxc_bad = bad_count_field(*yaml, "maxItems"@);
                    let uniq_bad = match yaml.field_of("uniqueItems"@) {
                        Some(v) => !(v is Bool),
                        None => false,
                    };
                    let order_bad = match (yaml.field_of("minItems"@), yaml.field_of(
                        "maxItems"@,
                    )) {
                        (Some(Value::Int(a)), Some(Value::Int(b))) => 0 <= a && 0 <= b && a > b,
                        _ => false,
                    };
                    &&& (minc_bad ==> (r matches Err(e) && count_field_error(
                        e,
                        *yaml,
                        "minItems"@,
                    )))
                    &&& ((!minc_bad && maxc_bad) ==> (r matches Err(e) && count_field_error(
                        e,
                        *yaml,
                        "maxItems"@,
                    )))
                    &&& ((!minc_bad && !maxc_bad && uniq_bad) ==> (r matches Err(e) && e.kind
                        matches SchemaErrorKind::WrongType { expected, actual } && expected@
                        == "bool"@ && e.state.segments@.len() == 1 && crate::breadcrumb::is_name(
                        e.state.segments@[0],
                        "uniqueItems"@,
                    )))
                    &&& ((!minc_bad && !maxc_bad && !uniq_bad && order_bad) ==> (r matches Err(e)
                        && e.kind matches SchemaErrorKind::MalformedField { error } && error@
                        == "minItems cannot be greater than maxItems"@ && e.state.segments@.len()
                        == 0))
                    &&& ((!minc_bad && !maxc_bad && !uniq_bad && !order_bad) ==> {
                        let items_bad = match yaml.field_of("items"@) {
                            Some(v) => !crate::prop_schema_wf(v),
                            None => false,
                        };
                        let contains_bad = match yaml.field_of("contains"@) {
                            Some(v) => !crate::prop_schema_wf(v),
                            None => false,
                        };
                        &&& (items_bad ==> (r matches Err(e) && e.state.segments@.len() >= 1
                            && crate::breadcrumb::is_name(e.state.segments@.last(), "items"@)))
                        &&& ((!items_bad && contains_bad) ==> (r matches Err(e)
                            && e.state.segments@.len() >= 1 && crate::breadcrumb::is_name(
                            e.state.segments@.last(),
                            "contains"@,
                        )))
                        &&& ((!items_bad && !contains_bad) ==> {
                            let cmin_bad = bad_count_field(*yaml, "minContains"@);
                            let cmax_bad = bad_count_field(*yaml, "maxContains"@);
                            &&& (cmin_bad ==> (r matches Err(e) && count_field_error(
                                e,
                                *yaml,
                                "minContains"@,
                            )))
                            &&& ((!cmin_bad && cmax_bad) ==> (r matches Err(e)
                                && count_field_error(e, *yaml, "maxContains"@)))
                            &&& ((!cmin_bad && !cmax_bad) ==> {
                                let has_contains = yaml.field_of("contains"@) is Some;
                                let has_cmin = yaml.field_of("minContains"@) is Some;
                                let has_cmax = yaml.field_of("maxContains"@) is Some;
                                &&& ((!has_contains && has_cmin && !has_cmax) ==> (r matches Err(
                                    e,
                                ) && e.kind matches SchemaErrorKind::MalformedField { error }
                                    && error@
                                    == "minContains requires 'contains' to specify a schema to validate against"@
                                    && e.state.segments@.len() == 0))
                                &&& ((!has_contains && !has_cmin && has_cmax) ==> (r matches Err(
                                    e,
                                ) && e.kind matches SchemaErrorKind::MalformedField { error }
                                    && error@
                                    == "maxContains requires 'contains' to specify a schema to validate against"@
                                    && e.state.segments@.len() == 0))
                                &&& ((!has_contains && has_cmin && has_cmax) ==> (r matches Err(
                                    e,
                                ) && e.kind matches SchemaErrorKind::MalformedField { error }
                                    && error@
                                    == "minContains and maxContains requires 'contains' to specify a schema to validate against"@
                                    && e.state.segments@.len() == 0))
                                &&& ((has_contains && (match (yaml.field_of("minContains"@),
                                yaml.field_of("maxContains"@)) {
                                    (Some(Value::Int(a)), Some(Value::Int(b))) => 0 <= a && 0 <= b
                                        && a > b,
                                    _ => false,
                                })) ==> (r matches Err(e) && e.kind
                                    matches SchemaErrorKind::MalformedField { error } && error@
                                    == "minContains cannot be greater than maxContains"@
                                    && e.state.segments@.len() == 0))
                            })
                        })
                    })
                }),
                _ => true,
            }),
        decreases *yaml, 0nat, 1nat,
    {
        let entries = match yaml {
            Value::Hash(entries) => entries,
            _ => {
                return Err(
                    SchemaErrorKind::WrongType {
                        expected: String::from_str("hash"),
                        actual: String::from_str(yaml.type_to_str()),
                    }.into_error(),
                );
            },
        };
        let req: Vec<String> = Vec::new();
        let mut opt: Vec<String> = Vec::new();
        opt.push(String::from_str("type"));
        opt.push(String::from_str("items"));
        opt.push(String::from_str("maxItems"));
        opt.push(String::from_str("minItems"));
        opt.push(String::from_str("uniqueItems"));
        opt.push(String::from_str("contains"));
        opt.push(String::from_str("minContains"));
        opt.push(String::from_str("maxContains"));
        proof {
            assert(names_of(req@) =~= Seq::<Seq<char>>::empty());
            assert(names_of(opt@) =~= seq![
                "type"@,
                "items"@,
                "maxItems"@,
                "minItems"@,
                "uniqueItems"@,
                "contains"@,
                "minContains"@,
                "maxContains"@,
            ]);
        }
        match yaml.strict_contents(&req, &opt) {
            Ok(_) => (),
            Err(g) => {
                let ghost gg = g;
                let e = g.into_schema_error();
                proof {
                    if *yaml is Hash {
                        crate::utils::lemma_strict_adoption_schema(
                            gg,
                            e,
                            contract_issues(yaml->Hash_0@, names_of(req@), names_of(opt@)),
                        );
                    }
                }
                return Err(e);
            },
        }
        proof {
            crate::value::lemma_map_get_first(entries@, "items"@);
            crate::value::lemma_map_get_first(entries@, "contains"@);
        }
        let min_items = lookup_count(yaml, "minItems")?;
        let max_items = lookup_count(yaml, "maxItems")?;
        let unique_items = match yaml.lookup_opt(&String::from_str("uniqueItems")) {
            None => false,
            Some(v) => match v {
                Value::Bool(b) => *b,
                other => {
                    return Err(
                        SchemaErrorKind::WrongType {
                            expected: String::from_str("bool"),
                            actual: String::from_str(other.type_to_str()),
                        }.into_error().add_path_name(String::from_str("uniqueItems")),
                    );
                },
            },
        };
        if let (Some(a), Some(b)) = (&min_items, &max_items) {
            if *a > *b {
                return Err(
                    SchemaErrorKind::MalformedField {
                        error: String::from_str("minItems cannot be greater than maxItems"),
                    }.into_error(),
                );
            }
        }
        let items = match yaml.lookup_opt(&String::from_str("items")) {
            None => None,
            Some(inner) => {
                proof {
                    crate::value::lemma_map_get_first(entries@, "items"@);
                    crate::value::lemma_field_value_smaller(entries@, "items"@, *inner);
                    assert(decreases_to!(*yaml => *entries));
                    assert(decreases_to!(*entries => entries@));
                }
                match PropertyType::try_from(inner) {
                    Ok(p) => Some(Box::new(p)),
                    Err(e) => {
                        return Err(e.add_path_name(String::from_str("items")));
                    },
                }
            },
        };
        let contains = match yaml.lookup_opt(&String::from_str("contains")) {
            None => None,
            Some(inner) => {
                proof {
                    crate::value::lemma_map_get_first(entries@, "contains"@);
                    crate::value::lemma_field_value_smaller(entries@, "contains"@, *inner);
                    assert(decreases_to!(*yaml => *entries));
                    assert(decreases_to!(*entries => entries@));
                }
                match PropertyType::try_from(inner) {
                    Ok(p) => Some(Box::new(p)),
                    Err(e) => {
                        return Err(e.add_path_name(String::from_str("contains")));
                    },
                }
            },
        };
        let min_contains = lookup_count(yaml, "minContains")?;
        let max_contains = lookup_count(yaml, "maxContains")?;
        match (&contains, &min_contains, &max_contains) {
            (None, Some(_), None) => {
                return Err(
                    SchemaErrorKind::MalformedField {
                        error: String::from_str(
                            "minContains requires 'contains' to specify a schema to validate against",
                        ),
                    }.into_error(),
                );
            },
            (None, None, Some(_)) => {
                return Err(
                    SchemaErrorKind::MalformedField {
                        error: String::from_str(
                            "maxContains requires 'contains' to specify a schema to validate against",
                        ),
                    }.into_error(),
                );
            },
            (None, Some(_), Some(_)) => {
                return Err(
                    SchemaErrorKind::MalformedField {
                        error: String::from_str(
                            "minContains and maxContains requires 'contains' to specify a schema to validate against",
                        ),
                    }.into_error(),
                );
            },
            (Some(_), Some(mn), Some(mx)) => {
                if *mn > *mx {
                    return Err(
                        SchemaErrorKind::MalformedField {
                            error: String::from_str(
                                "minContains cannot be greater than maxContains",
                            ),
                        }.into_error(),
                    );
                }
            },
            _ => (),
        }
        Ok(
            SchemaArray {
                items,
                min_items,
                max_items,
                unique_items,
                contains,
                min_contains,
                max_contains,
            },
        )
    }

    /// Validates with a fresh reference budget.
    pub fn validate(&self, ctx: &Context, doc: &Value) -> (r: Result<(), ValidationError>)
        ensures
            (r is Ok) == prop_valid(*ctx, PropertyType::Array(*self), *doc, REF_FUEL as nat),
            !(doc is Array) ==> (r matches Err(e) && e.kind
                matches ValidationErrorKind::WrongType { expected, actual } && expected@
                == "array"@ && actual@ == doc.kind_name() && e.state.segments@.len() == 0),
            match *doc {
                Value::Array(items) => ({
                    let minfail = self.min_items matches Some(m) && items@.len() < m;
                    let maxfail = self.max_items matches Some(m) && items@.len() > m;
                    let dupfail = self.unique_items && !all_distinct(items@);
                    &&& (minfail ==> (r matches Err(e) && validation_msg(
                        e,
                        "array contains fewer than minItems items"@,
                    )))
                    &&& ((!minfail && maxfail) ==> (r matches Err(e) && validation_msg(
                        e,
                        "array contains more than maxItems items"@,
                    )))
                    &&& ((!minfail && !maxfail && dupfail) ==> (r matches Err(e) && e.kind
                        matches ValidationErrorKind::ValidationError { error } && error@
                        == "array contains duplicate key"@ && e.state.segments@.len() == 1 && (
                    exists|i: int|
                        0 <= i < items@.len() && all_distinct(items@.subrange(0, i)) && (exists|
                            j: int,
                        |
                            0 <= j < i && crate::value::veq(items@[j], items@[i]))
                            && crate::breadcrumb::is_index(e.state.segments@[0], i))))
                }),
                _ => true,
            },
            match *doc {
                Value::Array(items) => ((!(self.min_items matches Some(m) && items@.len() < m)
                    && !(self.max_items matches Some(m) && items@.len() > m) && (self.unique_items
                    ==> all_distinct(items@))) ==> (match self.contains {
                    Some(c) => ({
                        let cnt = count_valid_docs(*ctx, *c, items@);
                        let minok = (match self.min_contains {
                            Some(mn) => cnt >= mn,
                            None => cnt >= 1,
                        });
                        &&& ((self.min_contains matches Some(mn) && cnt < mn) ==> (r matches Err(
                            e,
                        ) && validation_msg(
                            e,
                            "fewer than minContains items validated against schema in 'contains'"@,
                        )))
                        &&& ((self.min_contains is None && cnt < 1) ==> (r matches Err(e)
                            && validation_msg(
                            e,
                            "at least one item in the array must match the 'contains' schema"@,
                        )))
                        &&& (minok ==> (match self.max_contains {
                            Some(mx) => cnt > mx ==> (r matches Err(e) && validation_msg(
                                e,
                                "more than minContains items validated against schema in 'contains'"@,
                            )),
                            None => true,
                        }))
                    }),
                    None => true,
                })),
                _ => true,
            },
            match *doc {
                Value::Array(items) => ((!(self.min_items matches Some(m) && items@.len() < m)
                    && !(self.max_items matches Some(m) && items@.len() > m) && (self.unique_items
                    ==> all_distinct(items@)) && (self.contains matches Some(c)
                    ==> contains_count_ok(
                    self.min_contains,
                    self.max_contains,
                    count_valid_docs(*ctx, *c, items@),
                ))) ==> (match self.items {
                    Some(p) => ({
                        let bad = count_invalid_docs(*ctx, *p, items@);
                        &&& (r is Err <==> bad >= 1)
                        &&& (bad == 1 ==> (r matches Err(e) && invalid_item_tail(
                            *ctx,
                            *p,
                            items@,
                            e,
                            0,
                        )))
                        &&& (bad > 1 ==> (r matches Err(e) && e.kind
                            matches ValidationErrorKind::Multiple { errors: es } && es@.len()
                            == bad && e.state.segments@.len() == 0 && (forall|b: int|
                            0 <= b < es@.len() ==> invalid_item_tail(
                                *ctx,
                                *p,
                                items@,
                                #[trigger] es@[b],
                                b,
                            ))))
                    }),
                    None => true,
                })),
                _ => true,
            },
    {
        self.validate_fuel(ctx, doc, REF_FUEL)
    }

    /// Validates a document node: the type check, the cardinality bounds,
    /// the uniqueness scan, the `contains` count, and finally the uniform
    /// element schema, which aggregates every per-index failure.
    pub fn validate_fuel(&self, ctx: &Context, doc: &Value, fuel: u64) -> (r: Result<
        (),
        ValidationError,
    >)
        ensures
            (r is Ok) == prop_valid(*ctx, PropertyType::Array(*self), *doc, fuel as nat),
            !(doc is Array) ==> (r matches Err(e) && e.kind
                matches ValidationErrorKind::WrongType { expected, actual } && expected@
                == "array"@ && actual@ == doc.kind_name() && e.state.segments@.len() == 0),
            match *doc {
                Value::Array(items) => ({
                    let minfail = self.min_items matches Some(m) && items@.len() < m;
                    let maxfail = self.max_items matches Some(m) && items@.len() > m;
                    let dupfail = self.unique_items && !all_distinct(items@);
                    &&& (minfail ==> (r matches Err(e) && validation_msg(
                        e,
                        "array contains fewer than minItems items"@,
                    )))
                    &&& ((!minfail && maxfail) ==> (r matches Err(e) && validation_msg(
                        e,
                        "array contains more than maxItems items"@,
                    )))
                    &&& ((!minfail && !maxfail && dupfail) ==> (r matches Err(e) && e.kind
                        matches ValidationErrorKind::ValidationError { error } && error@
                        == "array contains duplicate key"@ && e.state.segments@.len() == 1 && (
                    exists|i: int|
                        0 <= i < items@.len() && all_distinct(items@.subrange(0, i)) && (exists|
                            j: int,
                        |
                            0 <= j < i && crate::value::veq(items@[j], items@[i]))
                            && crate::breadcrumb::is_index(e.state.segments@[0], i))))
                }),
                _ => true,
            },
            match *doc {
                Value::Array(items) => ((!(self.min_items matches Some(m) && items@.len() < m)
                    && !(self.max_items matches Some(m) && items@.len() > m) && (self.unique_items
                    ==> all_distinct(items@))) ==> (match self.contains {
                    Some(c) => ({
                        let cnt = count_valid_docs(*ctx, *c, items@);
                        let minok = (match self.min_contains {
                            Some(mn) => cnt >= mn,
                            None => cnt >= 1,
                        });
                        &&& ((self.min_contains matches Some(mn) && cnt < mn) ==> (r matches Err(
                            e,
                        ) && validation_msg(
                            e,
                            "fewer than minContains items validated against schema in 'contains'"@,
                        )))
                        &&& ((self.min_contains is None && cnt < 1) ==> (r matches Err(e)
                            && validation_msg(
                            e,
                            "at least one item in the array must match the 'contains' schema"@,
                        )))
                        &&& (minok ==> (match self.max_contains {
                            Some(mx) => cnt > mx ==> (r matches Err(e) && validation_msg(
                                e,
                                "more than minContains items validated against schema in 'contains'"@,
                            )),
                            None => true,
                        }))
                    }),
                    None => true,
                })),
                _ => true,
            },
            match *doc {
                Value::Array(items) => ((!(self.min_items matches Some(m) && items@.len() < m)
                    && !(self.max_items matches Some(m) && items@.len() > m) && (self.unique_items
                    ==> all_distinct(items@)) && (self.contains matches Some(c)
                    ==> contains_count_ok(
                    self.min_contains,
                    self.max_contains,
                    count_valid_docs(*ctx, *c, items@),
                ))) ==> (match self.items {
                    Some(p) => ({
                        let bad = count_invalid_docs(*ctx, *p, items@);
                        &&& (r is Err <==> bad >= 1)
                        &&& (bad == 1 ==> (r matches Err(e) && invalid_item_tail(
                            *ctx,
                            *p,
                            items@,
                            e,
                            0,
                        )))
                        &&& (bad > 1 ==> (r matches Err(e) && e.kind
                            matches ValidationErrorKind::Multiple { errors: es } && es@.len()
                            == bad && e.state.segments@.len() == 0 && (forall|b: int|
                            0 <= b < es@.len() ==> invalid_item_tail(
                                *ctx,
                                *p,
                                items@,
                                #[trigger] es@[b],
                                b,
                            ))))
                    }),
                    None => true,
                })),
                _ => true,
            },
        decreases *doc, fuel, *self,
    {
        let _ = fuel;
        let items = match doc {
            Value::Array(items) => items,
            other => {
                return Err(
                    ValidationErrorKind::WrongType {
                        expected: String::from_str("array"),
                        actual: String::from_str(other.type_to_str()),
                    }.into_error(),
                );
            },
        };
        let n = items.len();
        if let Some(m) = &self.min_items {
            if n < *m {
                return Err(
                    ValidationErrorKind::ValidationError {
                        error: String::from_str("array contains fewer than minItems items"),
                    }.into_error(),
                );
            }
        }
        if let Some(m) = &self.max_items {
            if n > *m {
                return Err(
                    ValidationErrorKind::ValidationError {
                        error: String::from_str("array contains more than maxItems items"),
                    }.into_error(),
                );
            }
        }
        if self.unique_items {
            let mut i: usize = 0;
            while i < n
                invariant
                    0 <= i <= n,
                    n == items@.len(),
                    doc matches Value::Array(dv) && dv == items,
                    self.unique_items,
                    (match self.min_items {
                        Some(m) => items@.len() >= m,
                        None => true,
                    }),
                    (match self.max_items {
                        Some(m) => items@.len() <= m,
                        None => true,
                    }),
                    forall|a: int, b: int|
                        0 <= a < b < i ==> !veq(#[trigger] items@[a], #[trigger] items@[b]),
                decreases n - i,
            {
                let mut j: usize = 0;
                while j < i
                    invariant
                        0 <= j <= i < n,
                        n == items@.len(),
                        doc matches Value::Array(dv) && dv == items,
                        self.unique_items,
                        (match self.min_items {
                            Some(m) => items@.len() >= m,
                            None => true,
                        }),
                        (match self.max_items {
                            Some(m) => items@.len() <= m,
                            None => true,
                        }),
                        forall|a: int, b: int|
                            0 <= a < b < i ==> !veq(#[trigger] items@[a], #[trigger] items@[b]),
                        forall|b: int| 0 <= b < j ==> !veq(#[trigger] items@[b], items@[i as int]),
                    decreases i - j,
                {
                    if value_eq(&items[j], &items[i]) {
                        proof {
                            assert(0 <= j < i < items@.len() && veq(
                                items@[j as int],
                                items@[i as int],
                            ));
                            assert(!all_distinct(items@));
                            let pre = items@.subrange(0, i as int);
                            assert forall|a: int, b: int|
                                0 <= a < b < pre.len() implies !veq(
                                #[trigger] pre[a],
                                #[trigger] pre[b],
                            ) by {
                                assert(pre[a] == items@[a]);
                                assert(pre[b] == items@[b]);
                            }
                            assert(all_distinct(items@.subrange(0, i as int)));
                        }
                        let err = ValidationErrorKind::ValidationError {
                            error: String::from_str("array contains duplicate key"),
                        }.with_path_index(i);
                        proof {
                            assert(crate::breadcrumb::is_index(err.state.segments@[0], i as int));
                            assert(0 <= (j as int) < (i as int) && veq(
                                items@[j as int],
                                items@[i as int],
                            ));
                        }
                        return Err(err);
                    }
                    j = j + 1;
                }
                i = i + 1;
            }
    }
    if let Some(contains) = &self.contains {
        let mut contained: usize = 0;
        let mut i: usize = 0;
        proof {
            assert(items@.subrange(0, 0) =~= Seq::<Value>::empty());
        }
        while i < n
            invariant
                0 <= i <= n,
                n == items@.len(),
                doc matches Value::Array(dv) && dv == items,
                self.contains matches Some(cc) && cc == *contains,
                contained == count_valid_docs(*ctx, **contains, items@.subrange(0, i as int)),
                contained <= i,
            decreases n - i,
        {
            let ghost prefix = items@.subrange(0, i as int);
            let ghost next = items@.subrange(0, i as int + 1);
            proof {
                assert(next.drop_last() =~= prefix);
                assert(next.last() == items@[i as int]);
                assert(decreases_to!(*doc => *items));
                assert(decreases_to!(*items => items@));
                assert(decreases_to!(items@ => items@[i as int]));
            }
            match (**contains).validate(ctx, &items[i]) {
                Ok(_) => {
                    contained = contained + 1;
                },
                Err(_) => (),
            }
            i = i + 1;
        }
        proof {
            assert(items@.subrange(0, n as int) =~= items@);
        }
        if let Some(mn) = &self.min_contains {
            if contained < *mn {
                return Err(
                    ValidationErrorKind::ValidationError {
                        error: String::from_str(
                            "fewer than minContains items validated against schema in 'contains'",
                        ),
                    }.into_error(),
                );
            }
        } else {
            if contained < 1 {
                return Err(
                    ValidationErrorKind::ValidationError {
                        error: String::from_str(
                            "at least one item in the array must match the 'contains' schema",
                        ),
                    }.into_error(),
                );
            }
        }
        if let Some(mx) = &self.max_contains {
            if contained > *mx {
                return Err(
                    ValidationErrorKind::ValidationError {
                        error: String::from_str(
                            "more than minContains items validated against schema in 'contains'",
                        ),
                    }.into_error(),
                );
            }
        }
    }
    if let Some(schema) = &self.items {
        let mut errors: Vec<ValidationError> = Vec::new();
        let mut i: usize = 0;
        while i < n
            invariant
                0 <= i <= n,
                n == items@.len(),
                doc matches Value::Array(dv) && dv == items,
                self.items matches Some(pp) && pp == *schema,
                errors@.len() == count_invalid_docs(*ctx, **schema, items@.subrange(0, i as int)),
                crate::docs_valid_upto(*ctx, **schema, items@, i as int) <==> errors@.len()
                    == 0,
                forall|b: int|
                    0 <= b < errors@.len() ==> invalid_item_tail(
                        *ctx,
                        **schema,
                        items@,
                        #[trigger] errors@[b],
                        b,
                    ),
            decreases n - i,
        {
            let ghost prefix = items@.subrange(0, i as int);
            let ghost next = items@.subrange(0, i as int + 1);
            proof {
                assert(next.drop_last() =~= prefix);
                assert(next.last() == items@[i as int]);
                assert(decreases_to!(*doc => *items));
                assert(decreases_to!(*items => items@));
                assert(decreases_to!(items@ => items@[i as int]));
            }
            match (**schema).validate(ctx, &items[i]) {
                Ok(_) => (),
                Err(e) => errors.push(e.add_path_index(i)),
            }
            i = i + 1;
        }
        proof {
            assert(items@.subrange(0, n as int) =~= items@);
        }
        match condense_validation_errors(errors) {
            Ok(_) => (),
            Err(e) => {
                return Err(e);
            },
        }
    }
    Ok(())
}
}

/// Whether an error is the report for the `b`-th failing element of a
/// uniform-items check: some child error, under the index of the element
/// whose position among the failing elements is `b`.
pub open spec fn invalid_item_tail(
    ctx: Context,
    p: PropertyType,
    items: Seq<Value>,
    e: ValidationError,
    b: int,
) -> bool {
    &&& e.state.segments@.len() >= 1
    &&& exists|i: int|
        0 <= i < items.len() && !prop_valid(ctx, p, #[trigger] items[i], REF_FUEL as nat)
            && count_invalid_docs(ctx, p, items.subrange(0, i)) == b
            && crate::breadcrumb::is_index(e.state.segments@.last(), i)
}

/// Looks up an optional non-negative count field.
fn lookup_count(yaml: &Value, field: &'static str) -> (r: Result<Option<usize>, SchemaError>)
    ensures
        match r {
            Ok(Some(v)) => yaml.field_of(field@) matches Some(Value::Int(n)) && n == v,
            Ok(None) => yaml.field_of(field@) is None,
            Err(e) => (match yaml.field_of(field@) {
                Some(v) => !(v matches Value::Int(n) && 0 <= n <= usize::MAX),
                None => false,
            }) && count_field_error(e, *yaml, field@),
        },
        r is Err <==> (match yaml.field_of(field@) {
            Some(v) => !(v matches Value::Int(n) && 0 <= n <= usize::MAX),
            None => false,
        }),
{
    match yaml.lookup_opt(&String::from_str(field)) {
        None => Ok(None),
        Some(v) => match v {
            Value::Int(n) => match try_into_usize(*n) {
                Ok(u) => Ok(Some(u)),
                Err(e) => Err(e.add_path_name(String::from_str(field))),
            },
            other => Err(
                SchemaErrorKind::WrongType {
                    expected: String::from_str("integer"),
                    actual: String::from_str(other.type_to_str()),
                }.into_error().add_path_name(String::from_str(field)),
            ),
        },
    }
}

} // verus!
