//! The real schema node: optional inclusive or exclusive bounds and an
//! optional divisor constraint, all exact over the values the loader
//! produced.
use vstd::prelude::*;

use vstd::string::StringExecFns;

use crate::errors::{SchemaError, SchemaErrorKind, ValidationError, ValidationErrorKind};
use crate::realnum::{divides, Real};
use crate::types::string::validation_msg;
use crate::utils::{contract_issues, names_of, Limit, UnitValue};
use crate::value::Value;
use crate::Context;

verus! {

/// A compiled real schema.
#[derive(Debug)]
pub struct SchemaReal {
    pub minimum: Option<Limit<Real>>,
    pub maximum: Option<Limit<Real>>,
    pub multiple_of: Option<Real>,
}

impl SchemaReal {
    /// Whether a document node is a real meeting the bounds and the
    /// divisor constraint.
    pub open spec fn accepts(self, doc: Value) -> bool {
        match doc {
            Value::Real(v) => {
                &&& (self.minimum matches Some(l) ==> l.admits_above(v.scaled()))
                &&& (self.maximum matches Some(l) ==> l.admits_below(v.scaled()))
                &&& (self.multiple_of matches Some(m) ==> m.scaled() != 0 && divides(
                    m.scaled(),
                    v.scaled(),
                ))
            },
            _ => false,
        }
    }

    /// What the `minimum`/`exclusiveMinimum` pair of a well-formed mapping
    /// dictates, read as an optional lower bound.
    pub open spec fn lower_of(yaml: Value) -> Option<Limit<Real>> {
        match yaml.field_of("minimum"@) {
            Some(Value::Real(n)) => Some(Limit::Inclusive(n)),
            _ => match yaml.field_of("exclusiveMinimum"@) {
                Some(Value::Real(n)) => Some(Limit::Exclusive(n)),
                _ => None,
            },
        }
    }

    /// What the `maximum`/`exclusiveMaximum` pair dictates.
    pub open spec fn upper_of(yaml: Value) -> Option<Limit<Real>> {
        match yaml.field_of("maximum"@) {
            Some(Value::Real(n)) => Some(Limit::Inclusive(n)),
            _ => match yaml.field_of("exclusiveMaximum"@) {
                Some(Value::Real(n)) => Some(Limit::Exclusive(n)),
                _ => None,
            },
        }
    }

    /// Whether a real schema mapping is well-formed.
    pub open spec fn schema_wf(yaml: Value) -> bool {
        match yaml {
            Value::Hash(entries) => {
                &&& contract_issues(
                    entries@,
                    Seq::empty(),
                    seq![
                        "type"@,
                        "minimum"@,
                        "exclusiveMinimum"@,
                        "maximum"@,
                        "exclusiveMaximum"@,
                        "multipleOf"@,
                    ],
                ).len() == 0
                &&& !(crate::value::has_key(entries@, "minimum"@) && crate::value::has_key(
                    entries@,
                    "exclusiveMinimum"@,
                ))
                &&& !(crate::value::has_key(entries@, "maximum"@) && crate::value::has_key(
                    entries@,
                    "exclusiveMaximum"@,
                ))
                &&& (match yaml.field_of("minimum"@) {
                    Some(v) => v is Real,
                    None => true,
                })
                &&& (match yaml.field_of("exclusiveMinimum"@) {
                    Some(v) => v is Real,
                    None => true,
                })
                &&& (match yaml.field_of("maximum"@) {
                    Some(v) => v is Real,
                    None => true,
                })
                &&& (match yaml.field_of("exclusiveMaximum"@) {
                    Some(v) => v is Real,
                    None => true,
                })
                &&& (match yaml.field_of("multipleOf"@) {
                    Some(v) => v matches Value::Real(n) && n.scaled() > 0,
                    None => true,
                })
                &&& (match (Self::lower_of(yaml), Self::upper_of(yaml)) {
                    (Some(l), Some(u)) => l.span_nonempty(u),
                    _ => true,
                })
            },
            _ => false,
        }
    }

    /// Whether this schema holds exactly the bounds and divisor the
    /// mapping dictates.
    pub open spec fn compiled_from(self, yaml: Value) -> bool {
        &&& self.minimum == Self::lower_of(yaml)
        &&& self.maximum == Self::upper_of(yaml)
        &&& (match self.multiple_of {
            Some(m) => yaml.field_of("multipleOf"@) matches Some(Value::Real(n)) && n == m,
            None => yaml.field_of("multipleOf"@) is None,
        })
    }

    /// Compiles a real schema from its mapping.
    pub fn try_from(yaml: &Value) -> (r: Result<SchemaReal, SchemaError>)
        ensures
            r is Ok <==> Self::schema_wf(*yaml),
            r matches Ok(s) ==> s.compiled_from(*yaml),
            !(yaml is Hash) ==> (r matches Err(e) && e.kind
                matches SchemaErrorKind::WrongType { expected, actual } && expected@ == "hash"@
                && actual@ == yaml.kind_name() && e.state.segments@.len() == 0),
            (match *yaml {
                Value::Hash(entries) => ({
                    let issues = contract_issues(entries@, Seq::empty(), seq![
                        "type"@,
                        "minimum"@,
                        "exclusiveMinimum"@,
                        "maximum"@,
                        "exclusiveMaximum"@,
                        "multipleOf"@,
                    ]);
                    issues.len() > 0 ==> (r matches Err(e)
                        && crate::utils::schema_strict_failure(e, issues))
                }),
                _ => true,
            }),
            (match *yaml {
                Value::Hash(entries) => ((contract_issues(
                    entries@,
                    Seq::empty(),
                    seq![
                        "type"@,
                        "minimum"@,
                        "exclusiveMinimum"@,
                        "maximum"@,
                        "exclusiveMaximum"@,
                        "multipleOf"@,
                    ],
                ).len() == 0) ==> {
                    let minconf = crate::value::has_key(entries@, "minimum"@)
                        && crate::value::has_key(entries@, "exclusiveMinimum"@);
                    let maxconf = crate::value::has_key(entries@, "maximum"@)
                        && crate::value::has_key(entries@, "exclusiveMaximum"@);
                    &&& (minconf ==> (r matches Err(e) && e.kind
                        matches SchemaErrorKind::MalformedField { error } && error@
                        == "conflicting constraints: minimum, exclusiveMinimum cannot be used at the same time"@
                        && e.state.segments@.len() == 0))
                    &&& ((!minconf && maxconf) ==> (r matches Err(e) && e.kind
                        matches SchemaErrorKind::MalformedField { error } && error@
                        == "conflicting constraints: maximum, exclusiveMaximum cannot be used at the same time"@
                        && e.state.segments@.len() == 0))
                    &&& ((!minconf && !maxconf) ==> {
                        let bounds_ok = bound_field_ok(*yaml, "minimum"@) && bound_field_ok(
                            *yaml,
                            "exclusiveMinimum"@,
                        ) && bound_field_ok(*yaml, "maximum"@) && bound_field_ok(
                            *yaml,
                            "exclusiveMaximum"@,
                        );
                        &&& (!bounds_ok ==> (r matches Err(e) && e.kind
                            matches SchemaErrorKind::WrongType { expected, actual } && expected@
                            == "real"@ && e.state.segments@.len() == 0))
                        &&& (bounds_ok ==> {
                            &&& true
                            &&& (match yaml.field_of("multipleOf"@) {
                                Some(v) => (match v {
                                    Value::Real(n) => n.scaled() <= 0 ==> (r matches Err(e)
                                        && e.kind
                                        matches SchemaErrorKind::MalformedField { error }
                                        && error@ == "must be greater than zero"@
                                        && e.state.segments@.len() == 1
                                        && crate::breadcrumb::is_name(
                                        e.state.segments@[0],
                                        "multipleOf"@,
                                    )),
                                    _ => true,
                                }),
                                None => true,
                            })
                            &&& ((match yaml.field_of("multipleOf"@) {
                                Some(v) => v matches Value::Real(n) && n.scaled() > 0,
                                None => true,
                            }) ==> ((match (Self::lower_of(*yaml), Self::upper_of(*yaml)) {
                                (Some(l), Some(u)) => !l.span_nonempty(u),
                                _ => false,
                            }) ==> (r matches Err(e) && e.kind
                                matches SchemaErrorKind::MalformedField { error } && error@
                                == "range given for real value spans 0 possible values"@
                                && e.state.segments@.len() == 0)))
                        })
                    })
                }),
                _ => true,
            }),
    {
        let req: Vec<String> = Vec::new();
        let mut opt: Vec<String> = Vec::new();
        opt.push(String::from_str("type"));
        opt.push(String::from_str("minimum"));
        opt.push(String::from_str("exclusiveMinimum"));
        opt.push(String::from_str("maximum"));
        opt.push(String::from_str("exclusiveMaximum"));
        opt.push(String::from_str("multipleOf"));
        proof {
            assert(names_of(req@) =~= Seq::<Seq<char>>::empty());
            assert(names_of(opt@) =~= seq![
                "type"@,
                "minimum"@,
                "exclusiveMinimum"@,
                "maximum"@,
                "exclusiveMaximum"@,
                "multipleOf"@,
            ]);
        }
        match yaml.strict_contents(&req, &opt) {
            Ok(_) => (),
            Err(g) => {
                let ghost gg = g;
                let e = g.into_schema_error();
                proof {
                    if *yaml is Hash {
                        crate::utils::lemma_strict_adoption_schema(
                            gg,
                            e,
                            contract_issues(yaml->Hash_0@, names_of(req@), names_of(opt@)),
                        );
                    }
                }
                return Err(e);
            },
        }
        match yaml.check_exclusive_fields(
            &String::from_str("minimum"),
            &String::from_str("exclusiveMinimum"),
        ) {
            Ok(_) => (),
            Err(e) => {
                proof {
                    reveal_strlit("conflicting constraints: ");
                    reveal_strlit("minimum");
                    reveal_strlit(", ");
                    reveal_strlit("exclusiveMinimum");
                    reveal_strlit(" cannot be used at the same time");
                    reveal_strlit("conflicting constraints: minimum, exclusiveMinimum cannot be used at the same time");
                    assert(("conflicting constraints: "@ + "minimum"@ + ", "@ + "exclusiveMinimum"@
                        + " cannot be used at the same time"@) =~= "conflicting constraints: minimum, exclusiveMinimum cannot be used at the same time"@);
                }
                return Err(e);
            },
        }
        match yaml.check_exclusive_fields(
            &String::from_str("maximum"),
            &String::from_str("exclusiveMaximum"),
        ) {
            Ok(_) => (),
            Err(e) => {
                proof {
                    reveal_strlit("conflicting constraints: ");
                    reveal_strlit("maximum");
                    reveal_strlit(", ");
                    reveal_strlit("exclusiveMaximum");
                    reveal_strlit(" cannot be used at the same time");
                    reveal_strlit("conflicting constraints: maximum, exclusiveMaximum cannot be used at the same time");
                    assert(("conflicting constraints: "@ + "maximum"@ + ", "@ + "exclusiveMaximum"@
                        + " cannot be used at the same time"@) =~= "conflicting constraints: maximum, exclusiveMaximum cannot be used at the same time"@);
                }
                return Err(e);
            },
        }
        let minimum = match yaml.lookup_opt(&String::from_str("minimum")) {
            Some(v) => match v {
                Value::Real(n) => Some(Limit::Inclusive(*n)),
                other => {
                    return Err(wrong_type_real(other));
                },
            },
            None => match yaml.lookup_opt(&String::from_str("exclusiveMinimum")) {
                Some(v) => match v {
                    Value::Real(n) => Some(Limit::Exclusive(*n)),
                    other => {
                        return Err(wrong_type_real(other));
                    },
                },
                None => None,
            },
        };
        let maximum = match yaml.lookup_opt(&String::from_str("maximum")) {
            Some(v) => match v {
                Value::Real(n) => Some(Limit::Inclusive(*n)),
                other => {
                    return Err(wrong_type_real(other));
                },
            },
            None => match yaml.lookup_opt(&String::from_str("exclusiveMaximum")) {
                Some(v) => match v {
                    Value::Real(n) => Some(Limit::Exclusive(*n)),
                    other => {
                        return Err(wrong_type_real(other));
                    },
                },
                None => None,
            },
        };
        let multiple_of = match yaml.lookup_opt(&String::from_str("multipleOf")) {
            Some(v) => match v {
                Value::Real(n) => {
                    let zero = Real::from_bits(0);
                    if !Real::lt(&zero, n) {
                        return Err(
                            SchemaErrorKind::MalformedField {
                                error: String::from_str("must be greater than zero"),
                            }.with_path_name(String::from_str("multipleOf")),
                        );
                    }
                    Some(*n)
                },
                other => {
                    return Err(wrong_type_real(other));
                },
            },
            None => None,
        };
        if let (Some(lower), Some(upper)) = (&minimum, &maximum) {
            if !lower.has_span(upper) {
                return Err(
                    SchemaErrorKind::MalformedField {
                        error: String::from_str("range given for real value spans 0 possible values"),
                    }.into_error(),
                );
            }
        }
        Ok(SchemaReal { minimum, maximum, multiple_of })
    }

    /// Validates a document node: it must be a real; the lower bound, the
    /// upper bound, and the divisor are checked in turn and the first
    /// failing check is reported.
    pub fn validate(&self, ctx: &Context, doc: &Value) -> (r: Result<(), ValidationError>)
        ensures
            (r is Ok) == self.accepts(*doc),
            !(doc is Real) ==> (r matches Err(e) && e.kind matches ValidationErrorKind::WrongType {
                expected,
                actual,
            } && expected@ == "real"@ && actual@ == doc.kind_name() && e.state.segments@.len()
                == 0),
            doc matches Value::Real(v) ==> {
                let min_bad = self.minimum matches Some(l) && !l.admits_above(v.scaled());
                let max_bad = self.maximum matches Some(l) && !l.admits_below(v.scaled());
                &&& (min_bad ==> (r matches Err(e) && validation_msg(
                    e,
                    "value violates lower limit constraint"@,
                )))
                &&& (!min_bad && max_bad ==> (r matches Err(e) && validation_msg(
                    e,
                    "value violates upper limit constraint"@,
                )))
                &&& (!min_bad && !max_bad && r is Err ==> (r matches Err(e) && validation_msg(
                    e,
                    "value must be a multiple of the multipleOf field"@,
                )))
            },
    {
        let _ = ctx;
        let value = match doc {
            Value::Real(v) => *v,
            other => {
                return Err(
                    ValidationErrorKind::WrongType {
                        expected: String::from_str("real"),
                        actual: String::from_str(other.type_to_str()),
                    }.into_error(),
                );
            },
        };
        if let Some(minimum) = &self.minimum {
            if !minimum.is_greater(&value) {
                return Err(
                    ValidationErrorKind::ValidationError {
                        error: String::from_str("value violates lower limit constraint"),
                    }.into_error(),
                );
            }
        }
        if let Some(maximum) = &self.maximum {
            if !maximum.is_lesser(&value) {
                return Err(
                    ValidationErrorKind::ValidationError {
                        error: String::from_str("value violates upper limit constraint"),
                    }.into_error(),
                );
            }
        }
        if let Some(multiple_of) = &self.multiple_of {
            let nonzero = !multiple_of.is_zero();
            let ok = nonzero && value.is_multiple_of(multiple_of);
            if !ok {
                return Err(
                    ValidationErrorKind::ValidationError {
                        error: String::from_str("value must be a multiple of the multipleOf field"),
                    }.into_error(),
                );
            }
        }
        Ok(())
    }
}

/// Whether an optional bound field, when present, holds a node of the
/// numeric kind this schema reads.
pub open spec fn bound_field_ok(yaml: Value, key: Seq<char>) -> bool {
    match yaml.field_of(key) {
        Some(v) => v is Real,
        None => true,
    }
}

/// A real-typed field held a node of another kind.
fn wrong_type_real(other: &Value) -> (r: SchemaError)
    ensures
        r.kind matches SchemaErrorKind::WrongType { expected, actual } && expected@ == "real"@
            && actual@ == other.kind_name(),
        r.state.segments@.len() == 0,
{
    SchemaErrorKind::WrongType {
        expected: String::from_str("real"),
        actual: String::from_str(other.type_to_str()),
    }.into_error()
}

} // verus!
