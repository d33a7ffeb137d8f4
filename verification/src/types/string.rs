//! The string schema node: optional length bounds and an optional regular
//! expression pattern.
use vstd::prelude::*;

use vstd::string::{StrSliceExecFns, StringExecFns};

use crate::errors::{SchemaError, SchemaErrorKind, ValidationError, ValidationErrorKind};
use crate::pattern::{compile_pattern, pattern_is_match, pattern_matches, pattern_ok};
use crate::utils::{bad_count_field, contract_issues, count_field_error, names_of, try_into_usize};
use crate::value::Value;
use crate::Context;

verus! {

/// A compiled string schema.
#[derive(Debug)]
pub struct SchemaString {
    pub min_length: Option<usize>,
    pub max_length: Option<usize>,
    pub pattern: Option<String>,
}

impl SchemaString {
    /// Whether a document node is a string meeting the length bounds and
    /// the pattern.
    pub open spec fn accepts(self, doc: Value) -> bool {
        match doc {
            Value::Str(text) => {
                &&& (self.min_length matches Some(m) ==> text@.len() >= m)
                &&& (self.max_length matches Some(m) ==> text@.len() <= m)
                &&& (self.pattern matches Some(p) ==> pattern_ok(p@) && pattern_matches(
                    p@,
                    text@,
                ))
            },
            _ => false,
        }
    }

    /// Whether a string schema mapping is well-formed.
    pub open spec fn schema_wf(yaml: Value) -> bool {
        match yaml {
            Value::Hash(entries) => {
                &&& contract_issues(
                    entries@,
                    Seq::empty(),
                    seq!["type"@, "minLength"@, "maxLength"@, "pattern"@],
                ).len() == 0
                &&& (match yaml.field_of("minLength"@) {
                    Some(v) => v matches Value::Int(n) && 0 <= n <= usize::MAX,
                    None => true,
                })
                &&& (match yaml.field_of("maxLength"@) {
                    Some(v) => v matches Value::Int(n) && 0 <= n <= usize::MAX,
                    None => true,
                })
                &&& (match (yaml.field_of("minLength"@), yaml.field_of("maxLength"@)) {
                    (Some(Value::Int(a)), Some(Value::Int(b))) => a <= b,
                    _ => true,
                })
                &&& (match yaml.field_of("pattern"@) {
                    Some(v) => v matches Value::Str(s) && pattern_ok(s@),
                    None => true,
                })
            },
            _ => false,
        }
    }

    /// Whether this schema holds exactly the fields the mapping dictates.
    pub open spec fn compiled_from(self, yaml: Value) -> bool {
        &&& (match self.min_length {
            Some(v) => yaml.field_of("minLength"@) matches Some(Value::Int(n)) && n == v,
            None => yaml.field_of("minLength"@) is None,
        })
        &&& (match self.max_length {
            Some(v) => yaml.field_of("maxLength"@) matches Some(Value::Int(n)) && n == v,
            None => yaml.field_of("maxLength"@) is None,
        })
        &&& (match self.pattern {
            Some(p) => yaml.field_of("pattern"@) matches Some(Value::Str(s)) && s@ == p@,
            None => yaml.field_of("pattern"@) is None,
        })
    }

    /// Compiles a string schema from its mapping.
    pub fn try_from(yaml: &Value) -> (r: Result<SchemaString, SchemaError>)
        ensures
            r is Ok <==> Self::schema_wf(*yaml),
            r matches Ok(s) ==> s.compiled_from(*yaml),
            !(yaml is Hash) ==> (r matches Err(e) && e.kind
                matches SchemaErrorKind::WrongType { expected, actual } && expected@ == "hash"@
                && actual@ == yaml.kind_name() && e.state.segments@.len() == 0),
            (match *yaml {
                Value::Hash(entries) => ({
                    let issues = contract_issues(entries@, Seq::empty(), seq!["type"@, "minLength"@, "maxLength"@, "pattern"@]);
                    issues.len() > 0 ==> (r matches Err(e)
                        && crate::utils::schema_strict_failure(e, issues))
                }),
                _ => true,
            }),
            (match *yaml {
                Value::Hash(entries) => ((contract_issues(
                    entries@,
                    Seq::empty(),
                    seq!["type"@, "minLength"@, "maxLength"@, "pattern"@],
                ).len() == 0) ==> {
                    let min_bad = bad_count_field(*yaml, "minLength"@);
                    let max_bad = bad_count_field(*yaml, "maxLength"@);
                    let order_bad = match (yaml.field_of("minLength"@), yaml.field_of(
                        "maxLength"@,
                    )) {
                        (Some(Value::Int(a)), Some(Value::Int(b))) => 0 <= a && 0 <= b && a > b,
                        _ => false,
                    };
                    &&& (min_bad ==> (r matches Err(e) && count_field_error(
                        e,
                        *yaml,
                        "minLength"@,
                    )))
                    &&& ((!min_bad && max_bad) ==> (r matches Err(e) && count_field_error(
                        e,
                        *yaml,
                        "maxLength"@,
                    )))
                    &&& ((!min_bad && !max_bad && order_bad) ==> (r matches Err(e) && e.kind
                        matches SchemaErrorKind::MalformedField { error } && error@
                        == "minLength cannot be greater than maxLength"@
                        && e.state.segments@.len() == 0))
                    &&& ((!min_bad && !max_bad && !order_bad) ==> (match yaml.field_of(
                        "pattern"@,
                    ) {
                        Some(v) => {
                            &&& (!(v is Str) ==> (r matches Err(e) && e.kind
                                matches SchemaErrorKind::WrongType { expected, actual }
                                && expected@ == "string"@ && actual@ == v.kind_name()
                                && e.state.segments@.len() == 0))
                            &&& (match v {
                                Value::Str(p) => !crate::pattern::pattern_ok(p@) ==> (r
                                    matches Err(e) && e.kind
                                    matches SchemaErrorKind::MalformedField { error }
                                    && e.state.segments@.len() == 1
                                    && crate::breadcrumb::is_name(
                                    e.state.segments@[0],
                                    "pattern"@,
                                )),
                                _ => true,
                            })
                        },
                        None => true,
                    }))
                }),
                _ => true,
            }),
    {
        let req: Vec<String> = Vec::new();
        let mut opt: Vec<String> = Vec::new();
        opt.push(String::from_str("type"));
        opt.push(String::from_str("minLength"));
        opt.push(String::from_str("maxLength"));
        opt.push(String::from_str("pattern"));
        proof {
            assert(names_of(req@) =~= Seq::<Seq<char>>::empty());
            assert(names_of(opt@) =~= seq!["type"@, "minLength"@, "maxLength"@, "pattern"@]);
        }
        match yaml.strict_contents(&req, &opt) {
            Ok(_) => (),
            Err(g) => {
                let ghost gg = g;
                let e = g.into_schema_error();
                proof {
                    if *yaml is Hash {
                        crate::utils::lemma_strict_adoption_schema(
                            gg,
                            e,
                            contract_issues(yaml->Hash_0@, names_of(req@), names_of(opt@)),
                        );
                    }
                }
                return Err(e);
            },
        }
        let min_length = match yaml.lookup_opt(&String::from_str("minLength")) {
            None => None,
            Some(v) => match v {
                Value::Int(n) => match try_into_usize(*n) {
                    Ok(u) => Some(u),
                    Err(e) => {
                        return Err(e.add_path_name(String::from_str("minLength")));
                    },
                },
                other => {
                    return Err(
                        SchemaErrorKind::WrongType {
                            expected: String::from_str("integer"),
                            actual: String::from_str(other.type_to_str()),
                        }.with_path_name(String::from_str("minLength")),
                    );
                },
            },
        };
        let max_length = match yaml.lookup_opt(&String::from_str("maxLength")) {
            None => None,
            Some(v) => match v {
                Value::Int(n) => match try_into_usize(*n) {
                    Ok(u) => Some(u),
                    Err(e) => {
                        return Err(e.add_path_name(String::from_str("maxLength")));
                    },
                },
                other => {
                    return Err(
                        SchemaErrorKind::WrongType {
                            expected: String::from_str("integer"),
                            actual: String::from_str(other.type_to_str()),
                        }.with_path_name(String::from_str("maxLength")),
                    );
                },
            },
        };
        if let (Some(a), Some(b)) = (&min_length, &max_length) {
            if *a > *b {
                return Err(
                    SchemaErrorKind::MalformedField {
                        error: String::from_str("minLength cannot be greater than maxLength"),
                    }.into_error(),
                );
            }
        }
        let pattern = match yaml.lookup_opt(&String::from_str("pattern")) {
            None => None,
            Some(v) => match v {
                Value::Str(s) => {
                    match compile_pattern(s) {
                        Ok(_) => Some(s.clone()),
                        Err(msg) => {
                            return Err(
                                SchemaErrorKind::MalformedField { error: msg }.with_path_name(
                                    String::from_str("pattern"),
                                ),
                            );
                        },
                    }
                },
                other => {
                    return Err(
                        SchemaErrorKind::WrongType {
                            expected: String::from_str("string"),
                            actual: String::from_str(other.type_to_str()),
                        }.into_error(),
                    );
                },
            },
        };
        Ok(SchemaString { min_length, max_length, pattern })
    }

    /// Validates a document node: it must be a string; the length bounds
    /// and the pattern are checked in turn and the first failing check is
    /// reported.
    pub fn validate(&self, ctx: &Context, doc: &Value) -> (r: Result<(), ValidationError>)
        ensures
            (r is Ok) == self.accepts(*doc),
            !(doc is Str) ==> (r matches Err(e) && e.kind matches ValidationErrorKind::WrongType {
                expected,
                actual,
            } && expected@ == "string"@ && actual@ == doc.kind_name() && e.state.segments@.len()
                == 0),
            doc matches Value::Str(text) ==> {
                let min_bad = self.min_length matches Some(m) && text@.len() < m;
                let max_bad = self.max_length matches Some(m) && text@.len() > m;
                &&& (min_bad ==> (r matches Err(e) && validation_msg(
                    e,
                    "string length is less than minLength"@,
                )))
                &&& (!min_bad && max_bad ==> (r matches Err(e) && validation_msg(
                    e,
                    "string length is greater than maxLength"@,
                )))
                &&& (!min_bad && !max_bad && r is Err ==> (r matches Err(e) && validation_msg(
                    e,
                    "supplied value does not match regex pattern for field"@,
                )))
            },
    {
        let _ = ctx;
        let text = match doc {
            Value::Str(text) => text,
            other => {
                return Err(
                    ValidationErrorKind::WrongType {
                        expected: String::from_str("string"),
                        actual: String::from_str(other.type_to_str()),
                    }.into_error(),
                );
            },
        };
        let len = text.as_str().unicode_len();
        if let Some(m) = &self.min_length {
            if len < *m {
                return Err(
                    ValidationErrorKind::ValidationError {
                        error: String::from_str("string length is less than minLength"),
                    }.into_error(),
                );
            }
        }
        if let Some(m) = &self.max_length {
            if len > *m {
                return Err(
                    ValidationErrorKind::ValidationError {
                        error: String::from_str("string length is greater than maxLength"),
                    }.into_error(),
                );
            }
        }
        if let Some(p) = &self.pattern {
            if !pattern_is_match(p, text) {
                return Err(
                    ValidationErrorKind::ValidationError {
                        error: String::from_str(
                            "supplied value does not match regex pattern for field",
                        ),
                    }.into_error(),
                );
            }
        }
        Ok(())
    }
}

/// Whether an error is a constraint violation with the given message and
/// an empty path.
pub open spec fn validation_msg(e: ValidationError, msg: Seq<char>) -> bool {
    &&& e.kind matches ValidationErrorKind::ValidationError { error } && error@ == msg
    &&& e.state.segments@.len() == 0
}

} // verus!
