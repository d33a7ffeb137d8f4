//! The boolean schema node: no constraints beyond the type itself.
use vstd::prelude::*;

use vstd::string::StringExecFns;

use crate::errors::{SchemaError, SchemaErrorKind, ValidationError, ValidationErrorKind};
use crate::utils::{contract_issues, names_of};
use crate::value::Value;
use crate::Context;

verus! {

/// A compiled boolean schema.
#[derive(Debug)]
pub struct SchemaBool {}

impl SchemaBool {
    /// Whether a boolean schema mapping is well-formed: a mapping with at
    /// most the `type` key.
    pub open spec fn schema_wf(yaml: Value) -> bool {
        match yaml {
            Value::Hash(entries) => contract_issues(
                entries@,
                Seq::empty(),
                seq!["type"@],
            ).len() == 0,
            _ => false,
        }
    }

    /// Compiles a boolean schema from its mapping.
    pub fn try_from(yaml: &Value) -> (r: Result<SchemaBool, SchemaError>)
        ensures
            r is Ok <==> Self::schema_wf(*yaml),
            !(yaml is Hash) ==> (r matches Err(e) && e.kind
                matches SchemaErrorKind::WrongType { expected, actual } && expected@ == "hash"@
                && actual@ == yaml.kind_name() && e.state.segments@.len() == 0),
            (match *yaml {
                Value::Hash(entries) => ({
                    let issues = contract_issues(entries@, Seq::empty(), seq!["type"@]);
                    issues.len() > 0 ==> (r matches Err(e)
                        && crate::utils::schema_strict_failure(e, issues))
                }),
                _ => true,
            }),
    {
        let req: Vec<String> = Vec::new();
        let mut opt: Vec<String> = Vec::new();
        opt.push(String::from_str("type"));
        proof {
            assert(names_of(req@) =~= Seq::<Seq<char>>::empty());
            assert(names_of(opt@) =~= seq!["type"@]);
        }
        match yaml.strict_contents(&req, &opt) {
            Ok(_) => Ok(SchemaBool {  }),
            Err(g) => {
                let ghost gg = g;
                let e = g.into_schema_error();
                proof {
                    if *yaml is Hash {
                        crate::utils::lemma_strict_adoption_schema(
                            gg,
                            e,
                            contract_issues(yaml->Hash_0@, names_of(req@), names_of(opt@)),
                        );
                    }
                }
                Err(e)

            },
        }
    }

    /// Validates a document node: it must be a boolean.
    pub fn validate(&self, ctx: &Context, doc: &Value) -> (r: Result<(), ValidationError>)
        ensures
            (r is Ok) == (doc is Bool),
            !(doc is Bool) ==> (r matches Err(e) && e.kind matches ValidationErrorKind::WrongType {
                expected,
                actual,
            } && expected@ == "bool"@ && actual@ == doc.kind_name() && e.state.segments@.len()
                == 0),
    {
        let _ = ctx;
        match doc {
            Value::Bool(_) => Ok(()),
            other => Err(
                ValidationErrorKind::WrongType {
                    expected: String::from_str("bool"),
                    actual: String::from_str(other.type_to_str()),
                }.into_error(),
            ),
        }
    }
}

} // verus!
