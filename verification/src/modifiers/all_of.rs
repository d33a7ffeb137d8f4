//! The `allOf` combinator: every child must succeed; all failing
//! children's errors are aggregated.
use vstd::prelude::*;

use crate::errors::{condense_validation_errors, SchemaError, SchemaErrorKind, ValidationError, ValidationErrorKind};
use crate::modifiers::one_of::{combinator_compile_errors, combinator_schema_wf, compile_combinator_children};
use crate::value::Value;
use crate::{count_valid, Context, PropertyType};

verus! {

/// A compiled `allOf` node.
#[derive(Debug)]
pub struct SchemaAllOf {
    pub items: Vec<PropertyType>,
}

impl SchemaAllOf {
    /// Whether an `allOf` mapping is well-formed apart from its children:
    /// exactly the key `allOf`, holding a non-empty array.
    pub open spec fn schema_wf(yaml: Value) -> bool {
        combinator_schema_wf(yaml, "allOf"@)
    }

    /// Compiles an `allOf` node from its mapping.
    pub fn try_from(yaml: &Value) -> (r: Result<SchemaAllOf, SchemaError>)
        ensures
            r is Ok <==> (Self::schema_wf(*yaml) && crate::elements_of_field_wf(
                yaml->Hash_0@,
                "allOf"@,
            )),
            r matches Ok(s) ==> crate::elements_of_field_compiled(
                yaml->Hash_0@,
                "allOf"@,
                s.items@,
            ),
            !(yaml is Hash) ==> (r matches Err(e) && e.kind
                matches SchemaErrorKind::WrongType { expected, actual } && expected@ == "hash"@
                && actual@ == yaml.kind_name() && e.state.segments@.len() == 0),
            (match *yaml {
                Value::Hash(entries) => ({
                    let issues = crate::utils::contract_issues(
                        entries@,
                        seq!["allOf"@],
                        Seq::empty(),
                    );
                    issues.len() > 0 ==> (r matches Err(e)
                        && crate::utils::schema_strict_failure(e, issues))
                }),
                _ => true,
            }),
            r matches Err(e) ==> combinator_compile_errors(e, *yaml, "allOf"@),
        decreases *yaml, 0nat, 1nat,
    {
        let items = compile_combinator_children(yaml, "allOf")?;
        Ok(SchemaAllOf { items })
    }

    /// Validates with a fresh reference budget.
    pub fn validate(&self, ctx: &Context, doc: &Value) -> (r: Result<(), ValidationError>)
        ensures
            (r is Ok) == (count_valid(*ctx, self.items@, *doc, crate::REF_FUEL as nat)
                == self.items@.len()),
            ({
                let bad = self.items@.len() - count_valid(
                    *ctx,
                    self.items@,
                    *doc,
                    crate::REF_FUEL as nat,
                );
                bad > 1 ==> (r matches Err(e) && e.kind matches ValidationErrorKind::Multiple {
                    errors: es,
                } && es@.len() == bad && e.state.segments@.len() == 0)
            }),
    {
        self.validate_fuel(ctx, doc, crate::REF_FUEL)
    }

    /// Validates by evaluating every child: success needs all of them,
    /// and every failing child's error is kept.
    pub fn validate_fuel(&self, ctx: &Context, doc: &Value, fuel: u64) -> (r: Result<
        (),
        ValidationError,
    >)
        ensures
            (r is Ok) == (count_valid(*ctx, self.items@, *doc, fuel as nat) == self.items@.len()),
            ({
                let bad = self.items@.len() - count_valid(*ctx, self.items@, *doc, fuel as nat);
                bad > 1 ==> (r matches Err(e) && e.kind matches ValidationErrorKind::Multiple {
                    errors: es,
                } && es@.len() == bad && e.state.segments@.len() == 0)
            }),
        decreases *doc, fuel, *self,
    {
        let n = self.items.len();
        let mut errors: Vec<ValidationError> = Vec::new();
        let mut i: usize = 0;
        proof {
            assert(self.items@.subrange(0, 0) =~= Seq::<PropertyType>::empty());
        }
        while i < n
            invariant
                0 <= i <= n,
                n == self.items@.len(),
                errors@.len() + count_valid(*ctx, self.items@.subrange(0, i as int), *doc, fuel as nat)
                    == i,
            decreases n - i,
        {
            let ghost prefix = self.items@.subrange(0, i as int);
            let ghost next = self.items@.subrange(0, i as int + 1);
            proof {
                assert(next.drop_last() =~= prefix);
                assert(next.last() == self.items@[i as int]);
                assert(decreases_to!(*self => self.items));
            }
            match self.items[i].validate_fuel(ctx, doc, fuel) {
                Ok(_) => (),
                Err(e) => errors.push(e),
            }
            i = i + 1;
        }
        proof {
            assert(self.items@.subrange(0, n as int) =~= self.items@);
            crate::lemma_count_valid_bound(*ctx, self.items@, *doc, fuel as nat);
        }
        condense_validation_errors(errors)
    }
}

} // verus!
