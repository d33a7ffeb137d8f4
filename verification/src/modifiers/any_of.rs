//! The `anyOf` combinator: at least one child must succeed; on total
//! failure every child's error is aggregated, not only the closest one.
use vstd::prelude::*;

use vstd::string::StringExecFns;

use crate::errors::{condense_validation_errors, SchemaError, SchemaErrorKind, ValidationError, ValidationErrorKind};
use crate::modifiers::one_of::{combinator_compile_errors, combinator_schema_wf, compile_combinator_children};
use crate::value::Value;
use crate::{count_valid, Context, PropertyType};

verus! {

/// A compiled `anyOf` node.
#[derive(Debug)]
pub struct SchemaAnyOf {
    pub items: Vec<PropertyType>,
}

impl SchemaAnyOf {
    /// Whether an `anyOf` mapping is well-formed apart from its children:
    /// exactly the key `anyOf`, holding a non-empty array.
    pub open spec fn schema_wf(yaml: Value) -> bool {
        combinator_schema_wf(yaml, "anyOf"@)
    }

    /// Compiles an `anyOf` node from its mapping.
    pub fn try_from(yaml: &Value) -> (r: Result<SchemaAnyOf, SchemaError>)
        ensures
            r is Ok <==> (Self::schema_wf(*yaml) && crate::elements_of_field_wf(
                yaml->Hash_0@,
                "anyOf"@,
            )),
            r matches Ok(s) ==> crate::elements_of_field_compiled(
                yaml->Hash_0@,
                "anyOf"@,
                s.items@,
            ),
            !(yaml is Hash) ==> (r matches Err(e) && e.kind
                matches SchemaErrorKind::WrongType { expected, actual } && expected@ == "hash"@
                && actual@ == yaml.kind_name() && e.state.segments@.len() == 0),
            (match *yaml {
                Value::Hash(entries) => ({
                    let issues = crate::utils::contract_issues(
                        entries@,
                        seq!["anyOf"@],
                        Seq::empty(),
                    );
                    issues.len() > 0 ==> (r matches Err(e)
                        && crate::utils::schema_strict_failure(e, issues))
                }),
                _ => true,
            }),
            r matches Err(e) ==> combinator_compile_errors(e, *yaml, "anyOf"@),
        decreases *yaml, 0nat, 1nat,
    {
        let items = compile_combinator_children(yaml, "anyOf")?;
        Ok(SchemaAnyOf { items })
    }

    /// Validates with a fresh reference budget.
    pub fn validate(&self, ctx: &Context, doc: &Value) -> (r: Result<(), ValidationError>)
        ensures
            (r is Ok) == (count_valid(*ctx, self.items@, *doc, crate::REF_FUEL as nat) >= 1),
            self.items@.len() > 1 && r is Err ==> (r matches Err(e) && e.kind
                matches ValidationErrorKind::Multiple { errors: es } && es@.len()
                == self.items@.len() && e.state.segments@.len() == 0 && (forall|b: int|
                0 <= b < es@.len() ==> (#[trigger] es@[b]).state.segments@.len() >= 1
                    && crate::breadcrumb::is_name(es@[b].state.segments@.last(), "anyOf"@))),
            self.items@.len() == 1 && r is Err ==> (r matches Err(e) && e.state.segments@.len()
                >= 1 && crate::breadcrumb::is_name(e.state.segments@.last(), "anyOf"@)),
    {
        self.validate_fuel(ctx, doc, crate::REF_FUEL)
    }

    /// Validates by evaluating every child: success needs at least one,
    /// and on total failure every child's error is kept, each under the
    /// path `anyOf`.
    pub fn validate_fuel(&self, ctx: &Context, doc: &Value, fuel: u64) -> (r: Result<
        (),
        ValidationError,
    >)
        ensures
            (r is Ok) == (count_valid(*ctx, self.items@, *doc, fuel as nat) >= 1),
            self.items@.len() > 1 && r is Err ==> (r matches Err(e) && e.kind
                matches ValidationErrorKind::Multiple { errors: es } && es@.len()
                == self.items@.len() && e.state.segments@.len() == 0 && (forall|b: int|
                0 <= b < es@.len() ==> (#[trigger] es@[b]).state.segments@.len() >= 1
                    && crate::breadcrumb::is_name(es@[b].state.segments@.last(), "anyOf"@))),
            self.items@.len() == 1 && r is Err ==> (r matches Err(e) && e.state.segments@.len()
                >= 1 && crate::breadcrumb::is_name(e.state.segments@.last(), "anyOf"@)),
        decreases *doc, fuel, *self,
    {
        let n = self.items.len();
        let mut errors: Vec<ValidationError> = Vec::new();
        let mut any_ok = false;
        let mut i: usize = 0;
        proof {
            assert(self.items@.subrange(0, 0) =~= Seq::<PropertyType>::empty());
        }
        while i < n
            invariant
                0 <= i <= n,
                n == self.items@.len(),
                any_ok == (count_valid(*ctx, self.items@.subrange(0, i as int), *doc, fuel as nat)
                    >= 1),
                !any_ok ==> errors@.len() == i,
                forall|b: int|
                    0 <= b < errors@.len() ==> ((#[trigger] errors@[b]).state.segments@.len() >= 1
                        && crate::breadcrumb::is_name(errors@[b].state.segments@.last(), "anyOf"@)),
            decreases n - i,
        {
            let ghost prefix = self.items@.subrange(0, i as int);
            let ghost next = self.items@.subrange(0, i as int + 1);
            proof {
                assert(next.drop_last() =~= prefix);
                assert(next.last() == self.items@[i as int]);
                assert(decreases_to!(*self => self.items));
                crate::lemma_count_valid_bound(*ctx, prefix, *doc, fuel as nat);
            }
            match self.items[i].validate_fuel(ctx, doc, fuel) {
                Ok(_) => any_ok = true,
                Err(e) => errors.push(e.add_path_name(String::from_str("anyOf"))),
            }
            i = i + 1;
        }
        proof {
            assert(self.items@.subrange(0, n as int) =~= self.items@);
        }
        if any_ok {
            return Ok(());
        }
        match condense_validation_errors(errors) {
            Err(e) => Err(e),
            Ok(_) => Err(ValidationErrorKind::Multiple { errors: Vec::new() }.into_error()),
        }
    }
}

} // verus!
