//! Constraint primitives shared by the node compilers and validators: the
//! inclusive/exclusive numeric bound, field lookup and casting, and the
//! structural contract that every schema-authoring mapping must meet.
use vstd::prelude::*;

use vstd::string::StringExecFns;

use crate::errors::GenericError;
use crate::errors::{SchemaError, SchemaErrorKind, ValidationError, ValidationErrorKind};
use crate::realnum::{divides, Real, MANT_DIV};
use crate::value::{has_key, key_matches, map_get, Value};

verus! {

/// A value on the engine's number line, with the unit by which a doubly
/// exclusive range must exceed a point to contain anything.
pub trait UnitValue: Sized + Copy {
    /// The position of this value on the number line.
    spec fn sv(self) -> int;

    /// The unit of the number line: the least distance that leaves room
    /// strictly between two bounds.
    spec fn unit() -> int;

    /// Exact `<=`.
    fn le(self, other: Self) -> (r: bool)
        ensures
            r == (self.sv() <= other.sv()),
    ;

    /// Exact `<`.
    fn lt(self, other: Self) -> (r: bool)
        ensures
            r == (self.sv() < other.sv()),
    ;

    /// Whether the distance from `self` up to `upper` exceeds one unit.
    fn gap_exceeds_unit(self, upper: Self) -> (r: bool)
        ensures
            r == (upper.sv() - self.sv() > Self::unit()),
    ;
}

impl UnitValue for i64 {
    open spec fn sv(self) -> int {
        self as int
    }

    open spec fn unit() -> int {
        1
    }

    fn le(self, other: Self) -> (r: bool) {
        self <= other
    }

    fn lt(self, other: Self) -> (r: bool) {
        self < other
    }

    fn gap_exceeds_unit(self, upper: Self) -> (r: bool) {
        (upper as i128) - (self as i128) > 1
    }
}

impl UnitValue for Real {
    open spec fn sv(self) -> int {
        self.scaled()
    }

    open spec fn unit() -> int {
        MANT_DIV as int
    }

    fn le(self, other: Self) -> (r: bool) {
        Real::le(&self, &other)
    }

    fn lt(self, other: Self) -> (r: bool) {
        Real::lt(&self, &other)
    }

    fn gap_exceeds_unit(self, upper: Self) -> (r: bool) {
        Real::gap_exceeds_unit(&self, &upper)
    }
}

/// A one-sided numeric bound that either includes or excludes its
/// threshold.
#[derive(Debug, Clone, Copy, PartialEq, Eq)]
pub enum Limit<T> {
    Inclusive(T),
    Exclusive(T),
}

impl<T: UnitValue> Limit<T> {
    /// Whether `v` lies on the admitted side of this bound read as a lower
    /// bound.
    pub open spec fn admits_above(self, v: int) -> bool {
        match self {
            Limit::Inclusive(t) => v >= t.sv(),
            Limit::Exclusive(t) => v > t.sv(),
        }
    }

    /// Whether `v` lies on the admitted side of this bound read as an upper
    /// bound.
    pub open spec fn admits_below(self, v: int) -> bool {
        match self {
            Limit::Inclusive(t) => v <= t.sv(),
            Limit::Exclusive(t) => v < t.sv(),
        }
    }

    /// Whether the range from this bound up to `upper` spans at least one
    /// value of the number line.
    pub open spec fn span_nonempty(self, upper: Limit<T>) -> bool {
        match (self, upper) {
            (Limit::Inclusive(l), Limit::Inclusive(u)) => u.sv() - l.sv() >= 0,
            (Limit::Exclusive(l), Limit::Exclusive(u)) => u.sv() - l.sv() > T::unit(),
            (Limit::Exclusive(l), Limit::Inclusive(u)) => u.sv() - l.sv() >= 0,
            (Limit::Inclusive(l), Limit::Exclusive(u)) => u.sv() - l.sv() >= 0,
        }
    }

    /// Whether `value` satisfies this bound read as an upper bound.
    pub fn is_lesser(&self, value: &T) -> (r: bool)
        ensures
            r == self.admits_below(value.sv()),
    {
        match self {
            Limit::Inclusive(threshold) => value.le(*threshold),
            Limit::Exclusive(threshold) => value.lt(*threshold),
        }
    }

    /// Whether `value` satisfies this bound read as a lower bound.
    pub fn is_greater(&self, value: &T) -> (r: bool)
        ensures
            r == self.admits_above(value.sv()),
    {
        match self {
            Limit::Inclusive(threshold) => threshold.le(*value),
            Limit::Exclusive(threshold) => threshold.lt(*value),
        }
    }

    /// Whether the range from this bound up to `upper` is non-empty: a
    /// doubly inclusive or mixed pair may be a single point, a doubly
    /// exclusive pair must leave more than one unit between the
    /// thresholds.
    pub fn has_span(&self, upper: &Self) -> (r: bool)
        ensures
            r == self.span_nonempty(*upper),
    {
        match (self, upper) {
            (Limit::Inclusive(lower), Limit::Inclusive(upper)) => lower.le(*upper),
            (Limit::Exclusive(lower), Limit::Exclusive(upper)) => lower.gap_exceeds_unit(*upper),
            (Limit::Exclusive(lower), Limit::Inclusive(upper)) => lower.le(*upper),
            (Limit::Inclusive(lower), Limit::Exclusive(upper)) => lower.le(*upper),
        }
    }
}

/// Casts a non-negative machine integer to a count, rejecting negative
/// values.
pub fn try_into_usize(number: i64) -> (r: Result<usize, SchemaError>)
    ensures
        match r {
            Ok(v) => 0 <= number && v == number && number <= usize::MAX,
            Err(e) => {
                &&& !(0 <= number <= usize::MAX)
                &&& e.kind matches SchemaErrorKind::MalformedField { error }
                &&& (number < 0 ==> error@ == "must be a non-negative integer value"@)
                &&& (number >= 0 ==> error@ == "value does not fit in a usize on this system"@)
                &&& e.state.segments@.len() == 0
            },
        },
{
    if number < 0 {
        return Err(
            SchemaErrorKind::MalformedField {
                error: String::from_str("must be a non-negative integer value"),
            }.into_error(),
        );
    }
    if (number as u64) > (usize::MAX as u64) {
        return Err(
            SchemaErrorKind::MalformedField {
                error: String::from_str("value does not fit in a usize on this system"),
            }.into_error(),
        );
    }
    Ok(number as usize)
}

/// The text views of a list of names.
pub open spec fn names_of(v: Seq<String>) -> Seq<Seq<char>> {
    v.map_values(|s: String| s@)
}

/// Whether `s` occurs in `list`.
pub open spec fn contains_str(list: Seq<Seq<char>>, s: Seq<char>) -> bool {
    exists|i: int| 0 <= i < list.len() && list[i] == s
}

/// One finding of the structural contract: a required key that is absent,
/// a mapping key that is not a string, or a key that the contract does not
/// declare.
pub enum KeyIssue {
    Missing { field: Seq<char> },
    WrongKey { actual: Seq<char> },
    Extra { field: Seq<char> },
}

/// Whether a lookup error reports exactly the given finding.
pub open spec fn generic_matches_issue(g: GenericError, k: KeyIssue) -> bool {
    match k {
        KeyIssue::Missing { field } => g matches GenericError::FieldMissing { field: f } && f@
            == field,
        KeyIssue::WrongKey { actual } => g matches GenericError::WrongType { expected, actual: a }
            && expected@ == "string"@ && a@ == actual,
        KeyIssue::Extra { field } => g matches GenericError::ExtraField { field: f } && f@
            == field,
    }
}

/// Whether a schema-compilation error kind reports exactly the given
/// finding.
pub open spec fn schema_matches_issue(k: SchemaErrorKind, i: KeyIssue) -> bool {
    match i {
        KeyIssue::Missing { field } => k matches SchemaErrorKind::FieldMissing { field: f } && f@
            == field,
        KeyIssue::WrongKey { actual } => k matches SchemaErrorKind::WrongType {
            expected,
            actual: a,
        } && expected@ == "string"@ && a@ == actual,
        KeyIssue::Extra { field } => k matches SchemaErrorKind::ExtraField { field: f } && f@
            == field,
    }
}

/// Whether a validation error kind reports exactly the given finding.
pub open spec fn validation_matches_issue(k: ValidationErrorKind, i: KeyIssue) -> bool {
    match i {
        KeyIssue::Missing { field } => k matches ValidationErrorKind::FieldMissing { field: f }
            && f@ == field,
        KeyIssue::WrongKey { actual } => k matches ValidationErrorKind::WrongType {
            expected,
            actual: a,
        } && expected@ == "string"@ && a@ == actual,
        KeyIssue::Extra { field } => k matches ValidationErrorKind::ExtraField { field: f } && f@
            == field,
    }
}

/// Whether a schema error is the adoption of a failed structural
/// contract: its findings, one alone or several under one `Multiple`, all
/// at the empty path.
pub open spec fn schema_strict_failure(e: SchemaError, issues: Seq<KeyIssue>) -> bool {
    &&& e.state.segments@.len() == 0
    &&& if issues.len() == 1 {
        schema_matches_issue(e.kind, issues[0])
    } else {
        e.kind matches SchemaErrorKind::Multiple { errors: es } && es@.len() == issues.len() && (
        forall|j: int|
            0 <= j < issues.len() ==> schema_matches_issue((#[trigger] es@[j]).kind, issues[j])
                && es@[j].state.segments@.len() == 0)
    }
}

/// Whether a validation error is the adoption of a failed structural
/// contract, in the same shape.
pub open spec fn validation_strict_failure(e: ValidationError, issues: Seq<KeyIssue>) -> bool {
    &&& e.state.segments@.len() == 0
    &&& if issues.len() == 1 {
        validation_matches_issue(e.kind, issues[0])
    } else {
        e.kind matches ValidationErrorKind::Multiple { errors: es } && es@.len() == issues.len()
            && (forall|j: int|
            0 <= j < issues.len() ==> validation_matches_issue(
                (#[trigger] es@[j]).kind,
                issues[j],
            ) && es@[j].state.segments@.len() == 0)
    }
}

/// Adopting a failed structural contract into the schema taxonomy keeps
/// its findings exactly.
pub proof fn lemma_strict_adoption_schema(g: GenericError, e: SchemaError, issues: Seq<KeyIssue>)
    requires
        issues.len() >= 1,
        crate::errors::schema_kind_of_generic(e.kind, g),
        e.state.segments@.len() == 0,
        issues.len() == 1 ==> generic_matches_issue(g, issues[0]),
        issues.len() > 1 ==> (g matches GenericError::Multiple { errors } && errors@.len()
            == issues.len() && (forall|j: int|
            0 <= j < issues.len() ==> generic_matches_issue(#[trigger] errors@[j], issues[j]))),
    ensures
        schema_strict_failure(e, issues),
{
    if issues.len() == 1 {
        match issues[0] {
            KeyIssue::Missing { field } => {},
            KeyIssue::WrongKey { actual } => {},
            KeyIssue::Extra { field } => {},
        }
    } else {
        let gs = g->Multiple_errors;
        let es = e.kind->Multiple_errors;
        assert forall|j: int| 0 <= j < issues.len() implies schema_matches_issue(
            (#[trigger] es@[j]).kind,
            issues[j],
        ) && es@[j].state.segments@.len() == 0 by {
            assert(generic_matches_issue(gs@[j], issues[j]));
            assert(crate::errors::schema_kind_of_generic(es@[j].kind, gs@[j]));
            match issues[j] {
                KeyIssue::Missing { field } => {},
                KeyIssue::WrongKey { actual } => {},
                KeyIssue::Extra { field } => {},
            }
        }
    }
}

/// Adopting a failed structural contract into the validation taxonomy
/// keeps its findings exactly.
pub proof fn lemma_strict_adoption_validation(
    g: GenericError,
    e: ValidationError,
    issues: Seq<KeyIssue>,
)
    requires
        issues.len() >= 1,
        crate::errors::validation_kind_of_generic(e.kind, g),
        e.state.segments@.len() == 0,
        issues.len() == 1 ==> generic_matches_issue(g, issues[0]),
        issues.len() > 1 ==> (g matches GenericError::Multiple { errors } && errors@.len()
            == issues.len() && (forall|j: int|
            0 <= j < issues.len() ==> generic_matches_issue(#[trigger] errors@[j], issues[j]))),
    ensures
        validation_strict_failure(e, issues),
{
    if issues.len() == 1 {
        match issues[0] {
            KeyIssue::Missing { field } => {},
            KeyIssue::WrongKey { actual } => {},
            KeyIssue::Extra { field } => {},
        }
    } else {
        let gs = g->Multiple_errors;
        let es = e.kind->Multiple_errors;
        assert forall|j: int| 0 <= j < issues.len() implies validation_matches_issue(
            (#[trigger] es@[j]).kind,
            issues[j],
        ) && es@[j].state.segments@.len() == 0 by {
            assert(generic_matches_issue(gs@[j], issues[j]));
            assert(crate::errors::validation_kind_of_generic(es@[j].kind, gs@[j]));
            match issues[j] {
                KeyIssue::Missing { field } => {},
                KeyIssue::WrongKey { actual } => {},
                KeyIssue::Extra { field } => {},
            }
        }
    }
}

/// Whether an optional count field is present but unusable: not an
/// integer, or out of the machine's count range.
pub open spec fn bad_count_field(yaml: Value, key: Seq<char>) -> bool {
    match yaml.field_of(key) {
        Some(v) => !(v matches Value::Int(n) && 0 <= n <= usize::MAX),
        None => false,
    }
}

/// The error an unusable count field produces: a wrong-type report for a
/// non-integer, the appropriate malformed-field message for an integer
/// out of range, each under the field's own name.
pub open spec fn count_field_error(e: SchemaError, yaml: Value, key: Seq<char>) -> bool {
    &&& e.state.segments@.len() == 1
    &&& crate::breadcrumb::is_name(e.state.segments@[0], key)
    &&& match yaml.field_of(key) {
        Some(Value::Int(n)) => if n < 0 {
            e.kind matches SchemaErrorKind::MalformedField { error } && error@
                == "must be a non-negative integer value"@
        } else {
            e.kind matches SchemaErrorKind::MalformedField { error } && error@
                == "value does not fit in a usize on this system"@
        },
        Some(v) => e.kind matches SchemaErrorKind::WrongType { expected, actual } && expected@
            == "integer"@ && actual@ == v.kind_name(),
        None => false,
    }
}

/// The required keys that the mapping lacks, in declaration order.
pub open spec fn missing_issues(required: Seq<Seq<char>>, entries: Seq<(Value, Value)>) -> Seq<
    KeyIssue,
>
    decreases required,
{
    if required.len() == 0 {
        Seq::empty()
    } else {
        missing_issues(required.drop_last(), entries) + (if has_key(entries, required.last()) {
            Seq::empty()
        } else {
            seq![KeyIssue::Missing { field: required.last() }]
        })
    }
}

/// The findings for one mapping entry: nothing when its key is a declared
/// string, a wrong-type finding for a non-string key, an extra-field
/// finding for an undeclared one.
pub open spec fn entry_issues(
    e: (Value, Value),
    required: Seq<Seq<char>>,
    optional: Seq<Seq<char>>,
) -> Seq<KeyIssue> {
    match e.0 {
        Value::Str(s) => if contains_str(required, s@) || contains_str(optional, s@) {
            Seq::empty()
        } else {
            seq![KeyIssue::Extra { field: s@ }]
        },
        _ => seq![KeyIssue::WrongKey { actual: e.0.kind_name() }],
    }
}

/// The findings over all mapping entries, in entry order.
pub open spec fn extra_issues(
    entries: Seq<(Value, Value)>,
    required: Seq<Seq<char>>,
    optional: Seq<Seq<char>>,
) -> Seq<KeyIssue>
    decreases entries,
{
    if entries.len() == 0 {
        Seq::empty()
    } else {
        extra_issues(entries.drop_last(), required, optional) + entry_issues(
            entries.last(),
            required,
            optional,
        )
    }
}

/// Every finding of the structural contract for a mapping, in reporting
/// order: the missing required keys first, then the findings per entry.
pub open spec fn contract_issues(
    entries: Seq<(Value, Value)>,
    required: Seq<Seq<char>>,
    optional: Seq<Seq<char>>,
) -> Seq<KeyIssue> {
    missing_issues(required, entries) + extra_issues(entries, required, optional)
}

/// Whether an entry's key is a string that the contract declares.
pub open spec fn declared_str_key(
    e: (Value, Value),
    required: Seq<Seq<char>>,
    optional: Seq<Seq<char>>,
) -> bool {
    match e.0 {
        Value::Str(k) => contains_str(required, k@) || contains_str(optional, k@),
        _ => false,
    }
}

/// Round-trip of strictness. The structural contract succeeds exactly
/// when every required key is present and every mapping key is a declared
/// string; otherwise its findings are exactly the missing required keys
/// and the unrecognized keys, no more and no fewer.
pub proof fn lemma_strict_contents_exact(
    entries: Seq<(Value, Value)>,
    required: Seq<Seq<char>>,
    optional: Seq<Seq<char>>,
)
    ensures
        contract_issues(entries, required, optional).len() == 0 <==> ((forall|i: int|
            0 <= i < required.len() ==> has_key(entries, #[trigger] required[i])) && (forall|
            j: int,
        |
            0 <= j < entries.len() ==> declared_str_key(#[trigger] entries[j], required, optional))),
        forall|i: int|
            0 <= i < required.len() && !has_key(entries, #[trigger] required[i])
                ==> contract_issues(entries, required, optional).contains(
                KeyIssue::Missing { field: required[i] },
            ),
        forall|j: int, k: Seq<char>|
            #![trigger key_matches(entries[j], k), contains_str(required, k)]
            0 <= j < entries.len() && key_matches(entries[j], k) && !contains_str(required, k)
                && !contains_str(optional, k) ==> contract_issues(entries, required, optional)
                .contains(KeyIssue::Extra { field: k }),
        forall|idx: int|
            0 <= idx < contract_issues(entries, required, optional).len() ==> (match #[trigger] contract_issues(
                entries,
                required,
                optional,
            )[idx] {
                KeyIssue::Missing { field } => contains_str(required, field) && !has_key(
                    entries,
                    field,
                ),
                KeyIssue::Extra { field } => !contains_str(required, field) && !contains_str(
                    optional,
                    field,
                ) && (exists|j: int|
                    0 <= j < entries.len() && key_matches(#[trigger] entries[j], field)),
                KeyIssue::WrongKey { actual } => exists|j: int|
                    0 <= j < entries.len() && !((#[trigger] entries[j]).0 is Str),
            }),
{
    lemma_missing_issues_exact(required, entries);
    lemma_extra_issues_exact(entries, required, optional);
    let ms = missing_issues(required, entries);
    let es = extra_issues(entries, required, optional);
    assert forall|i: int|
        0 <= i < required.len() && !has_key(entries, #[trigger] required[i]) implies contract_issues(
        entries,
        required,
        optional,
    ).contains(KeyIssue::Missing { field: required[i] }) by {
        let idx = choose|idx: int| 0 <= idx < ms.len() && ms[idx] == (KeyIssue::Missing {
            field: required[i],
        });
        assert(contract_issues(entries, required, optional)[idx] == ms[idx]);
    }
    assert forall|j: int, k: Seq<char>|
        #![trigger key_matches(entries[j], k), contains_str(required, k)]
        0 <= j < entries.len() && key_matches(entries[j], k) && !contains_str(required, k)
            && !contains_str(optional, k) implies contract_issues(entries, required, optional)
        .contains(KeyIssue::Extra { field: k }) by {
        let idx = choose|idx: int|
            0 <= idx < es.len() && es[idx] == (KeyIssue::Extra { field: k });
        assert(contract_issues(entries, required, optional)[ms.len() + idx] == es[idx]);
    }
    assert forall|idx: int|
        0 <= idx < contract_issues(entries, required, optional).len() implies (
    match #[trigger] contract_issues(entries, required, optional)[idx] {
        KeyIssue::Missing { field } => contains_str(required, field) && !has_key(entries, field),
        KeyIssue::Extra { field } => !contains_str(required, field) && !contains_str(
            optional,
            field,
        ) && (exists|j: int|
            0 <= j < entries.len() && key_matches(#[trigger] entries[j], field)),
        KeyIssue::WrongKey { actual } => exists|j: int|
            0 <= j < entries.len() && !((#[trigger] entries[j]).0 is Str),
    }) by {
        if idx < ms.len() {
            assert(contract_issues(entries, required, optional)[idx] == ms[idx]);
        } else {
            assert(contract_issues(entries, required, optional)[idx] == es[idx - ms.len()]);
        }
    }
}

/// The missing-key findings are exactly the required keys the mapping
/// lacks.
proof fn lemma_missing_issues_exact(required: Seq<Seq<char>>, entries: Seq<(Value, Value)>)
    ensures
        missing_issues(required, entries).len() == 0 <==> (forall|i: int|
            0 <= i < required.len() ==> has_key(entries, #[trigger] required[i])),
        forall|i: int|
            0 <= i < required.len() && !has_key(entries, #[trigger] required[i]) ==> (exists|
                idx: int,
            |
                0 <= idx < missing_issues(required, entries).len() && missing_issues(
                    required,
                    entries,
                )[idx] == (KeyIssue::Missing { field: required[i] })),
        forall|idx: int|
            0 <= idx < missing_issues(required, entries).len()
                ==> ((#[trigger] missing_issues(required, entries)[idx])
                matches KeyIssue::Missing { field } && contains_str(required, field) && !has_key(
                entries,
                field,
            )),
    decreases required,
{
    if required.len() > 0 {
        let rest = required.drop_last();
        let cur = required.last();
        let ms = missing_issues(required, entries);
        let msr = missing_issues(rest, entries);
        lemma_missing_issues_exact(rest, entries);
        assert forall|i: int| 0 <= i < rest.len() implies rest[i] == required[i] by {}
        assert forall|idx: int| 0 <= idx < msr.len() implies ms[idx] == msr[idx] by {}
        if ms.len() == 0 {
            assert forall|i: int| 0 <= i < required.len() implies has_key(
                entries,
                #[trigger] required[i],
            ) by {
                if i < rest.len() {
                    assert(has_key(entries, rest[i]));
                } else {
                    assert(required[i] == cur);
                }
            }
        }
        if forall|i: int| 0 <= i < required.len() ==> has_key(entries, #[trigger] required[i]) {
            assert forall|i: int| 0 <= i < rest.len() implies has_key(
                entries,
                #[trigger] rest[i],
            ) by {
                assert(rest[i] == required[i]);
            }
            assert(has_key(entries, required[required.len() - 1]));
            assert(ms.len() == 0);
        }
        assert forall|i: int|
            0 <= i < required.len() && !has_key(entries, #[trigger] required[i]) implies (exists|
            idx: int,
        |
            0 <= idx < ms.len() && ms[idx] == (KeyIssue::Missing { field: required[i] })) by {
            if i < rest.len() {
                let idx = choose|idx: int|
                    0 <= idx < msr.len() && msr[idx] == (KeyIssue::Missing { field: rest[i] });
                assert(ms[idx] == (KeyIssue::Missing { field: required[i] }));
            } else {
                assert(required[i] == cur);
                assert(ms[msr.len() as int] == (KeyIssue::Missing { field: cur }));
            }
        }
        assert forall|idx: int| 0 <= idx < ms.len() implies ((#[trigger] ms[idx])
            matches KeyIssue::Missing { field } && contains_str(required, field) && !has_key(
            entries,
            field,
        )) by {
            if idx < msr.len() {
                let fld = msr[idx]->Missing_field;
                let i0 = choose|i0: int| 0 <= i0 < rest.len() && rest[i0] == fld;
                assert(required[i0] == fld);
            } else {
                assert(ms[idx] == (KeyIssue::Missing { field: cur }));
                assert(required[required.len() - 1] == cur);
            }
        }
    }
}

/// The per-entry findings are exactly the non-string keys and the
/// undeclared string keys.
proof fn lemma_extra_issues_exact(
    entries: Seq<(Value, Value)>,
    required: Seq<Seq<char>>,
    optional: Seq<Seq<char>>,
)
    ensures
        extra_issues(entries, required, optional).len() == 0 <==> (forall|j: int|
            0 <= j < entries.len() ==> declared_str_key(#[trigger] entries[j], required, optional)),
        forall|j: int, k: Seq<char>|
            #![trigger key_matches(entries[j], k), contains_str(required, k)]
            0 <= j < entries.len() && key_matches(entries[j], k) && !contains_str(required, k)
                && !contains_str(optional, k) ==> (exists|idx: int|
                0 <= idx < extra_issues(entries, required, optional).len() && extra_issues(
                    entries,
                    required,
                    optional,
                )[idx] == (KeyIssue::Extra { field: k })),
        forall|idx: int|
            0 <= idx < extra_issues(entries, required, optional).len()
                ==> (match #[trigger] extra_issues(entries, required, optional)[idx] {
                KeyIssue::Missing { field } => false,
                KeyIssue::Extra { field } => !contains_str(required, field) && !contains_str(
                    optional,
                    field,
                ) && (exists|j: int|
                    0 <= j < entries.len() && key_matches(#[trigger] entries[j], field)),
                KeyIssue::WrongKey { actual } => exists|j: int|
                    0 <= j < entries.len() && !((#[trigger] entries[j]).0 is Str),
            }),
    decreases entries,
{
    if entries.len() > 0 {
        let rest = entries.drop_last();
        let last = entries.last();
        let es = extra_issues(entries, required, optional);
        let esr = extra_issues(rest, required, optional);
        lemma_extra_issues_exact(rest, required, optional);
        assert forall|j: int| 0 <= j < rest.len() implies rest[j] == entries[j] by {}
        assert forall|idx: int| 0 <= idx < esr.len() implies es[idx] == esr[idx] by {}
        assert(entries[entries.len() - 1] == last);
        if es.len() == 0 {
            assert forall|j: int| 0 <= j < entries.len() implies declared_str_key(
                #[trigger] entries[j],
                required,
                optional,
            ) by {
                if j < rest.len() {
                    assert(declared_str_key(rest[j], required, optional));
                } else {
                    assert(entries[j] == last);
                    assert(entry_issues(last, required, optional).len() == 0);
                }
            }
        }
        if forall|j: int| 0 <= j < entries.len() ==> declared_str_key(
            #[trigger] entries[j],
            required,
            optional,
        ) {
            assert forall|j: int| 0 <= j < rest.len() implies declared_str_key(
                #[trigger] rest[j],
                required,
                optional,
            ) by {
                assert(rest[j] == entries[j]);
            }
            assert(declared_str_key(entries[entries.len() - 1], required, optional));
            assert(entry_issues(last, required, optional).len() == 0);
            assert(es.len() == 0);
        }
        assert forall|j: int, k: Seq<char>|
            #![trigger key_matches(entries[j], k), contains_str(required, k)]
            0 <= j < entries.len() && key_matches(entries[j], k) && !contains_str(required, k)
                && !contains_str(optional, k) implies (exists|idx: int|
            0 <= idx < es.len() && es[idx] == (KeyIssue::Extra { field: k })) by {
            if j < rest.len() {
                assert(key_matches(rest[j], k));
                let idx = choose|idx: int|
                    0 <= idx < esr.len() && esr[idx] == (KeyIssue::Extra { field: k });
                assert(es[idx] == (KeyIssue::Extra { field: k }));
            } else {
                assert(entries[j] == last);
                assert(entry_issues(last, required, optional) =~= seq![
                    KeyIssue::Extra { field: k },
                ]);
                assert(es[esr.len() as int] == (KeyIssue::Extra { field: k }));
            }
        }
        assert forall|idx: int| 0 <= idx < es.len() implies (match #[trigger] es[idx] {
            KeyIssue::Missing { field } => false,
            KeyIssue::Extra { field } => !contains_str(required, field) && !contains_str(
                optional,
                field,
            ) && (exists|j: int|
                0 <= j < entries.len() && key_matches(#[trigger] entries[j], field)),
            KeyIssue::WrongKey { actual } => exists|j: int|
                0 <= j < entries.len() && !((#[trigger] entries[j]).0 is Str),
        }) by {
            if idx < esr.len() {
                match esr[idx] {
                    KeyIssue::Extra { field } => {
                        let j0 = choose|j0: int|
                            0 <= j0 < rest.len() && key_matches(#[trigger] rest[j0], field);
                        assert(key_matches(entries[j0], field));
                    },
                    KeyIssue::WrongKey { actual } => {
                        let j0 = choose|j0: int|
                            0 <= j0 < rest.len() && !((#[trigger] rest[j0]).0 is Str);
                        assert(!(entries[j0].0 is Str));
                    },
                    _ => {},
                }
            } else {
                let j1 = entries.len() - 1;
                match es[idx] {
                    KeyIssue::Extra { field } => {
                        assert(key_matches(entries[j1], field));
                    },
                    KeyIssue::WrongKey { actual } => {
                        assert(!(entries[j1].0 is Str));
                    },
                    _ => {},
                }
            }
        }
    }
}

/// Whether a list of keys occurs in a string list.
fn contains_string(list: &Vec<String>, s: &String) -> (r: bool)
    ensures
        r == contains_str(names_of(list@), s@),
{
    let n = list.len();
    let mut i: usize = 0;
    while i < n
        invariant
            0 <= i <= n,
            n == list@.len(),
            forall|j: int| 0 <= j < i ==> names_of(list@)[j] != s@,
        decreases n - i,
    {
        if list[i] == *s {
            assert(names_of(list@)[i as int] == s@);
            return true;
        }
        assert(names_of(list@)[i as int] == list@[i as int]@);
        i = i + 1;
    }
    false
}

impl Value {
    /// The value under `field`, where an absent, null, or unrepresentable
    /// entry all count as missing, and a node that is not a mapping has no
    /// fields at all.
    pub open spec fn field_of(self, key: Seq<char>) -> Option<Value> {
        match self {
            Value::Hash(entries) => match map_get(entries@, key) {
                Some(v) => if v is Null || v is Bad {
                    None
                } else {
                    Some(v)
                },
                None => None,
            },
            _ => None,
        }
    }

    /// Looks up an optional field: absent, null and unrepresentable values
    /// are all reported as absent.
    pub fn lookup_opt<'a>(&'a self, field: &String) -> (r: Option<&'a Value>)
        ensures
            match r {
                Some(v) => self.field_of(field@) == Some(*v),
                None => self.field_of(field@) is None,
            },
    {
        match self {
            Value::Hash(entries) => match crate::value::entries_get(entries, field) {
                Some(v) => match v {
                    Value::Null => None,
                    Value::Bad => None,
                    _ => Some(v),
                },
                None => None,
            },
            _ => None,
        }
    }

    /// Checks this node against a structural contract: it must be a
    /// mapping, hold every required key, and hold no key beyond the
    /// required and optional ones. All findings are reported together, not
    /// only the first.
    pub fn strict_contents<'a>(&'a self, required: &Vec<String>, optional: &Vec<String>) -> (r:
        Result<&'a Vec<(Value, Value)>, GenericError>)
        ensures
            !(self is Hash) ==> (r matches Err(g) && g matches GenericError::WrongType {
                expected,
                actual,
            } && expected@ == "hash"@ && actual@ == self.kind_name()),
            self matches Value::Hash(entries) ==> {
                let issues = contract_issues(entries@, names_of(required@), names_of(optional@));
                &&& (issues.len() == 0 <==> r is Ok)
                &&& (r matches Ok(es) && *es == entries)
                    <== r is Ok
                &&& (issues.len() == 1 ==> (r matches Err(g) && generic_matches_issue(
                    g,
                    issues[0],
                )))
                &&& (issues.len() > 1 ==> (r matches Err(g) && g
                    matches GenericError::Multiple { errors } && errors@.len() == issues.len() && (
                forall|j: int|
                    0 <= j < issues.len() ==> generic_matches_issue(
                        #[trigger] errors@[j],
                        issues[j],
                    ))))
            },
    {
        let entries = match self {
            Value::Hash(entries) => entries,
            _ => {
                return Err(
                    GenericError::WrongType {
                        expected: String::from_str("hash"),
                        actual: String::from_str(self.type_to_str()),
                    },
                );
            },
        };
        let ghost req_names = names_of(required@);
        let ghost opt_names = names_of(optional@);
        let mut issues: Vec<GenericError> = Vec::new();
        let nreq = required.len();
        let mut i: usize = 0;
        while i < nreq
            invariant
                0 <= i <= nreq,
                nreq == required@.len(),
                req_names == names_of(required@),
                opt_names == names_of(optional@),
                issues@.len() == missing_issues(req_names.subrange(0, i as int), entries@).len(),
                forall|j: int|
                    0 <= j < issues@.len() ==> generic_matches_issue(
                        #[trigger] issues@[j],
                        missing_issues(req_names.subrange(0, i as int), entries@)[j],
                    ),
            decreases nreq - i,
        {
            let ghost prefix = req_names.subrange(0, i as int);
            let ghost next = req_names.subrange(0, i as int + 1);
            proof {
                assert(next.drop_last() =~= prefix);
                assert(next.last() == req_names[i as int]);
                assert(req_names[i as int] == required@[i as int]@);
            }
            let present = crate::value::entries_get(entries, &required[i]).is_some();
            if !present {
                issues.push(GenericError::FieldMissing { field: required[i].clone() });
            }
            i = i + 1;
        }
        proof {
            assert(req_names.subrange(0, nreq as int) =~= req_names);
        }
        let ghost missing_part = missing_issues(req_names, entries@);
        let nent = entries.len();
        let mut k: usize = 0;
        while k < nent
            invariant
                0 <= k <= nent,
                nent == entries@.len(),
                req_names == names_of(required@),
                opt_names == names_of(optional@),
                missing_part == missing_issues(req_names, entries@),
                issues@.len() == missing_part.len() + extra_issues(
                    entries@.subrange(0, k as int),
                    req_names,
                    opt_names,
                ).len(),
                forall|j: int|
                    0 <= j < issues@.len() ==> generic_matches_issue(
                        #[trigger] issues@[j],
                        (missing_part + extra_issues(
                            entries@.subrange(0, k as int),
                            req_names,
                            opt_names,
                        ))[j],
                    ),
            decreases nent - k,
        {
            let ghost prefix = entries@.subrange(0, k as int);
            let ghost next = entries@.subrange(0, k as int + 1);
            proof {
                assert(next.drop_last() =~= prefix);
                assert(next.last() == entries@[k as int]);
            }
            match &entries[k].0 {
                Value::Str(s) => {
                    if !contains_string(required, s) && !contains_string(optional, s) {
                        issues.push(GenericError::ExtraField { field: s.clone() });
                    }
                },
                other => {
                    issues.push(
                        GenericError::WrongType {
                            expected: String::from_str("string"),
                            actual: String::from_str(other.type_to_str()),
                        },
                    );
                },
            }
            k = k + 1;
        }
        proof {
            assert(entries@.subrange(0, nent as int) =~= entries@);
        }
        if issues.len() == 0 {
            Ok(entries)
        } else if issues.len() == 1 {
            let mut issues = issues;
            let e = issues.pop().unwrap();
            Err(e)
        } else {
            Err(GenericError::Multiple { errors: issues })
        }
    }

    /// Checks that at most one of two mutually exclusive keys is present
    /// in this mapping.
    pub fn check_exclusive_fields(&self, first: &String, second: &String) -> (r: Result<
        (),
        SchemaError,
    >)
        ensures
            !(self is Hash) ==> (r matches Err(e) && e.kind matches SchemaErrorKind::WrongType {
                expected,
                actual,
            } && expected@ == "hash"@ && actual@ == self.kind_name()),
            self matches Value::Hash(entries) ==> {
                let conflict = has_key(entries@, first@) && has_key(entries@, second@);
                &&& (r is Ok <==> !conflict)
                &&& (conflict ==> (r matches Err(e) && e.kind
                    matches SchemaErrorKind::MalformedField { error } && error@ == (
                "conflicting constraints: "@ + first@ + ", "@ + second@
                    + " cannot be used at the same time"@) && e.state.segments@.len() == 0))
            },
    {
        let entries = match self {
            Value::Hash(entries) => entries,
            _ => {
                return Err(
                    SchemaErrorKind::WrongType {
                        expected: String::from_str("hash"),
                        actual: String::from_str(self.type_to_str()),
                    }.into_error(),
                );
            },
        };
        let first_present = crate::value::entries_get(entries, first).is_some();
        let second_present = crate::value::entries_get(entries, second).is_some();
        if first_present && second_present {
            let msg = String::from_str("conflicting constraints: ").concat(first.as_str()).concat(
                ", ",
            ).concat(second.as_str()).concat(" cannot be used at the same time");
            return Err(SchemaErrorKind::MalformedField { error: msg }.into_error());
        }
        Ok(())
    }
}

} // verus!
