//! The two error taxonomies of the engine: schema-compilation errors and
//! document-validation errors. They never mix, but share the breadcrumb
//! mechanism and the aggregation scheme in which independent sibling
//! failures are collected into one `Multiple` node instead of stopping at
//! the first.
use vstd::prelude::*;

use crate::breadcrumb::{Breadcrumb, BreadcrumbSegment};

verus! {

/// The error of a single field lookup or structural check, before it is
/// adopted into one of the two taxonomies.
#[derive(Debug, PartialEq, Eq)]
pub enum GenericError {
    WrongType { expected: String, actual: String },
    FieldMissing { field: String },
    ExtraField { field: String },
    MalformedField { error: String },
    Multiple { errors: Vec<GenericError> },
}

/// What can go wrong while compiling a schema document.
#[derive(Debug, PartialEq, Eq)]
pub enum SchemaErrorKind {
    WrongType { expected: String, actual: String },
    MalformedField { error: String },
    ValidationError { error: String },
    FieldMissing { field: String },
    ExtraField { field: String },
    UnknownType { unknown_type: String },
    Multiple { errors: Vec<SchemaError> },
    UnknownSchema { uri: String },
}

/// A schema-compilation error kind with the path at which it occurred.
#[derive(Debug, PartialEq, Eq)]
pub struct SchemaError {
    pub kind: SchemaErrorKind,
    pub state: Breadcrumb,
}

/// What can go wrong while validating a document against a schema.
#[derive(Debug, PartialEq, Eq)]
pub enum ValidationErrorKind {
    WrongType { expected: String, actual: String },
    ValidationError { error: String },
    FieldMissing { field: String },
    ExtraField { field: String },
    Multiple { errors: Vec<ValidationError> },
    UnknownSchema { uri: String },
    RecursionLimit { uri: String },
}

/// A document-validation error kind with the path at which it occurred.
#[derive(Debug, PartialEq, Eq)]
pub struct ValidationError {
    pub kind: ValidationErrorKind,
    pub state: Breadcrumb,
}

impl SchemaErrorKind {
    /// Wraps this kind with an empty path.
    pub fn into_error(self) -> (r: SchemaError)
        ensures
            r.kind == self,
            r.state.segments@.len() == 0,
    {
        SchemaError { kind: self, state: Breadcrumb::new() }
    }

    /// Wraps this kind with a one-segment path naming a field.
    pub fn with_path_name(self, path: String) -> (r: SchemaError)
        ensures
            r.kind == self,
            r.state.segments@.len() == 1,
            r.state.segments@[0] == (BreadcrumbSegment::Name(path)),
    {
        let mut err = self.into_error();
        err.state.push(BreadcrumbSegment::Name(path));
        err
    }

    /// Wraps this kind with a one-segment path holding an index.
    pub fn with_path_index(self, index: usize) -> (r: SchemaError)
        ensures
            r.kind == self,
            r.state.segments@.len() == 1,
            r.state.segments@[0] == (BreadcrumbSegment::Index(index)),
    {
        let mut err = self.into_error();
        err.state.push(BreadcrumbSegment::Index(index));
        err
    }
}

impl SchemaError {
    /// Pushes a field name onto this error's path.
    pub fn add_path_name(self, path: String) -> (r: SchemaError)
        ensures
            r.kind == self.kind,
            r.state.segments@ == self.state.segments@.push(BreadcrumbSegment::Name(path)),
    {
        let mut err = self;
        err.state.push(BreadcrumbSegment::Name(path));
        err
    }

    /// Pushes an element index onto this error's path.
    pub fn add_path_index(self, index: usize) -> (r: SchemaError)
        ensures
            r.kind == self.kind,
            r.state.segments@ == self.state.segments@.push(BreadcrumbSegment::Index(index)),
    {
        let mut err = self;
        err.state.push(BreadcrumbSegment::Index(index));
        err
    }
}

impl ValidationErrorKind {
    /// Wraps this kind with an empty path.
    pub fn into_error(self) -> (r: ValidationError)
        ensures
            r.kind == self,
            r.state.segments@.len() == 0,
    {
        ValidationError { kind: self, state: Breadcrumb::new() }
    }

    /// Wraps this kind with a one-segment path naming a field.
    pub fn with_path_name(self, path: String) -> (r: ValidationError)
        ensures
            r.kind == self,
            r.state.segments@.len() == 1,
            r.state.segments@[0] == (BreadcrumbSegment::Name(path)),
    {
        let mut err = self.into_error();
        err.state.push(BreadcrumbSegment::Name(path));
        err
    }

    /// Wraps this kind with a one-segment path holding an index.
    pub fn with_path_index(self, index: usize) -> (r: ValidationError)
        ensures
            r.kind == self,
            r.state.segments@.len() == 1,
            r.state.segments@[0] == (BreadcrumbSegment::Index(index)),
    {
        let mut err = self.into_error();
        err.state.push(BreadcrumbSegment::Index(index));
        err
    }
}

impl ValidationError {
    /// Pushes a field name onto this error's path.
    pub fn add_path_name(self, path: String) -> (r: ValidationError)
        ensures
            r.kind == self.kind,
            r.state.segments@ == self.state.segments@.push(BreadcrumbSegment::Name(path)),
    {
        let mut err = self;
        err.state.push(BreadcrumbSegment::Name(path));
        err
    }

    /// Pushes an element index onto this error's path.
    pub fn add_path_index(self, index: usize) -> (r: ValidationError)
        ensures
            r.kind == self.kind,
            r.state.segments@ == self.state.segments@.push(BreadcrumbSegment::Index(index)),
    {
        let mut err = self;
        err.state.push(BreadcrumbSegment::Index(index));
        err
    }
}





/// Condenses a list of schema errors: none means success, one is returned
/// as it stands, several are wrapped into a `Multiple` with an empty path.
pub fn condense_schema_errors(errors: Vec<SchemaError>) -> (r: Result<(), SchemaError>)
    ensures
        errors@.len() == 0 <==> r is Ok,
        errors@.len() == 1 ==> r == Result::<(), SchemaError>::Err(errors@[0]),
        errors@.len() > 1 ==> (r matches Err(e) && e.kind matches SchemaErrorKind::Multiple {
            errors: es,
        } && es@ == errors@ && e.state.segments@.len() == 0),
{
    if errors.len() == 0 {
        Ok(())
    } else if errors.len() == 1 {
        let mut errors = errors;
        let e = errors.pop().unwrap();
        Err(e)
    } else {
        Err(SchemaErrorKind::Multiple { errors }.into_error())
    }
}

/// Condenses a list of validation errors in the same way.
pub fn condense_validation_errors(errors: Vec<ValidationError>) -> (r: Result<
    (),
    ValidationError,
>)
    ensures
        errors@.len() == 0 <==> r is Ok,
        errors@.len() == 1 ==> r == Result::<(), ValidationError>::Err(errors@[0]),
        errors@.len() > 1 ==> (r matches Err(e) && e.kind
            matches ValidationErrorKind::Multiple { errors: es } && es@ == errors@
            && e.state.segments@.len() == 0),
{
    if errors.len() == 0 {
        Ok(())
    } else if errors.len() == 1 {
        let mut errors = errors;
        let e = errors.pop().unwrap();
        Err(e)
    } else {
        Err(ValidationErrorKind::Multiple { errors }.into_error())
    }
}

/// The decimal digits of `n`, most significant first.
pub open spec fn dec_str(n: nat) -> Seq<char>
    decreases n,
{
    if n < 10 {
        seq![digit_char(n)]
    } else {
        dec_str(n / 10) + seq![digit_char(n % 10)]
    }
}

/// The character for one decimal digit.
pub open spec fn digit_char(d: nat) -> char {
    if d == 0 {
        '0'
    } else if d == 1 {
        '1'
    } else if d == 2 {
        '2'
    } else if d == 3 {
        '3'
    } else if d == 4 {
        '4'
    } else if d == 5 {
        '5'
    } else if d == 6 {
        '6'
    } else if d == 7 {
        '7'
    } else if d == 8 {
        '8'
    } else {
        '9'
    }
}

/// One path segment as displayed: `.name` for a field, `[n]` for an
/// index.
pub open spec fn segment_str(s: BreadcrumbSegment) -> Seq<char> {
    match s {
        BreadcrumbSegment::Name(n) => seq!['.'] + n@,
        BreadcrumbSegment::Index(i) => seq!['['] + dec_str(i as nat) + seq![']'],
    }
}

/// A whole path as displayed: segments are stored leaf-to-root, so the
/// display walks them from the last pushed to the first.
pub open spec fn crumbs_str(segs: Seq<BreadcrumbSegment>) -> Seq<char>
    decreases segs,
{
    if segs.len() == 0 {
        Seq::empty()
    } else {
        segment_str(segs.last()) + crumbs_str(segs.drop_last())
    }
}

/// The message of a leaf schema error.
pub open spec fn schema_kind_msg(k: SchemaErrorKind) -> Seq<char> {
    match k {
        SchemaErrorKind::WrongType { expected, actual } => "wrong type, expected "@ + expected@
            + " got "@ + actual@,
        SchemaErrorKind::MalformedField { error } => "malformed field: "@ + error@,
        SchemaErrorKind::ValidationError { error } => "special requirements for field not met: "@
            + error@,
        SchemaErrorKind::FieldMissing { field } => "field '"@ + field@ + "' missing"@,
        SchemaErrorKind::ExtraField { field } => "field '"@ + field@
            + "' is not specified in the schema"@,
        SchemaErrorKind::UnknownType { unknown_type } => "unknown type specified: "@
            + unknown_type@,
        SchemaErrorKind::UnknownSchema { uri } => "schema '"@ + uri@ + "' references was not found"@,
        SchemaErrorKind::Multiple { errors } => Seq::empty(),
    }
}

/// The message of a leaf validation error.
pub open spec fn validation_kind_msg(k: ValidationErrorKind) -> Seq<char> {
    match k {
        ValidationErrorKind::WrongType { expected, actual } => "wrong type, expected "@
            + expected@ + " got "@ + actual@,
        ValidationErrorKind::ValidationError { error } => "special requirements for field not met: "@
            + error@,
        ValidationErrorKind::FieldMissing { field } => "field '"@ + field@ + "' missing"@,
        ValidationErrorKind::ExtraField { field } => "field '"@ + field@
            + "' is not specified in the schema"@,
        ValidationErrorKind::UnknownSchema { uri } => "schema '"@ + uri@
            + "' references was not found"@,
        ValidationErrorKind::RecursionLimit { uri } => "schema '"@ + uri@
            + "' reference depth limit reached"@,
        ValidationErrorKind::Multiple { errors } => Seq::empty(),
    }
}

/// The report of a schema error below an accumulated path prefix: a
/// `Multiple` node appends its own path to the prefix and recurses, a leaf
/// emits one line `<prefix><path>: <message>` with a trailing newline.
pub open spec fn schema_report_str(e: SchemaError, root: Seq<char>) -> Seq<char>
    decreases e, 1nat,
{
    match e.kind {
        SchemaErrorKind::Multiple { errors } => schema_reports_str(
            errors@,
            root + crumbs_str(e.state.segments@),
        ),
        _ => root + crumbs_str(e.state.segments@) + ": "@ + schema_kind_msg(e.kind) + "\n"@,
    }
}

/// The concatenated reports of a list of schema errors, in order.
pub open spec fn schema_reports_str(s: Seq<SchemaError>, root: Seq<char>) -> Seq<char>
    decreases s, 0nat,
{
    if s.len() == 0 {
        Seq::empty()
    } else {
        schema_reports_str(s.drop_last(), root) + schema_report_str(s.last(), root)
    }
}

/// The report of a validation error below an accumulated path prefix.
pub open spec fn validation_report_str(e: ValidationError, root: Seq<char>) -> Seq<char>
    decreases e, 1nat,
{
    match e.kind {
        ValidationErrorKind::Multiple { errors } => validation_reports_str(
            errors@,
            root + crumbs_str(e.state.segments@),
        ),
        _ => root + crumbs_str(e.state.segments@) + ": "@ + validation_kind_msg(e.kind) + "\n"@,
    }
}

/// The concatenated reports of a list of validation errors, in order.
pub open spec fn validation_reports_str(s: Seq<ValidationError>, root: Seq<char>) -> Seq<char>
    decreases s, 0nat,
{
    if s.len() == 0 {
        Seq::empty()
    } else {
        validation_reports_str(s.drop_last(), root) + validation_report_str(s.last(), root)
    }
}

/// Whether a schema-error kind carries the same content as a lookup error,
/// with every nested error's path empty.
pub open spec fn schema_kind_of_generic(k: SchemaErrorKind, g: GenericError) -> bool
    decreases g,
{
    match g {
        GenericError::WrongType { expected, actual } => k matches SchemaErrorKind::WrongType {
            expected: e2,
            actual: a2,
        } && e2@ == expected@ && a2@ == actual@,
        GenericError::FieldMissing { field } => k matches SchemaErrorKind::FieldMissing {
            field: f2,
        } && f2@ == field@,
        GenericError::ExtraField { field } => k matches SchemaErrorKind::ExtraField { field: f2 }
            && f2@ == field@,
        GenericError::MalformedField { error } => k matches SchemaErrorKind::MalformedField {
            error: e2,
        } && e2@ == error@,
        GenericError::Multiple { errors } => k matches SchemaErrorKind::Multiple { errors: es }
            && es@.len() == errors@.len() && (forall|i: int|
            0 <= i < es@.len() ==> schema_kind_of_generic(
                (#[trigger] es@[i]).kind,
                errors@[i],
            ) && es@[i].state.segments@.len() == 0),
    }
}

/// Whether a validation-error kind carries the same content as a lookup
/// error, with every nested error's path empty.
pub open spec fn validation_kind_of_generic(k: ValidationErrorKind, g: GenericError) -> bool
    decreases g,
{
    match g {
        GenericError::WrongType { expected, actual } => k
            matches ValidationErrorKind::WrongType { expected: e2, actual: a2 } && e2@ == expected@
            && a2@ == actual@,
        GenericError::FieldMissing { field } => k matches ValidationErrorKind::FieldMissing {
            field: f2,
        } && f2@ == field@,
        GenericError::ExtraField { field } => k matches ValidationErrorKind::ExtraField {
            field: f2,
        } && f2@ == field@,
        GenericError::MalformedField { error } => k
            matches ValidationErrorKind::ValidationError { error: e2 } && e2@ == error@,
        GenericError::Multiple { errors } => k matches ValidationErrorKind::Multiple {
            errors: es,
        } && es@.len() == errors@.len() && (forall|i: int|
            0 <= i < es@.len() ==> validation_kind_of_generic(
                (#[trigger] es@[i]).kind,
                errors@[i],
            ) && es@[i].state.segments@.len() == 0),
    }
}

/// One decimal digit as text.
fn digit_str(d: usize) -> (r: &'static str)
    requires
        d < 10,
    ensures
        r@ == seq![digit_char(d as nat)],
{
    proof {
        reveal_strlit("0");
        reveal_strlit("1");
        reveal_strlit("2");
        reveal_strlit("3");
        reveal_strlit("4");
        reveal_strlit("5");
        reveal_strlit("6");
        reveal_strlit("7");
        reveal_strlit("8");
        reveal_strlit("9");
    }
    let r = if d == 0 {
        "0"
    } else if d == 1 {
        "1"
    } else if d == 2 {
        "2"
    } else if d == 3 {
        "3"
    } else if d == 4 {
        "4"
    } else if d == 5 {
        "5"
    } else if d == 6 {
        "6"
    } else if d == 7 {
        "7"
    } else if d == 8 {
        "8"
    } else {
        "9"
    };
    proof {
        assert(r@ =~= seq![digit_char(d as nat)]);
    }
    r
}

/// A number in decimal.
fn dec_string(n: usize) -> (r: String)
    ensures
        r@ == dec_str(n as nat),
    decreases n,
{
    if n < 10 {
        let r = String::from_str(digit_str(n));
        proof {
            assert(r@ =~= dec_str(n as nat));
        }
        r
    } else {
        let mut r = dec_string(n / 10);
        r.append(digit_str(n % 10));
        proof {
            assert(r@ =~= dec_str(n as nat));
        }
        r
    }
}

/// Displaying a path consumes its segments from the front of the stored
/// order onto the end of the output.
proof fn lemma_crumbs_front(s: Seq<BreadcrumbSegment>)
    requires
        s.len() > 0,
    ensures
        crumbs_str(s) == crumbs_str(s.drop_first()) + segment_str(s[0]),
    decreases s.len(),
{
    if s.len() == 1 {
        assert(s.drop_first() =~= Seq::<BreadcrumbSegment>::empty());
        assert(s.drop_last() =~= Seq::<BreadcrumbSegment>::empty());
        assert(s.last() == s[0]);
        assert(crumbs_str(s) =~= crumbs_str(s.drop_first()) + segment_str(s[0]));
    } else {
        let dl = s.drop_last();
        let df = s.drop_first();
        lemma_crumbs_front(dl);
        assert(dl.drop_first() =~= df.drop_last());
        assert(dl[0] == s[0]);
        assert(df.last() == s.last());
        assert(crumbs_str(s) == segment_str(s.last()) + crumbs_str(dl));
        assert(crumbs_str(dl) == crumbs_str(df.drop_last()) + segment_str(s[0]));
        assert(crumbs_str(df) == segment_str(s.last()) + crumbs_str(df.drop_last()));
        assert(crumbs_str(s) =~= crumbs_str(df) + segment_str(s[0]));
    }
}

/// A path as displayed, root to leaf.
fn crumb_string(b: &Breadcrumb) -> (r: String)
    ensures
        r@ == crumbs_str(b.segments@),
{
    let mut r = String::new();
    let n = b.segments.len();
    let mut i: usize = n;
    proof {
        assert(b.segments@.subrange(n as int, n as int) =~= Seq::<BreadcrumbSegment>::empty());
    }
    while i > 0
        invariant
            0 <= i <= n,
            n == b.segments@.len(),
            r@ == crumbs_str(b.segments@.subrange(i as int, n as int)),
        decreases i,
    {
        let ghost before = b.segments@.subrange(i as int, n as int);
        let ghost after = b.segments@.subrange(i as int - 1, n as int);
        proof {
            lemma_crumbs_front(after);
            assert(after.drop_first() =~= before);
            assert(after[0] == b.segments@[i as int - 1]);
            reveal_strlit(".");
            reveal_strlit("[");
            reveal_strlit("]");
        }
        match &b.segments[i - 1] {
            BreadcrumbSegment::Name(nm) => {
                r.append(".");
                r.append(nm.as_str());
                proof {
                    assert(r@ =~= crumbs_str(after));
                }
            },
            BreadcrumbSegment::Index(idx) => {
                let num = dec_string(*idx);
                r.append("[");
                r.append(num.as_str());
                r.append("]");
                proof {
                    assert(r@ =~= crumbs_str(after));
                }
            },
        }
        i = i - 1;
    }
    proof {
        assert(b.segments@.subrange(0, n as int) =~= b.segments@);
    }
    r
}

impl SchemaError {
    /// The full report of this error tree: one line per leaf, each of the
    /// form `#<path>: <message>`, with nested paths accumulated outside
    /// in.
    pub fn report(&self) -> (r: String)
        ensures
            r@ == schema_report_str(*self, "#"@),
    {
        let root = String::from_str("#");
        self.report_with(&root)
    }

    /// The report of this error below an accumulated path prefix.
    fn report_with(&self, root: &String) -> (r: String)
        ensures
            r@ == schema_report_str(*self, root@),
        decreases *self,
    {
        let path = crumb_string(&self.state);
        match &self.kind {
            SchemaErrorKind::Multiple { errors } => {
                let prefix = root.clone().concat(path.as_str());
                let mut out = String::new();
                let n = errors.len();
                let mut i: usize = 0;
                proof {
                    assert(errors@.subrange(0, 0) =~= Seq::<SchemaError>::empty());
                }
                while i < n
                    invariant
                        0 <= i <= n,
                        n == errors@.len(),
                        self.kind matches SchemaErrorKind::Multiple { errors: ev } && ev
                            == *errors,
                        prefix@ == root@ + crumbs_str(self.state.segments@),
                        out@ == schema_reports_str(errors@.subrange(0, i as int), prefix@),
                    decreases n - i,
                {
                    let ghost prev = errors@.subrange(0, i as int);
                    let ghost next = errors@.subrange(0, i as int + 1);
                    proof {
                        assert(next.drop_last() =~= prev);
                        assert(next.last() == errors@[i as int]);
                        assert(decreases_to!(*self => self.kind));
                        assert(decreases_to!(self.kind => *errors));
                        assert(decreases_to!(*errors => errors@));
                        assert(decreases_to!(errors@ => errors@[i as int]));
                    }
                    let piece = errors[i].report_with(&prefix);
                    out.append(piece.as_str());
                    i = i + 1;
                }
                proof {
                    assert(errors@.subrange(0, n as int) =~= errors@);
                }
                out
            },
            _ => {
                let mut out = root.clone();
                out.append(path.as_str());
                out.append(": ");
                let msg = schema_kind_message(&self.kind);
                out.append(msg.as_str());
                out.append("\n");
                proof {
                    reveal_strlit(": ");
                    reveal_strlit("\n");
                    assert(out@ =~= schema_report_str(*self, root@));
                }
                out
            },
        }
    }
}

impl ValidationError {
    /// The full report of this error tree: one line per leaf, each of the
    /// form `#<path>: <message>`, with nested paths accumulated outside
    /// in.
    pub fn report(&self) -> (r: String)
        ensures
            r@ == validation_report_str(*self, "#"@),
    {
        let root = String::from_str("#");
        self.report_with(&root)
    }

    /// The report of this error below an accumulated path prefix.
    fn report_with(&self, root: &String) -> (r: String)
        ensures
            r@ == validation_report_str(*self, root@),
        decreases *self,
    {
        let path = crumb_string(&self.state);
        match &self.kind {
            ValidationErrorKind::Multiple { errors } => {
                let prefix = root.clone().concat(path.as_str());
                let mut out = String::new();
                let n = errors.len();
                let mut i: usize = 0;
                proof {
                    assert(errors@.subrange(0, 0) =~= Seq::<ValidationError>::empty());
                }
                while i < n
                    invariant
                        0 <= i <= n,
                        n == errors@.len(),
                        self.kind matches ValidationErrorKind::Multiple { errors: ev } && ev
                            == *errors,
                        prefix@ == root@ + crumbs_str(self.state.segments@),
                        out@ == validation_reports_str(errors@.subrange(0, i as int), prefix@),
                    decreases n - i,
                {
                    let ghost prev = errors@.subrange(0, i as int);
                    let ghost next = errors@.subrange(0, i as int + 1);
                    proof {
                        assert(next.drop_last() =~= prev);
                        assert(next.last() == errors@[i as int]);
                        assert(decreases_to!(*self => self.kind));
                        assert(decreases_to!(self.kind => *errors));
                        assert(decreases_to!(*errors => errors@));
                        assert(decreases_to!(errors@ => errors@[i as int]));
                    }
                    let piece = errors[i].report_with(&prefix);
                    out.append(piece.as_str());
                    i = i + 1;
                }
                proof {
                    assert(errors@.subrange(0, n as int) =~= errors@);
                }
                out
            },
            _ => {
                let mut out = root.clone();
                out.append(path.as_str());
                out.append(": ");
                let msg = validation_kind_message(&self.kind);
                out.append(msg.as_str());
                out.append("\n");
                proof {
                    reveal_strlit(": ");
                    reveal_strlit("\n");
                    assert(out@ =~= validation_report_str(*self, root@));
                }
                out
            },
        }
    }
}

/// The message of a leaf schema error.
fn schema_kind_message(k: &SchemaErrorKind) -> (r: String)
    ensures
        r@ == schema_kind_msg(*k),
{
    match k {
        SchemaErrorKind::WrongType { expected, actual } => {
            let mut m = String::from_str("wrong type, expected ");
            m.append(expected.as_str());
            m.append(" got ");
            m.append(actual.as_str());
            m
        },
        SchemaErrorKind::MalformedField { error } => {
            let mut m = String::from_str("malformed field: ");
            m.append(error.as_str());
            m
        },
        SchemaErrorKind::ValidationError { error } => {
            let mut m = String::from_str("special requirements for field not met: ");
            m.append(error.as_str());
            m
        },
        SchemaErrorKind::FieldMissing { field } => {
            let mut m = String::from_str("field '");
            m.append(field.as_str());
            m.append("' missing");
            m
        },
        SchemaErrorKind::ExtraField { field } => {
            let mut m = String::from_str("field '");
            m.append(field.as_str());
            m.append("' is not specified in the schema");
            m
        },
        SchemaErrorKind::UnknownType { unknown_type } => {
            let mut m = String::from_str("unknown type specified: ");
            m.append(unknown_type.as_str());
            m
        },
        SchemaErrorKind::UnknownSchema { uri } => {
            let mut m = String::from_str("schema '");
            m.append(uri.as_str());
            m.append("' references was not found");
            m
        },
        SchemaErrorKind::Multiple { errors } => {
            let m = String::new();
            proof {
                assert(m@ =~= schema_kind_msg(*k));
            }
            m
        },
    }
}

/// The message of a leaf validation error.
fn validation_kind_message(k: &ValidationErrorKind) -> (r: String)
    ensures
        r@ == validation_kind_msg(*k),
{
    match k {
        ValidationErrorKind::WrongType { expected, actual } => {
            let mut m = String::from_str("wrong type, expected ");
            m.append(expected.as_str());
            m.append(" got ");
            m.append(actual.as_str());
            m
        },
        ValidationErrorKind::ValidationError { error } => {
            let mut m = String::from_str("special requirements for field not met: ");
            m.append(error.as_str());
            m
        },
        ValidationErrorKind::FieldMissing { field } => {
            let mut m = String::from_str("field '");
            m.append(field.as_str());
            m.append("' missing");
            m
        },
        ValidationErrorKind::ExtraField { field } => {
            let mut m = String::from_str("field '");
            m.append(field.as_str());
            m.append("' is not specified in the schema");
            m
        },
        ValidationErrorKind::UnknownSchema { uri } => {
            let mut m = String::from_str("schema '");
            m.append(uri.as_str());
            m.append("' references was not found");
            m
        },
        ValidationErrorKind::RecursionLimit { uri } => {
            let mut m = String::from_str("schema '");
            m.append(uri.as_str());
            m.append("' reference depth limit reached");
            m
        },
        ValidationErrorKind::Multiple { errors } => {
            let m = String::new();
            proof {
                assert(m@ =~= validation_kind_msg(*k));
            }
            m
        },
    }
}

impl GenericError {
    /// Adopts a lookup error into the schema taxonomy, with an empty path.
    #[verifier::loop_isolation(false)]
    pub fn into_schema_error(self) -> (r: SchemaError)
        ensures
            schema_kind_of_generic(r.kind, self),
            r.state.segments@.len() == 0,
        decreases self,
    {
        let kind = match self {
            GenericError::WrongType { expected, actual } => SchemaErrorKind::WrongType {
                expected,
                actual,
            },
            GenericError::FieldMissing { field } => SchemaErrorKind::FieldMissing { field },
            GenericError::ExtraField { field } => SchemaErrorKind::ExtraField { field },
            GenericError::MalformedField { error } => SchemaErrorKind::MalformedField { error },
            GenericError::Multiple { errors } => {
                let ghost src = errors@;
                let mut errors = errors;
                let mut converted: Vec<SchemaError> = Vec::new();
                let n = errors.len();
                let mut i: usize = 0;
                while i < n
                    invariant
                        0 <= i <= n,
                        errors@ =~= src.skip(i as int),
                        n == src.len(),
                        converted@.len() == i,
                        forall|j: int|
                            0 <= j < i ==> schema_kind_of_generic(
                                (#[trigger] converted@[j]).kind,
                                src[j],
                            ) && converted@[j].state.segments@.len() == 0,
                    decreases n - i,
                {
                    let first = errors.remove(0);
                    proof {
                        assert(first == src[i as int]);
                        let v0 = self->Multiple_errors;
                        assert(decreases_to!(self => v0));
                        assert(decreases_to!(v0 => v0@));
                        assert(v0@ == src);
                        assert(decreases_to!(v0@ => v0@[i as int]));
                        assert(errors@ =~= src.skip(i as int + 1));
                    }
                    let conv = first.into_schema_error();
                    converted.push(conv);
                    i = i + 1;
                }
                SchemaErrorKind::Multiple { errors: converted }
            },
        };
        kind.into_error()
    }

    /// Adopts a lookup error into the validation taxonomy, with an empty
    /// path.
    #[verifier::loop_isolation(false)]
    pub fn into_validation_error(self) -> (r: ValidationError)
        ensures
            validation_kind_of_generic(r.kind, self),
            r.state.segments@.len() == 0,
        decreases self,
    {
        let kind = match self {
            GenericError::WrongType { expected, actual } => ValidationErrorKind::WrongType {
                expected,
                actual,
            },
            GenericError::FieldMissing { field } => ValidationErrorKind::FieldMissing { field },
            GenericError::ExtraField { field } => ValidationErrorKind::ExtraField { field },
            GenericError::MalformedField { error } => ValidationErrorKind::ValidationError {
                error,
            },
            GenericError::Multiple { errors } => {
                let ghost src = errors@;
                let mut errors = errors;
                let mut converted: Vec<ValidationError> = Vec::new();
                let n = errors.len();
                let mut i: usize = 0;
                while i < n
                    invariant
                        0 <= i <= n,
                        errors@ =~= src.skip(i as int),
                        n == src.len(),
                        converted@.len() == i,
                        forall|j: int|
                            0 <= j < i ==> validation_kind_of_generic(
                                (#[trigger] converted@[j]).kind,
                                src[j],
                            ) && converted@[j].state.segments@.len() == 0,
                    decreases n - i,
                {
                    let first = errors.remove(0);
                    proof {
                        assert(first == src[i as int]);
                        let v0 = self->Multiple_errors;
                        assert(decreases_to!(self => v0));
                        assert(decreases_to!(v0 => v0@));
                        assert(v0@ == src);
                        assert(decreases_to!(v0@ => v0@[i as int]));
                        assert(errors@ =~= src.skip(i as int + 1));
                    }
                    let conv = first.into_validation_error();
                    converted.push(conv);
                    i = i + 1;
                }
                ValidationErrorKind::Multiple { errors: converted }
            },
        };
        kind.into_error()
    }
}

} // verus!
