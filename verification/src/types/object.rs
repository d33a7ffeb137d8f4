//! The object schema node: a fixed name-to-schema field map with an
//! optional explicit `required` list. Undeclared document keys are always
//! rejected; declared fields are optional unless listed as required.
use vstd::prelude::*;

use vstd::string::StringExecFns;

use crate::errors::{
    condense_schema_errors, condense_validation_errors, SchemaError, SchemaErrorKind,
    ValidationError, ValidationErrorKind,
};
use crate::utils::{contract_issues, names_of};
use crate::value::{map_get, Value};
use crate::{entry_fields_ok, prop_valid, Context, PropertyType, REF_FUEL};

verus! {

/// A compiled object schema.
#[derive(Debug)]
pub struct SchemaObject {
    pub items: Vec<(String, PropertyType)>,
    pub required: Option<Vec<String>>,
}

impl SchemaObject {
    /// The names this object schema requires of a document.
    pub open spec fn required_names(self) -> Seq<Seq<char>> {
        match self.required {
            Some(rs) => names_of(rs@),
            None => Seq::empty(),
        }
    }

    /// The names this object schema declares.
    pub open spec fn declared_names(self) -> Seq<Seq<char>> {
        self.items@.map_values(|f: (String, PropertyType)| f.0@)
    }

    /// Whether a document mapping passes this schema's structural
    /// contract: every required name present, every key a declared
    /// string.
    pub open spec fn contract_ok(self, entries: Seq<(Value, Value)>) -> bool {
        contract_issues(entries, self.required_names(), self.declared_names()).len() == 0
    }

    /// Whether every field of the `items` mapping has a string name and a
    /// compilable node.
    pub open spec fn fields_wf(sub: Seq<(Value, Value)>) -> bool
        decreases sub, 0nat, 1nat,
    {
        forall|k: int|
            0 <= k < sub.len() ==> (#[trigger] sub[k]).0 is Str && crate::prop_schema_wf(
                sub[k].1,
            )
    }

    /// Whether an object schema mapping is well-formed: the key `items`
    /// holding a mapping of well-formed fields, and an optional `required`
    /// list of strings.
    pub open spec fn schema_wf(yaml: Value) -> bool
        decreases yaml, 0nat, 1nat,
    {
        match yaml {
            Value::Hash(entries) => {
                &&& contract_issues(entries@, seq!["items"@], seq!["type"@, "required"@]).len()
                    == 0
                &&& (match yaml.field_of("items"@) {
                    Some(v) => v is Hash,
                    None => false,
                })
                &&& items_field_wf(entries@)
                &&& (match yaml.field_of("required"@) {
                    Some(v) => v matches Value::Array(rs) && (forall|i: int|
                        0 <= i < rs@.len() ==> (#[trigger] rs@[i]) is Str),
                    None => true,
                })
            },
            _ => false,
        }
    }

    /// Whether this schema holds exactly the fields and required list the
    /// mapping dictates.
    pub open spec fn compiled_from(self, yaml: Value) -> bool
        decreases yaml, 0nat, 1nat,
    {
        match yaml {
            Value::Hash(entries) => {
                &&& items_field_compiled(entries@, self.items@)
                &&& (match self.required {
                    Some(rs) => (match yaml.field_of("required"@) {
                        Some(v) => v matches Value::Array(src) && rs@.len() == src@.len() && (
                        forall|i: int|
                            0 <= i < src@.len() ==> ((#[trigger] src@[i]) matches Value::Str(t)
                                && rs@[i]@ == t@)),
                        None => false,
                    }),
                    None => yaml.field_of("required"@) is None,
                })
            },
            _ => false,
        }
    }

    /// Compiles an object schema from its mapping.
    pub fn try_from(yaml: &Value) -> (r: Result<SchemaObject, SchemaError>)
        ensures
            r is Ok <==> Self::schema_wf(*yaml),
            r matches Ok(s) ==> s.compiled_from(*yaml),
            !(yaml is Hash) ==> (r matches Err(e) && e.kind
                matches SchemaErrorKind::WrongType { expected, actual } && expected@ == "hash"@
                && actual@ == yaml.kind_name() && e.state.segments@.len() == 0),
            (match *yaml {
                Value::Hash(entries) => ({
                    let issues = contract_issues(entries@, seq!["items"@], seq!["type"@, "required"@]);
                    issues.len() > 0 ==> (r matches Err(e)
                        && crate::utils::schema_strict_failure(e, issues))
                }),
                _ => true,
            }),
            (match *yaml {
                Value::Hash(entries) => ((contract_issues(
                    entries@,
                    seq!["items"@],
                    seq!["type"@, "required"@],
                ).len() == 0) ==> {
                    &&& (yaml.field_of("items"@) is None ==> (r matches Err(e) && e.kind
                        matches SchemaErrorKind::FieldMissing { field } && field@ == "items"@
                        && e.state.segments@.len() == 0))
                    &&& (match yaml.field_of("items"@) {
                        Some(v) => {
                            &&& (!(v is Hash) ==> (r matches Err(e) && e.kind
                                matches SchemaErrorKind::WrongType { expected, actual }
                                && expected@ == "hash"@ && actual@ == v.kind_name()
                                && e.state.segments@.len() == 0))
                            &&& (match v {
                                Value::Hash(sub) => ((forall|j: int|
                                    0 <= j < sub@.len() ==> (#[trigger] sub@[j]).0 is Str) ==> {
                                    let bad = count_bad_children(sub@, sub@.len() as int);
                                    &&& (bad == 1 ==> (r matches Err(e) && bad_field_tail(
                                        sub@,
                                        e,
                                        0,
                                    )))
                                    &&& (bad > 1 ==> (r matches Err(e) && e.kind
                                        matches SchemaErrorKind::Multiple { errors: es }
                                        && es@.len() == bad && e.state.segments@.len() == 0 && (
                                    forall|b: int|
                                        0 <= b < es@.len() ==> bad_field_tail(
                                            sub@,
                                            #[trigger] es@[b],
                                            b,
                                        ))))
                                    &&& (bad == 0 ==> (match yaml.field_of("required"@) {
                                        Some(rv) => !(rv is Array) ==> (r matches Err(e)
                                            && e.kind
                                            matches SchemaErrorKind::WrongType {
                                            expected,
                                            actual,
                                        } && expected@ == "array"@ && actual@ == rv.kind_name()
                                            && e.state.segments@.len() == 1
                                            && crate::breadcrumb::is_name(
                                            e.state.segments@[0],
                                            "required"@,
                                        )),
                                        None => true,
                                    }))
                                }),
                                _ => true,
                            })
                        },
                        None => true,
                    })
                }),
                _ => true,
            }),
        decreases *yaml, 0nat, 1nat,
    {
        let entries = match yaml {
            Value::Hash(entries) => entries,
            _ => {
                return Err(
                    SchemaErrorKind::WrongType {
                        expected: String::from_str("hash"),
                        actual: String::from_str(yaml.type_to_str()),
                    }.into_error(),
                );
            },
        };
        let mut req: Vec<String> = Vec::new();
        req.push(String::from_str("items"));
        let mut opt: Vec<String> = Vec::new();
        opt.push(String::from_str("type"));
        opt.push(String::from_str("required"));
        proof {
            assert(names_of(req@) =~= seq!["items"@]);
            assert(names_of(opt@) =~= seq!["type"@, "required"@]);
        }
        match yaml.strict_contents(&req, &opt) {
            Ok(_) => (),
            Err(g) => {
                let ghost gg = g;
                let e = g.into_schema_error();
                proof {
                    if *yaml is Hash {
                        crate::utils::lemma_strict_adoption_schema(
                            gg,
                            e,
                            contract_issues(yaml->Hash_0@, names_of(req@), names_of(opt@)),
                        );
                    }
                }
                return Err(e);
            },
        }
        proof {
            crate::value::lemma_map_get_first(entries@, "items"@);
        }
        let sub = match yaml.lookup_opt(&String::from_str("items")) {
            Some(v) => match v {
                Value::Hash(sub) => sub,
                other => {
                    return Err(
                        SchemaErrorKind::WrongType {
                            expected: String::from_str("hash"),
                            actual: String::from_str(other.type_to_str()),
                        }.into_error(),
                    );
                },
            },
            None => {
                return Err(
                    SchemaErrorKind::FieldMissing { field: String::from_str("items") }.into_error(),
                );
            },
        };
        let ghost subval = Value::Hash(*sub);
        proof {
            crate::value::lemma_map_get_first(entries@, "items"@);
            crate::value::lemma_field_value_smaller(entries@, "items"@, subval);
            assert(decreases_to!(*yaml => *entries));
            assert(decreases_to!(*entries => entries@));
        }
        let m = sub.len();
        let mut fields: Vec<(String, PropertyType)> = Vec::new();
        let mut errors: Vec<SchemaError> = Vec::new();
        let mut k: usize = 0;
        while k < m
            invariant
                0 <= k <= m,
                m == sub@.len(),
                subval matches Value::Hash(sv) && sv@ == sub@,
                yaml matches Value::Hash(es) && map_get(es@, "items"@) == Some(subval),
                errors@.len() == 0 ==> fields@.len() == k,
                errors@.len() == 0 ==> (forall|j: int|
                    0 <= j < k ==> ((#[trigger] sub@[j]).0 matches Value::Str(nm)
                        && fields@[j].0@ == nm@ && crate::prop_compiled_from(
                        fields@[j].1,
                        sub@[j].1,
                    ))),
                errors@.len() == 0 <==> (forall|j: int|
                    0 <= j < k ==> (#[trigger] sub@[j]).0 is Str && crate::prop_schema_wf(
                        sub@[j].1,
                    )),
                (forall|j: int| 0 <= j < sub@.len() ==> (#[trigger] sub@[j]).0 is Str) ==> (
                errors@.len() == count_bad_children(sub@, k as int) && (forall|b: int|
                    0 <= b < errors@.len() ==> bad_field_tail(sub@, #[trigger] errors@[b], b))),
            decreases m - k,
        {
            proof {
                let es = yaml->Hash_0;
                assert(decreases_to!(*yaml => es));
                assert(decreases_to!(es => es@));
                crate::value::lemma_field_value_smaller(es@, "items"@, subval);
                assert(decreases_to!(subval => subval->Hash_0));
                assert(decreases_to!(subval->Hash_0 => subval->Hash_0@));
                assert(subval->Hash_0@ == sub@);
                assert(decreases_to!(sub@ => sub@[k as int]));
                assert(decreases_to!(sub@[k as int] => sub@[k as int].1));
            }
            let name = match &sub[k].0 {
                Value::Str(name) => Some(name.clone()),
                other => {
                    errors.push(
                        SchemaErrorKind::WrongType {
                            expected: String::from_str("string"),
                            actual: String::from_str(other.type_to_str()),
                        }.into_error(),
                    );
                    None
                },
            };
            match name {
                Some(name) => match PropertyType::try_from(&sub[k].1) {
                    Ok(p) => fields.push((name, p)),
                    Err(e) => {
                        errors.push(
                            e.add_path_name(name).add_path_name(String::from_str("items")),
                        );
                    },
                },
                None => {
                    // The field's node is still compiled so that its own
                    // errors are reported beside the bad name.
                    match PropertyType::try_from(&sub[k].1) {
                        Ok(_) => (),
                        Err(e) => {
                            errors.push(e.add_path_name(String::from_str("items")));
                        },
                    }
                },
            }
            k = k + 1;
        }
        match condense_schema_errors(errors) {
            Ok(_) => (),
            Err(e) => {
                return Err(e);
            },
        }
        let required = match yaml.lookup_opt(&String::from_str("required")) {
            None => None,
            Some(v) => match v {
                Value::Array(rs) => {
                    let rn = rs.len();
                    let mut names: Vec<String> = Vec::new();
                    let mut rerrors: Vec<SchemaError> = Vec::new();
                    let mut i: usize = 0;
                    while i < rn
                        invariant
                            0 <= i <= rn,
                            rn == rs@.len(),
                            rerrors@.len() == 0 ==> names@.len() == i,
                            rerrors@.len() == 0 ==> (forall|j: int|
                                0 <= j < i ==> ((#[trigger] rs@[j]) matches Value::Str(t)
                                    && names@[j]@ == t@)),
                            rerrors@.len() == 0 <==> (forall|j: int|
                                0 <= j < i ==> (#[trigger] rs@[j]) is Str),
                        decreases rn - i,
                    {
                        match &rs[i] {
                            Value::Str(t) => names.push(t.clone()),
                            other => {
                                rerrors.push(
                                    SchemaErrorKind::WrongType {
                                        expected: String::from_str("string"),
                                        actual: String::from_str(other.type_to_str()),
                                    }.into_error(),
                                );
                            },
                        }
                        i = i + 1;
                    }
                    match condense_schema_errors(rerrors) {
                        Ok(_) => (),
                        Err(e) => {
                            return Err(e);
                        },
                    }
                    Some(names)
                },
                other => {
                    return Err(
                        SchemaErrorKind::WrongType {
                            expected: String::from_str("array"),
                            actual: String::from_str(other.type_to_str()),
                        }.into_error().add_path_name(String::from_str("required")),
                    );
                },
            },
        };
        Ok(SchemaObject { items: fields, required })
    }

    /// Validates with a fresh reference budget.
    pub fn validate(&self, ctx: &Context, doc: &Value) -> (r: Result<(), ValidationError>)
        ensures
            (r is Ok) == prop_valid(*ctx, PropertyType::Object(*self), *doc, REF_FUEL as nat),
            !(doc is Hash) ==> (r matches Err(e) && e.kind
                matches ValidationErrorKind::WrongType { expected, actual } && expected@ == "hash"@
                && actual@ == doc.kind_name() && e.state.segments@.len() == 0),
            match *doc {
                Value::Hash(entries) => ({
                    let issues = contract_issues(
                        entries@,
                        self.required_names(),
                        self.declared_names(),
                    );
                    issues.len() > 0 ==> (r matches Err(e)
                        && crate::utils::validation_strict_failure(e, issues))
                }),
                _ => true,
            },
            match *doc {
                Value::Hash(entries) => self.contract_ok(entries@) ==> {
                    let bad = invalid_field_count(
                        *ctx,
                        self.items@,
                        entries@,
                        self.items@.len() as int,
                    );
                    &&& (r is Err <==> bad >= 1)
                    &&& (bad == 1 ==> (r matches Err(e) && invalid_field_tail(
                        *ctx,
                        self.items@,
                        entries@,
                        e,
                        0,
                    )))
                    &&& (bad > 1 ==> (r matches Err(e) && e.kind
                        matches ValidationErrorKind::Multiple { errors: es } && es@.len() == bad
                        && e.state.segments@.len() == 0 && (forall|b: int|
                        0 <= b < es@.len() ==> invalid_field_tail(
                            *ctx,
                            self.items@,
                            entries@,
                            #[trigger] es@[b],
                            b,
                        ))))
                },
                _ => true,
            },
    {
        self.validate_fuel(ctx, doc, REF_FUEL)
    }

    /// Validates a document node: the type check, the structural contract
    /// over the required and declared names, then every declared, present
    /// field against its node, aggregating all failures.
    pub fn validate_fuel(&self, ctx: &Context, doc: &Value, fuel: u64) -> (r: Result<
        (),
        ValidationError,
    >)
        ensures
            (r is Ok) == prop_valid(*ctx, PropertyType::Object(*self), *doc, fuel as nat),
            !(doc is Hash) ==> (r matches Err(e) && e.kind
                matches ValidationErrorKind::WrongType { expected, actual } && expected@ == "hash"@
                && actual@ == doc.kind_name() && e.state.segments@.len() == 0),
            match *doc {
                Value::Hash(entries) => ({
                    let issues = contract_issues(
                        entries@,
                        self.required_names(),
                        self.declared_names(),
                    );
                    issues.len() > 0 ==> (r matches Err(e)
                        && crate::utils::validation_strict_failure(e, issues))
                }),
                _ => true,
            },
            match *doc {
                Value::Hash(entries) => self.contract_ok(entries@) ==> {
                    let bad = invalid_field_count(
                        *ctx,
                        self.items@,
                        entries@,
                        self.items@.len() as int,
                    );
                    &&& (r is Err <==> bad >= 1)
                    &&& (bad == 1 ==> (r matches Err(e) && invalid_field_tail(
                        *ctx,
                        self.items@,
                        entries@,
                        e,
                        0,
                    )))
                    &&& (bad > 1 ==> (r matches Err(e) && e.kind
                        matches ValidationErrorKind::Multiple { errors: es } && es@.len() == bad
                        && e.state.segments@.len() == 0 && (forall|b: int|
                        0 <= b < es@.len() ==> invalid_field_tail(
                            *ctx,
                            self.items@,
                            entries@,
                            #[trigger] es@[b],
                            b,
                        ))))
                },
                _ => true,
            },
        decreases *doc, fuel, *self,
    {
        let _ = fuel;
        let entries = match doc {
            Value::Hash(entries) => entries,
            other => {
                return Err(
                    ValidationErrorKind::WrongType {
                        expected: String::from_str("hash"),
                        actual: String::from_str(other.type_to_str()),
                    }.into_error(),
                );
            },
        };
        let required: Vec<String> = match &self.required {
            Some(rs) => rs.clone(),
            None => Vec::new(),
        };
        let mut declared: Vec<String> = Vec::new();
        let fm = self.items.len();
        let mut fi: usize = 0;
        while fi < fm
            invariant
                0 <= fi <= fm,
                fm == self.items@.len(),
                declared@.len() == fi,
                forall|j: int| 0 <= j < fi ==> (#[trigger] declared@[j])@ == self.items@[j].0@,
            decreases fm - fi,
        {
            declared.push(self.items[fi].0.clone());
            fi = fi + 1;
        }
        proof {
            assert(names_of(required@) =~= self.required_names());
            assert(names_of(declared@) =~= self.declared_names());
        }
        match doc.strict_contents(&required, &declared) {
            Ok(_) => (),
            Err(g) => {
                let ghost gg = g;
                let e = g.into_validation_error();
                proof {
                    crate::utils::lemma_strict_adoption_validation(
                        gg,
                        e,
                        contract_issues(entries@, names_of(required@), names_of(declared@)),
                    );
                }
                return Err(e);
            },
        }
        let n = self.items.len();
        let mut errors: Vec<ValidationError> = Vec::new();
        let mut i: usize = 0;
        while i < n
            invariant
                0 <= i <= n,
                n == self.items@.len(),
                doc matches Value::Hash(dentries) && dentries == entries,
                errors@.len() == invalid_field_count(*ctx, self.items@, entries@, i as int),
                forall|b: int|
                    0 <= b < errors@.len() ==> invalid_field_tail(
                        *ctx,
                        self.items@,
                        entries@,
                        #[trigger] errors@[b],
                        b,
                    ),
                (forall|f: int|
                    0 <= f < i ==> (match present_value(
                        entries@,
                        (#[trigger] self.items@[f]).0@,
                    ) {
                        Some(v) => prop_valid(*ctx, self.items@[f].1, v, REF_FUEL as nat),
                        None => true,
                    })) <==> errors@.len() == 0,
            decreases n - i,
        {
            proof {
                assert(decreases_to!(*self => self.items));
                assert(decreases_to!(self.items => self.items@));
                assert(decreases_to!(self.items@ => self.items@[i as int]));
                assert(decreases_to!(self.items@[i as int] => self.items@[i as int].1));
            }
            let field_name = &self.items[i].0;
            match doc.lookup_opt(field_name) {
                None => (),
                Some(item) => {
                    proof {
                        crate::value::lemma_field_value_smaller(entries@, field_name@, *item);
                        assert(decreases_to!(*doc => *entries));
                        assert(decreases_to!(*entries => entries@));
                    }
                    match self.items[i].1.validate(ctx, item) {
                        Ok(_) => (),
                        Err(e) => {
                            errors.push(e.add_path_name(field_name.clone()));
                        },
                    }
                },
            }
            i = i + 1;
        }
        let r = condense_validation_errors(errors);
        proof {
            let fs = self.items@;
            let es = entries@;
            if errors@.len() == 0 {
                assert forall|j: int| 0 <= j < es.len() implies #[trigger] entry_fields_ok(
                    *ctx,
                    fs,
                    es,
                    j,
                ) by {
                    match es[j].0 {
                        Value::Str(kk) => {
                            if crate::value::no_earlier_key(es, j, kk@) && !(es[j].1 is Null)
                                && !(es[j].1 is Bad) {
                                crate::value::lemma_map_get_first(es, kk@);
                                assert(crate::value::key_matches(es[j], kk@));
                                assert(map_get(es, kk@) == Some(es[j].1));
                                assert(present_value(es, kk@) == Some(es[j].1));
                                assert forall|f: int|
                                    0 <= f < fs.len() && (#[trigger] fs[f]).0@
                                        == kk@ implies prop_valid(
                                    *ctx,
                                    fs[f].1,
                                    es[j].1,
                                    REF_FUEL as nat,
                                ) by {
                                    assert(present_value(es, fs[f].0@) == Some(es[j].1));
                                }
                            }
                        },
                        _ => {},
                    }
                }
            }
            if (forall|j: int|
                0 <= j < es.len() ==> #[trigger] entry_fields_ok(*ctx, fs, es, j)) {
                assert forall|f: int| 0 <= f < fs.len() implies (match present_value(
                    entries@,
                    (#[trigger] self.items@[f]).0@,
                ) {
                    Some(v) => prop_valid(*ctx, self.items@[f].1, v, REF_FUEL as nat),
                    None => true,
                }) by {
                    let kf = fs[f].0@;
                    match present_value(es, kf) {
                        Some(v) => {
                            crate::value::lemma_map_get_first(es, kf);
                            let j = choose|j: int|
                                0 <= j < es.len() && crate::value::key_matches(
                                    #[trigger] es[j],
                                    kf,
                                ) && crate::value::no_earlier_key(es, j, kf) && map_get(es, kf)
                                    == Some(es[j].1);
                            assert(es[j].1 == v);
                            assert(!(es[j].1 is Null) && !(es[j].1 is Bad));
                            assert(entry_fields_ok(*ctx, fs, es, j));
                            assert(prop_valid(*ctx, fs[f].1, v, REF_FUEL as nat));
                        },
                        None => {},
                    }
                }
            }
            lemma_object_packaged(
                *ctx,
                *self,
                *doc,
                fuel as nat,
                errors@.len() == 0,
            );
        }
        r
    }
}

/// Whether the `items` field's mapping, when present, holds only
/// well-formed fields.
pub open spec fn items_field_wf(entries: Seq<(Value, Value)>) -> bool
    decreases entries, 0nat, 1nat,
{
    forall|j: int|
        0 <= j < entries.len() ==> ((crate::value::key_matches(#[trigger] entries[j], "items"@)
            && crate::value::no_earlier_key(entries, j, "items"@)) ==> (entries[j].1
            matches Value::Hash(sub) ==> SchemaObject::fields_wf(sub@)))
}

/// Whether `fields` are, name for name and node for node, the compilation
/// of the `items` field's mapping.
pub open spec fn items_field_compiled(
    entries: Seq<(Value, Value)>,
    fields: Seq<(String, PropertyType)>,
) -> bool
    decreases entries, 0nat, 1nat,
{
    forall|j: int|
        0 <= j < entries.len() ==> ((crate::value::key_matches(#[trigger] entries[j], "items"@)
            && crate::value::no_earlier_key(entries, j, "items"@)) ==> (entries[j].1
            matches Value::Hash(sub) ==> fields_compiled(fields, sub@)))
}

/// Whether `fields` are, element for element, the compilations of the
/// field mapping `sub`.
pub open spec fn fields_compiled(
    fields: Seq<(String, PropertyType)>,
    sub: Seq<(Value, Value)>,
) -> bool
    decreases sub, 0nat, 1nat,
{
    fields.len() == sub.len() && (forall|k: int|
        0 <= k < sub.len() ==> ((#[trigger] sub[k]).0 matches Value::Str(nm) && fields[k].0@
            == nm@ && crate::prop_compiled_from(fields[k].1, sub[k].1)))
}

/// An object node's validity is its structural contract together with
/// the per-entry field checks; this packages the two readings.
proof fn lemma_object_packaged(ctx: Context, s: SchemaObject, doc: Value, fuel: nat, ok: bool)
    requires
        doc is Hash,
        ok == (s.contract_ok(doc->Hash_0@) && (forall|j: int|
            0 <= j < doc->Hash_0@.len() ==> #[trigger] entry_fields_ok(
                ctx,
                s.items@,
                doc->Hash_0@,
                j,
            ))),
    ensures
        ok == prop_valid(ctx, PropertyType::Object(s), doc, fuel),
{
    crate::lemma_entries_ok_upto_forall(ctx, s.items@, doc->Hash_0@, doc->Hash_0@.len() as int);
}

/// How many of the first `k` field nodes of an `items` mapping fail to
/// compile, among those with string names.
pub open spec fn count_bad_children(sub: Seq<(Value, Value)>, k: int) -> nat
    decreases k,
{
    if k <= 0 {
        0
    } else {
        count_bad_children(sub, k - 1) + if crate::prop_schema_wf(sub[k - 1].1) {
            0nat
        } else {
            1nat
        }
    }
}

/// Whether a compile error is the report for the `b`-th field whose node
/// fails to compile: some child error under the field's name and then
/// `items`.
pub open spec fn bad_field_tail(sub: Seq<(Value, Value)>, e: SchemaError, b: int) -> bool {
    &&& e.state.segments@.len() >= 2
    &&& crate::breadcrumb::is_name(e.state.segments@.last(), "items"@)
    &&& exists|f: int|
        0 <= f < sub.len() && ((#[trigger] sub[f]).0 matches Value::Str(nm)
            && !crate::prop_schema_wf(sub[f].1) && count_bad_children(sub, f) == b
            && crate::breadcrumb::is_name(
            e.state.segments@[e.state.segments@.len() - 2],
            nm@,
        ))
}

/// Whether an error is the report for the `b`-th failing declared field:
/// some child error, under the name of the field whose position among the
/// failing fields is `b`.
pub open spec fn invalid_field_tail(
    ctx: Context,
    fields: Seq<(String, PropertyType)>,
    entries: Seq<(Value, Value)>,
    e: ValidationError,
    b: int,
) -> bool {
    &&& e.state.segments@.len() >= 1
    &&& exists|f: int|
        0 <= f < fields.len() && field_invalid(ctx, fields, entries, f) && invalid_field_count(
            ctx,
            fields,
            entries,
            f,
        ) == b && crate::breadcrumb::is_name(
            e.state.segments@.last(),
            (#[trigger] fields[f]).0@,
        )
}

/// Whether the object field at position `f` is present in the document
/// and fails its node.
pub open spec fn field_invalid(
    ctx: Context,
    fields: Seq<(String, PropertyType)>,
    entries: Seq<(Value, Value)>,
    f: int,
) -> bool {
    0 <= f < fields.len() && (match present_value(entries, fields[f].0@) {
        Some(v) => !prop_valid(ctx, fields[f].1, v, REF_FUEL as nat),
        None => false,
    })
}

/// How many of the first `k` declared fields are present and fail.
pub open spec fn invalid_field_count(
    ctx: Context,
    fields: Seq<(String, PropertyType)>,
    entries: Seq<(Value, Value)>,
    k: int,
) -> nat
    decreases k,
{
    if k <= 0 {
        0
    } else {
        invalid_field_count(ctx, fields, entries, k - 1) + if field_invalid(
            ctx,
            fields,
            entries,
            k - 1,
        ) {
            1nat
        } else {
            0nat
        }
    }
}

/// The value a document mapping presents under `key`: absent, null and
/// unrepresentable entries all count as absent.
pub open spec fn present_value(entries: Seq<(Value, Value)>, key: Seq<char>) -> Option<Value> {
    match map_get(entries, key) {
        Some(v) => if v is Null || v is Bad {
            None
        } else {
            Some(v)
        },
        None => None,
    }
}

} // verus!
