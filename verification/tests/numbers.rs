use yaml_rust::{Yaml, YamlLoader};
use yaml_validator::breadcrumb::{Breadcrumb, BreadcrumbSegment};
use yaml_validator::errors::{SchemaError, SchemaErrorKind, ValidationError, ValidationErrorKind};
use yaml_validator::realnum::Real;
use yaml_validator::value::Value;
use yaml_validator::Context;

fn conv(y: &Yaml) -> Value {
    match y {
        Yaml::Real(_) => Value::Real(Real::from_bits(y.as_f64().unwrap().to_bits())),
        Yaml::Integer(i) => Value::Int(*i),
        Yaml::String(t) => Value::Str(t.clone()),
        Yaml::Boolean(b) => Value::Bool(*b),
        Yaml::Array(items) => Value::Array(items.iter().map(conv).collect()),
        Yaml::Hash(h) => Value::Hash(h.iter().map(|(k, v)| (conv(k), conv(v))).collect()),
        Yaml::Null => Value::Null,
        _ => Value::Bad,
    }
}

fn load_simple(source: &str) -> Value {
    conv(&YamlLoader::load_from_str(source).unwrap().remove(0))
}

fn s(t: &str) -> String {
    t.to_string()
}

fn plain_schema_err(kind: SchemaErrorKind) -> SchemaError {
    SchemaError { kind, state: Breadcrumb { segments: vec![] } }
}

fn plain_validation_err(kind: ValidationErrorKind) -> ValidationError {
    ValidationError { kind, state: Breadcrumb { segments: vec![] } }
}

use yaml_validator::types::integer::SchemaInteger;
use yaml_validator::types::reals::SchemaReal;

fn bare_integer_schema() -> SchemaInteger {
    SchemaInteger { minimum: None, maximum: None, multiple_of: None }
}

fn bare_real_schema() -> SchemaReal {
    SchemaReal { minimum: None, maximum: None, multiple_of: None }
}

#[test]
fn integer_from_yaml() {
    SchemaInteger::try_from(&load_simple("type: string")).unwrap();
}

#[test]
fn integer_from_string() {
    assert_eq!(
        SchemaInteger::try_from(&load_simple("world")).unwrap_err(),
        plain_schema_err(SchemaErrorKind::WrongType { expected: s("hash"), actual: s("string") }),
    );
}

#[test]
fn integer_with_exclusive_conflict() {
    assert_eq!(
        SchemaInteger::try_from(&load_simple("type: integer\nexclusiveMinimum: 10\nminimum: 10"))
            .unwrap_err(),
        plain_schema_err(SchemaErrorKind::MalformedField {
            error: s(
                "conflicting constraints: minimum, exclusiveMinimum cannot be used at the same time",
            ),
        }),
    );
}

#[test]
fn integer_with_mixed_limits() {
    SchemaInteger::try_from(&load_simple("type: integer\nexclusiveMaximum: 12\nminimum: 10"))
        .unwrap();
}

#[test]
fn integer_with_zero_width_limits() {
    assert_eq!(
        SchemaInteger::try_from(&load_simple(
            "type: real\nexclusiveMinimum: 10\nexclusiveMaximum: 11",
        ))
        .unwrap_err(),
        plain_schema_err(SchemaErrorKind::MalformedField {
            error: s("range given for real value spans 0 possible values"),
        }),
    );
}

#[test]
fn integer_validate_string() {
    assert_eq!(
        bare_integer_schema().validate(&Context::new(), &load_simple("hello world")).unwrap_err(),
        plain_validation_err(ValidationErrorKind::WrongType {
            expected: s("integer"),
            actual: s("string"),
        }),
    );
}

#[test]
fn integer_validate_integer() {
    bare_integer_schema().validate(&Context::new(), &load_simple("10")).unwrap();
}

#[test]
fn integer_validate_real() {
    assert_eq!(
        bare_integer_schema().validate(&Context::new(), &load_simple("3.1415")).unwrap_err(),
        plain_validation_err(ValidationErrorKind::WrongType {
            expected: s("integer"),
            actual: s("real"),
        }),
    );
}

#[test]
fn integer_validate_narrow_inclusive_set() {
    let schema = SchemaInteger::try_from(&load_simple("type: integer\nminimum: 10\nmaximum: 10"))
        .unwrap();
    schema.validate(&Context::new(), &load_simple("10")).unwrap();
}

#[test]
fn integer_validate_narrow_set() {
    let schema = SchemaInteger::try_from(&load_simple(
        "type: integer\nexclusiveMinimum: 10\nmaximum: 11",
    ))
    .unwrap();
    schema.validate(&Context::new(), &load_simple("11")).unwrap();
}

#[test]
fn integer_validate_min_exclusion() {
    let schema = SchemaInteger::try_from(&load_simple("type: integer\nexclusiveMinimum: 10"))
        .unwrap();
    assert_eq!(
        schema.validate(&Context::new(), &load_simple("10")).unwrap_err(),
        plain_validation_err(ValidationErrorKind::ValidationError {
            error: s("value violates lower limit constraint"),
        }),
    );
}

#[test]
fn integer_validate_min_invalid() {
    let schema = SchemaInteger::try_from(&load_simple("type: integer\nminimum: 10")).unwrap();
    assert_eq!(
        schema.validate(&Context::new(), &load_simple("5")).unwrap_err(),
        plain_validation_err(ValidationErrorKind::ValidationError {
            error: s("value violates lower limit constraint"),
        }),
    );
}

#[test]
fn integer_validate_max_exclusion() {
    let schema = SchemaInteger::try_from(&load_simple("type: integer\nexclusiveMaximum: 10"))
        .unwrap();
    assert_eq!(
        schema.validate(&Context::new(), &load_simple("10")).unwrap_err(),
        plain_validation_err(ValidationErrorKind::ValidationError {
            error: s("value violates upper limit constraint"),
        }),
    );
}

#[test]
fn integer_validate_max_valid() {
    let schema = SchemaInteger::try_from(&load_simple("type: integer\nmaximum: 10")).unwrap();
    schema.validate(&Context::new(), &load_simple("10")).unwrap();
}

#[test]
fn integer_validate_max_invalid() {
    let schema = SchemaInteger::try_from(&load_simple("type: integer\nmaximum: 10")).unwrap();
    assert_eq!(
        schema.validate(&Context::new(), &load_simple("20")).unwrap_err(),
        plain_validation_err(ValidationErrorKind::ValidationError {
            error: s("value violates upper limit constraint"),
        }),
    );
}

#[test]
fn integer_validate_multiple_of() {
    let schema = SchemaInteger::try_from(&load_simple("type: integer\nmultipleOf: 3")).unwrap();
    assert_eq!(
        schema.validate(&Context::new(), &load_simple("10")).unwrap_err(),
        plain_validation_err(ValidationErrorKind::ValidationError {
            error: s("value must be a multiple of the multipleOf field"),
        }),
    );
}

#[test]
fn integer_validate_multiple_of_success() {
    let schema = SchemaInteger::try_from(&load_simple("type: integer\nmultipleOf: 325")).unwrap();
    schema.validate(&Context::new(), &load_simple("4875")).unwrap();
}

#[test]
fn real_with_exclusive_conflict() {
    assert_eq!(
        SchemaReal::try_from(&load_simple(
            "type: real\nexclusiveMinimum: 10.0\nminimum: 10.0",
        ))
        .unwrap_err(),
        plain_schema_err(SchemaErrorKind::MalformedField {
            error: s(
                "conflicting constraints: minimum, exclusiveMinimum cannot be used at the same time",
            ),
        }),
    );
}

#[test]
fn real_with_mixed_limits() {
    SchemaReal::try_from(&load_simple("type: real\nexclusiveMaximum: 12.0\nminimum: 10.0"))
        .unwrap();
}

#[test]
fn real_with_zero_width_limits() {
    assert_eq!(
        SchemaReal::try_from(&load_simple(
            "type: real\nexclusiveMinimum: 10.0\nexclusiveMaximum: 10.0",
        ))
        .unwrap_err(),
        plain_schema_err(SchemaErrorKind::MalformedField {
            error: s("range given for real value spans 0 possible values"),
        }),
    );
}

#[test]
fn real_exclusive_span_wider_than_a_point_is_valid() {
    SchemaReal::try_from(&load_simple(
        "type: real\nexclusiveMinimum: 10.0\nexclusiveMaximum: 11.0",
    ))
    .unwrap();
}

#[test]
fn real_validate_string() {
    assert_eq!(
        bare_real_schema().validate(&Context::new(), &load_simple("hello world")).unwrap_err(),
        plain_validation_err(ValidationErrorKind::WrongType {
            expected: s("real"),
            actual: s("string"),
        }),
    );
}

#[test]
fn real_validate_integer() {
    assert_eq!(
        bare_real_schema().validate(&Context::new(), &load_simple("10")).unwrap_err(),
        plain_validation_err(ValidationErrorKind::WrongType {
            expected: s("real"),
            actual: s("integer"),
        }),
    );
}

#[test]
fn real_validate_real() {
    bare_real_schema().validate(&Context::new(), &load_simple("3.1415")).unwrap();
}

#[test]
fn real_validate_narrow_inclusive_set() {
    let schema = SchemaReal::try_from(&load_simple("type: real\nminimum: 10.0\nmaximum: 10.0"))
        .unwrap();
    schema.validate(&Context::new(), &load_simple("10.0")).unwrap();
}

#[test]
fn real_validate_narrow_set() {
    let schema = SchemaReal::try_from(&load_simple(
        "type: real\nexclusiveMinimum: 10.0\nmaximum: 11.0",
    ))
    .unwrap();
    schema.validate(&Context::new(), &load_simple("10.5")).unwrap();
}

#[test]
fn real_validate_min_exclusion() {
    let schema = SchemaReal::try_from(&load_simple("type: real\nexclusiveMinimum: 10.0")).unwrap();
    assert_eq!(
        schema.validate(&Context::new(), &load_simple("10.0")).unwrap_err(),
        plain_validation_err(ValidationErrorKind::ValidationError {
            error: s("value violates lower limit constraint"),
        }),
    );
}

#[test]
fn real_multiple_of_is_exact() {
    let schema = SchemaReal::try_from(&load_simple("type: real\nmultipleOf: 0.5")).unwrap();
    schema.validate(&Context::new(), &load_simple("2.5")).unwrap();
    assert_eq!(
        schema.validate(&Context::new(), &load_simple("2.3")).unwrap_err(),
        plain_validation_err(ValidationErrorKind::ValidationError {
            error: s("value must be a multiple of the multipleOf field"),
        }),
    );
}
