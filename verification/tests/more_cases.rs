use yaml_rust::{Yaml, YamlLoader};
use yaml_validator::breadcrumb::{Breadcrumb, BreadcrumbSegment};
use yaml_validator::errors::{SchemaError, SchemaErrorKind, ValidationError, ValidationErrorKind};
use yaml_validator::realnum::Real;
use yaml_validator::value::Value;
use yaml_validator::Context;

fn conv(y: &Yaml) -> Value {
    match y {
        Yaml::Real(_) => Value::Real(Real::from_bits(y.as_f64().unwrap().to_bits())),
        Yaml::Integer(i) => Value::Int(*i),
        Yaml::String(t) => Value::Str(t.clone()),
        Yaml::Boolean(b) => Value::Bool(*b),
        Yaml::Array(items) => Value::Array(items.iter().map(conv).collect()),
        Yaml::Hash(h) => Value::Hash(h.iter().map(|(k, v)| (conv(k), conv(v))).collect()),
        Yaml::Null => Value::Null,
        _ => Value::Bad,
    }
}

fn load_simple(source: &str) -> Value {
    conv(&YamlLoader::load_from_str(source).unwrap().remove(0))
}

fn s(t: &str) -> String {
    t.to_string()
}

fn plain_schema_err(kind: SchemaErrorKind) -> SchemaError {
    SchemaError { kind, state: Breadcrumb { segments: vec![] } }
}

fn plain_validation_err(kind: ValidationErrorKind) -> ValidationError {
    ValidationError { kind, state: Breadcrumb { segments: vec![] } }
}

use yaml_validator::modifiers::any_of::SchemaAnyOf;
use yaml_validator::types::array::SchemaArray;
use yaml_validator::types::boolean::SchemaBool;
use yaml_validator::types::hash::SchemaHash;
use yaml_validator::types::integer::SchemaInteger;
use yaml_validator::types::object::SchemaObject;
use yaml_validator::types::reals::SchemaReal;
use yaml_validator::types::string::SchemaString;

fn wrong_hash(actual: &str) -> SchemaError {
    plain_schema_err(SchemaErrorKind::WrongType { expected: s("hash"), actual: s(actual) })
}

#[test]
fn with_contains() {
    SchemaArray::try_from(&load_simple(
        "minContains: 5\nmaxContains: 10\ncontains:\n  type: integer",
    ))
    .unwrap();

    SchemaArray::try_from(&load_simple("minContains: 5\ncontains:\n  type: integer")).unwrap();

    assert_eq!(
        SchemaArray::try_from(&load_simple("minContains: 10\nmaxContains: 5")).unwrap_err(),
        plain_schema_err(SchemaErrorKind::MalformedField {
            error: s(
                "minContains and maxContains requires 'contains' to specify a schema to validate against",
            ),
        }),
    );
}

#[test]
fn with_contain_invalid_range() {
    assert_eq!(
        SchemaArray::try_from(&load_simple(
            "minContains: 10\nmaxContains: 5\ncontains:\n  type: integer",
        ))
        .unwrap_err(),
        plain_schema_err(SchemaErrorKind::MalformedField {
            error: s("minContains cannot be greater than maxContains"),
        }),
    );
}

fn bare_array_schema() -> SchemaArray {
    SchemaArray {
        items: None,
        min_items: None,
        max_items: None,
        unique_items: false,
        contains: None,
        min_contains: None,
        max_contains: None,
    }
}

#[test]
fn array_validate_string() {
    assert_eq!(
        bare_array_schema().validate(&Context::new(), &load_simple("hello world")).unwrap_err(),
        plain_validation_err(ValidationErrorKind::WrongType {
            expected: s("array"),
            actual: s("string"),
        }),
    );
}

#[test]
fn array_validate_integer() {
    assert_eq!(
        bare_array_schema().validate(&Context::new(), &load_simple("10")).unwrap_err(),
        plain_validation_err(ValidationErrorKind::WrongType {
            expected: s("array"),
            actual: s("integer"),
        }),
    );
}

#[test]
fn array_validate_hash() {
    assert_eq!(
        bare_array_schema().validate(&Context::new(), &load_simple("hello: world")).unwrap_err(),
        plain_validation_err(ValidationErrorKind::WrongType {
            expected: s("array"),
            actual: s("hash"),
        }),
    );
}

#[test]
fn validate_narrow_array() {
    let yaml = load_simple("minItems: 2\nmaxItems: 2\nitems:\n  type: integer");
    SchemaArray::try_from(&yaml)
        .unwrap()
        .validate(&Context::new(), &load_simple("- 1234\n- 5678"))
        .unwrap();
}

#[test]
fn validate_too_large_array() {
    assert_eq!(
        SchemaArray::try_from(&load_simple("maxItems: 2"))
            .unwrap()
            .validate(&Context::new(), &load_simple("- 1234\n- 5678\n- acbd"))
            .unwrap_err(),
        plain_validation_err(ValidationErrorKind::ValidationError {
            error: s("array contains more than maxItems items"),
        }),
    );
}

#[test]
fn validate_too_small_array() {
    assert_eq!(
        SchemaArray::try_from(&load_simple("minItems: 5"))
            .unwrap()
            .validate(&Context::new(), &load_simple("- 1234\n- 5678\n- acbd"))
            .unwrap_err(),
        plain_validation_err(ValidationErrorKind::ValidationError {
            error: s("array contains fewer than minItems items"),
        }),
    );
}

#[test]
fn array_from_integer() {
    assert_eq!(SchemaArray::try_from(&load_simple("10")).unwrap_err(), wrong_hash("integer"));
}

#[test]
fn array_from_array() {
    assert_eq!(
        SchemaArray::try_from(&load_simple("- hello\n- world")).unwrap_err(),
        wrong_hash("array"),
    );
}

#[test]
fn bool_from_string() {
    assert_eq!(SchemaString::try_from(&load_simple("true")).unwrap_err(), wrong_hash("boolean"));
}

#[test]
fn bool_from_integer() {
    assert_eq!(SchemaInteger::try_from(&load_simple("true")).unwrap_err(), wrong_hash("boolean"));
}

#[test]
fn bool_validate_integer() {
    assert_eq!(
        SchemaBool {}.validate(&Context::new(), &load_simple("10")).unwrap_err(),
        plain_validation_err(ValidationErrorKind::WrongType {
            expected: s("bool"),
            actual: s("integer"),
        }),
    );
}

#[test]
fn bool_validate_array() {
    assert_eq!(
        SchemaBool {}.validate(&Context::new(), &load_simple("- abc\n- 123")).unwrap_err(),
        plain_validation_err(ValidationErrorKind::WrongType {
            expected: s("bool"),
            actual: s("array"),
        }),
    );
}

#[test]
fn bool_validate_hash() {
    assert_eq!(
        SchemaBool {}.validate(&Context::new(), &load_simple("hello: world")).unwrap_err(),
        plain_validation_err(ValidationErrorKind::WrongType {
            expected: s("bool"),
            actual: s("hash"),
        }),
    );
}

#[test]
fn hash_from_string() {
    assert_eq!(SchemaHash::try_from(&load_simple("world")).unwrap_err(), wrong_hash("string"));
}

#[test]
fn hash_from_integer() {
    assert_eq!(SchemaHash::try_from(&load_simple("10")).unwrap_err(), wrong_hash("integer"));
}

#[test]
fn hash_from_array() {
    assert_eq!(
        SchemaHash::try_from(&load_simple("- hello\n- world")).unwrap_err(),
        wrong_hash("array"),
    );
}

#[test]
fn hash_validate_string() {
    assert_eq!(
        SchemaHash { items: None }
            .validate(&Context::new(), &load_simple("hello world"))
            .unwrap_err(),
        plain_validation_err(ValidationErrorKind::WrongType {
            expected: s("hash"),
            actual: s("string"),
        }),
    );
}

#[test]
fn hash_validate_integer() {
    assert_eq!(
        SchemaHash { items: None }.validate(&Context::new(), &load_simple("10")).unwrap_err(),
        plain_validation_err(ValidationErrorKind::WrongType {
            expected: s("hash"),
            actual: s("integer"),
        }),
    );
}

#[test]
fn integer_from_integer() {
    assert_eq!(SchemaInteger::try_from(&load_simple("10")).unwrap_err(), wrong_hash("integer"));
}

#[test]
fn integer_from_array() {
    assert_eq!(
        SchemaInteger::try_from(&load_simple("- hello\n- world")).unwrap_err(),
        wrong_hash("array"),
    );
}

#[test]
fn real_from_yaml() {
    SchemaReal::try_from(&load_simple("type: real")).unwrap();
}

#[test]
fn real_from_string() {
    assert_eq!(SchemaReal::try_from(&load_simple("world")).unwrap_err(), wrong_hash("string"));
}

#[test]
fn real_from_integer() {
    assert_eq!(SchemaReal::try_from(&load_simple("10")).unwrap_err(), wrong_hash("integer"));
}

#[test]
fn real_from_array() {
    assert_eq!(
        SchemaReal::try_from(&load_simple("- hello\n- world")).unwrap_err(),
        wrong_hash("array"),
    );
}

#[test]
fn object_from_string() {
    assert_eq!(SchemaObject::try_from(&load_simple("world")).unwrap_err(), wrong_hash("string"));
}

#[test]
fn object_from_integer() {
    assert_eq!(SchemaObject::try_from(&load_simple("10")).unwrap_err(), wrong_hash("integer"));
}

#[test]
fn object_from_array() {
    assert_eq!(
        SchemaObject::try_from(&load_simple("- hello\n- world")).unwrap_err(),
        wrong_hash("array"),
    );
}

fn bare_object_schema() -> SchemaObject {
    SchemaObject { items: vec![], required: None }
}

#[test]
fn object_validate_string() {
    assert_eq!(
        bare_object_schema().validate(&Context::new(), &load_simple("hello world")).unwrap_err(),
        plain_validation_err(ValidationErrorKind::WrongType {
            expected: s("hash"),
            actual: s("string"),
        }),
    );
}

#[test]
fn object_validate_integer() {
    assert_eq!(
        bare_object_schema().validate(&Context::new(), &load_simple("10")).unwrap_err(),
        plain_validation_err(ValidationErrorKind::WrongType {
            expected: s("hash"),
            actual: s("integer"),
        }),
    );
}

#[test]
fn object_validate_array() {
    assert_eq!(
        bare_object_schema().validate(&Context::new(), &load_simple("- abc\n- 123")).unwrap_err(),
        plain_validation_err(ValidationErrorKind::WrongType {
            expected: s("hash"),
            actual: s("array"),
        }),
    );
}

#[test]
fn any_of_validate_complex_subvalidators() {
    let yaml = load_simple(
        "anyOf:\n  - type: string\n    minLength: 10\n  - type: string\n    maxLength: 10",
    );
    let schema = SchemaAnyOf::try_from(&yaml).unwrap();

    schema.validate(&Context::new(), &load_simple("hello you")).unwrap();
    schema.validate(&Context::new(), &load_simple("hello you")).unwrap();
    schema.validate(&Context::new(), &load_simple("hello world")).unwrap();
}

#[test]
fn any_of_validate_multiple_valid_kinds() {
    let yaml = load_simple("anyOf:\n  - type: integer\n  - type: real");
    let schema = SchemaAnyOf::try_from(&yaml).unwrap();
    schema.validate(&Context::new(), &load_simple("10")).unwrap();
    schema.validate(&Context::new(), &load_simple("10.0")).unwrap();
}

#[test]
fn real_validate_min_valid() {
    let schema = SchemaReal::try_from(&load_simple("type: real\nminimum: 10.0")).unwrap();
    schema.validate(&Context::new(), &load_simple("10.0")).unwrap();
}

#[test]
fn real_validate_min_invalid() {
    let schema = SchemaReal::try_from(&load_simple("type: real\nminimum: 10.0")).unwrap();
    assert_eq!(
        schema.validate(&Context::new(), &load_simple("5.0")).unwrap_err(),
        plain_validation_err(ValidationErrorKind::ValidationError {
            error: s("value violates lower limit constraint"),
        }),
    );
}

#[test]
fn real_validate_max_exclusion() {
    let schema = SchemaReal::try_from(&load_simple("type: real\nexclusiveMaximum: 10.0")).unwrap();
    assert_eq!(
        schema.validate(&Context::new(), &load_simple("10.0")).unwrap_err(),
        plain_validation_err(ValidationErrorKind::ValidationError {
            error: s("value violates upper limit constraint"),
        }),
    );
}

#[test]
fn real_validate_max_valid() {
    let schema = SchemaReal::try_from(&load_simple("type: real\nmaximum: 10.0")).unwrap();
    schema.validate(&Context::new(), &load_simple("10.0")).unwrap();
}

#[test]
fn real_validate_max_invalid() {
    let schema = SchemaReal::try_from(&load_simple("type: real\nmaximum: 10.0")).unwrap();
    assert_eq!(
        schema.validate(&Context::new(), &load_simple("20.0")).unwrap_err(),
        plain_validation_err(ValidationErrorKind::ValidationError {
            error: s("value violates upper limit constraint"),
        }),
    );
}

#[test]
fn real_validate_multiple_of() {
    let schema = SchemaReal::try_from(&load_simple("type: real\nmultipleOf: 3.0")).unwrap();
    assert_eq!(
        schema.validate(&Context::new(), &load_simple("10.0")).unwrap_err(),
        plain_validation_err(ValidationErrorKind::ValidationError {
            error: s("value must be a multiple of the multipleOf field"),
        }),
    );
    schema.validate(&Context::new(), &load_simple("9.0")).unwrap();
}

#[test]
fn integer_validate_min_valid() {
    let schema = SchemaInteger::try_from(&load_simple("type: real\nminimum: 10")).unwrap();
    schema.validate(&Context::new(), &load_simple("10")).unwrap();
}

#[test]
fn real_validate_multiple_of_success() {
    let schema = SchemaReal::try_from(&load_simple("type: real\nmultipleOf: 18.5")).unwrap();
    schema.validate(&Context::new(), &load_simple("314.5")).unwrap();
}

#[test]
fn real_validate_array() {
    let bare = SchemaReal { minimum: None, maximum: None, multiple_of: None };
    assert_eq!(
        bare.validate(&Context::new(), &load_simple("- abc\n- 123")).unwrap_err(),
        plain_validation_err(ValidationErrorKind::WrongType {
            expected: s("real"),
            actual: s("array"),
        }),
    );
}

#[test]
fn real_validate_hash() {
    let bare = SchemaReal { minimum: None, maximum: None, multiple_of: None };
    assert_eq!(
        bare.validate(&Context::new(), &load_simple("hello: world")).unwrap_err(),
        plain_validation_err(ValidationErrorKind::WrongType {
            expected: s("real"),
            actual: s("hash"),
        }),
    );
}
