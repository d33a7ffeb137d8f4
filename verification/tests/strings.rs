use yaml_rust::{Yaml, YamlLoader};
use yaml_validator::breadcrumb::{Breadcrumb, BreadcrumbSegment};
use yaml_validator::errors::{SchemaError, SchemaErrorKind, ValidationError, ValidationErrorKind};
use yaml_validator::realnum::Real;
use yaml_validator::value::Value;
use yaml_validator::Context;

fn conv(y: &Yaml) -> Value {
    match y {
        Yaml::Real(_) => Value::Real(Real::from_bits(y.as_f64().unwrap().to_bits())),
        Yaml::Integer(i) => Value::Int(*i),
        Yaml::String(t) => Value::Str(t.clone()),
        Yaml::Boolean(b) => Value::Bool(*b),
        Yaml::Array(items) => Value::Array(items.iter().map(conv).collect()),
        Yaml::Hash(h) => Value::Hash(h.iter().map(|(k, v)| (conv(k), conv(v))).collect()),
        Yaml::Null => Value::Null,
        _ => Value::Bad,
    }
}

fn load_simple(source: &str) -> Value {
    conv(&YamlLoader::load_from_str(source).unwrap().remove(0))
}

fn s(t: &str) -> String {
    t.to_string()
}

fn plain_schema_err(kind: SchemaErrorKind) -> SchemaError {
    SchemaError { kind, state: Breadcrumb { segments: vec![] } }
}

fn plain_validation_err(kind: ValidationErrorKind) -> ValidationError {
    ValidationError { kind, state: Breadcrumb { segments: vec![] } }
}

use yaml_validator::types::string::SchemaString;

#[test]
fn string_from_yaml() {
    SchemaString::try_from(&load_simple("type: string")).unwrap();
}

#[test]
fn string_from_string() {
    assert_eq!(
        SchemaString::try_from(&load_simple("world")).unwrap_err(),
        plain_schema_err(SchemaErrorKind::WrongType { expected: s("hash"), actual: s("string") }),
    );
}

#[test]
fn string_from_integer() {
    assert_eq!(
        SchemaString::try_from(&load_simple("10")).unwrap_err(),
        plain_schema_err(SchemaErrorKind::WrongType { expected: s("hash"), actual: s("integer") }),
    );
}

#[test]
fn string_from_array() {
    assert_eq!(
        SchemaString::try_from(&load_simple("- hello\n- world")).unwrap_err(),
        plain_schema_err(SchemaErrorKind::WrongType { expected: s("hash"), actual: s("array") }),
    );
}

#[test]
fn with_regex() {
    SchemaString::try_from(&load_simple("type: string\npattern: \\w+.*")).unwrap();
}

#[test]
fn with_malformed_max_length() {
    assert_eq!(
        SchemaString::try_from(&load_simple("type: string\nmaxLength: -5")).unwrap_err(),
        SchemaErrorKind::MalformedField { error: s("must be a non-negative integer value") }
            .with_path_name(s("maxLength")),
    );
}

#[test]
fn with_malformed_min_length() {
    assert_eq!(
        SchemaString::try_from(&load_simple("type: string\nminLength: 205.02")).unwrap_err(),
        SchemaErrorKind::WrongType { actual: s("real"), expected: s("integer") }.with_path_name(
            s("minLength"),
        ),
    );
}

#[test]
fn with_min_and_max_length() {
    SchemaString::try_from(&load_simple("type: string\nminLength: 10\nmaxLength: 20")).unwrap();
}

#[test]
fn with_min_larger_than_max_length() {
    assert_eq!(
        SchemaString::try_from(&load_simple("type: string\nminLength: 20\nmaxLength: 10"))
            .unwrap_err(),
        plain_schema_err(SchemaErrorKind::MalformedField {
            error: s("minLength cannot be greater than maxLength"),
        }),
    );
}

fn bare_string_schema() -> SchemaString {
    SchemaString { min_length: None, max_length: None, pattern: None }
}

#[test]
fn string_validate_string() {
    bare_string_schema().validate(&Context::new(), &load_simple("hello world")).unwrap();
}

#[test]
fn string_validate_integer() {
    assert_eq!(
        bare_string_schema().validate(&Context::new(), &load_simple("10")).unwrap_err(),
        plain_validation_err(ValidationErrorKind::WrongType {
            expected: s("string"),
            actual: s("integer"),
        }),
    );
}

#[test]
fn string_validate_array() {
    assert_eq!(
        bare_string_schema().validate(&Context::new(), &load_simple("- abc\n- 123")).unwrap_err(),
        plain_validation_err(ValidationErrorKind::WrongType {
            expected: s("string"),
            actual: s("array"),
        }),
    );
}

#[test]
fn string_validate_hash() {
    assert_eq!(
        bare_string_schema().validate(&Context::new(), &load_simple("hello: world")).unwrap_err(),
        plain_validation_err(ValidationErrorKind::WrongType {
            expected: s("string"),
            actual: s("hash"),
        }),
    );
}

#[test]
fn validate_min_and_max_length() {
    let schema = SchemaString::try_from(&load_simple("type: string\nminLength: 10\nmaxLength: 20"))
        .unwrap();

    schema.validate(&Context::new(), &load_simple("hello world")).unwrap();

    assert_eq!(
        schema.validate(&Context::new(), &load_simple("hello")).unwrap_err(),
        plain_validation_err(ValidationErrorKind::ValidationError {
            error: s("string length is less than minLength"),
        }),
    );

    assert_eq!(
        schema.validate(&Context::new(), &load_simple("hello woooooooooooooooorld!")).unwrap_err(),
        plain_validation_err(ValidationErrorKind::ValidationError {
            error: s("string length is greater than maxLength"),
        }),
    );
}

#[test]
fn validate_regex() {
    let yaml = load_simple("type: string\npattern: \"[a-zA-Z0-9]+\\\\[\\\\]\\\\d{3}f\"");

    let schema = SchemaString::try_from(&yaml).unwrap();

    schema.validate(&Context::new(), &load_simple("woRd5[]123f")).unwrap();

    assert_eq!(
        schema.validate(&Context::new(), &load_simple("world")).unwrap_err(),
        plain_validation_err(ValidationErrorKind::ValidationError {
            error: s("supplied value does not match regex pattern for field"),
        }),
    );
}

#[test]
fn pattern_actually_consults_the_text() {
    // A schema whose pattern can only match one of two otherwise
    // length-identical strings: a wrapper that ignored its text argument
    // could not tell them apart.
    let schema = SchemaString::try_from(&load_simple("type: string\npattern: \"^ab$\"")).unwrap();
    schema.validate(&Context::new(), &load_simple("ab")).unwrap();
    schema.validate(&Context::new(), &load_simple("xy")).unwrap_err();
}

#[test]
fn bad_pattern_is_a_compile_error() {
    let err = SchemaString::try_from(&load_simple("type: string\npattern: \"[\"")).unwrap_err();
    match err.kind {
        SchemaErrorKind::MalformedField { .. } => (),
        other => panic!("unexpected kind: {:?}", other),
    }
    assert_eq!(err.state.segments, vec![BreadcrumbSegment::Name(s("pattern"))]);
}
