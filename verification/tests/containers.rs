use yaml_rust::{Yaml, YamlLoader};
use yaml_validator::breadcrumb::{Breadcrumb, BreadcrumbSegment};
use yaml_validator::errors::{SchemaError, SchemaErrorKind, ValidationError, ValidationErrorKind};
use yaml_validator::realnum::Real;
use yaml_validator::value::Value;
use yaml_validator::Context;

fn conv(y: &Yaml) -> Value {
    match y {
        Yaml::Real(_) => Value::Real(Real::from_bits(y.as_f64().unwrap().to_bits())),
        Yaml::Integer(i) => Value::Int(*i),
        Yaml::String(t) => Value::Str(t.clone()),
        Yaml::Boolean(b) => Value::Bool(*b),
        Yaml::Array(items) => Value::Array(items.iter().map(conv).collect()),
        Yaml::Hash(h) => Value::Hash(h.iter().map(|(k, v)| (conv(k), conv(v))).collect()),
        Yaml::Null => Value::Null,
        _ => Value::Bad,
    }
}

fn load_simple(source: &str) -> Value {
    conv(&YamlLoader::load_from_str(source).unwrap().remove(0))
}

fn s(t: &str) -> String {
    t.to_string()
}

fn plain_schema_err(kind: SchemaErrorKind) -> SchemaError {
    SchemaError { kind, state: Breadcrumb { segments: vec![] } }
}

fn plain_validation_err(kind: ValidationErrorKind) -> ValidationError {
    ValidationError { kind, state: Breadcrumb { segments: vec![] } }
}

use yaml_validator::types::array::SchemaArray;
use yaml_validator::types::boolean::SchemaBool;
use yaml_validator::types::hash::SchemaHash;
use yaml_validator::types::object::SchemaObject;

fn idx_path(kind: ValidationErrorKind, i: usize) -> ValidationError {
    ValidationError { kind, state: Breadcrumb { segments: vec![BreadcrumbSegment::Index(i)] } }
}

#[test]
fn array_from_yaml() {
    SchemaArray::try_from(&load_simple("items:\n  type: string")).unwrap();
}

#[test]
fn array_malformed_items() {
    assert_eq!(
        SchemaArray::try_from(&load_simple("items:\n  - type: string")).unwrap_err(),
        SchemaError {
            kind: SchemaErrorKind::WrongType { expected: s("hash"), actual: s("array") },
            state: Breadcrumb { segments: vec![BreadcrumbSegment::Name(s("items"))] },
        },
    );
}

#[test]
fn array_from_string() {
    assert_eq!(
        SchemaArray::try_from(&load_simple("world")).unwrap_err(),
        plain_schema_err(SchemaErrorKind::WrongType { expected: s("hash"), actual: s("string") }),
    );
}

#[test]
fn with_invalid_range() {
    SchemaArray::try_from(&load_simple("minItems: 10\nmaxItems: 10")).unwrap();

    assert_eq!(
        SchemaArray::try_from(&load_simple("minItems: 10\nmaxItems: 5")).unwrap_err(),
        plain_schema_err(SchemaErrorKind::MalformedField {
            error: s("minItems cannot be greater than maxItems"),
        }),
    );
}

#[test]
fn validate_bounded_typed_array() {
    let yaml = load_simple("minItems: 2\nmaxItems: 10\nitems:\n  type: integer");
    SchemaArray::try_from(&yaml)
        .unwrap()
        .validate(&Context::new(), &load_simple("- 1234\n- 5678\n- 9876"))
        .unwrap();
}

#[test]
fn validate_unique_typed_array() {
    let yaml = load_simple("uniqueItems: true\nitems:\n  type: integer");
    SchemaArray::try_from(&yaml)
        .unwrap()
        .validate(&Context::new(), &load_simple("- 1234\n- 5678\n- 9876"))
        .unwrap();
}

#[test]
fn validate_unique_typed_array_duplicates() {
    let yaml = load_simple("uniqueItems: true\nitems:\n  type: integer");
    assert_eq!(
        SchemaArray::try_from(&yaml)
            .unwrap()
            .validate(&Context::new(), &load_simple("- 1234\n- 5678\n- 9876\n- 1234\n- 8286"))
            .unwrap_err(),
        idx_path(
            ValidationErrorKind::ValidationError { error: s("array contains duplicate key") },
            3,
        ),
    );
}

#[test]
fn array_validate_typed_array() {
    let yaml = load_simple("items:\n  type: integer");
    assert_eq!(
        SchemaArray::try_from(&yaml)
            .unwrap()
            .validate(
                &Context::new(),
                &load_simple("- abc\n- 1\n- 2\n- 3\n- def\n- 4\n- hello: world"),
            )
            .unwrap_err(),
        plain_validation_err(ValidationErrorKind::Multiple {
            errors: vec![
                idx_path(
                    ValidationErrorKind::WrongType { expected: s("integer"), actual: s("string") },
                    0,
                ),
                idx_path(
                    ValidationErrorKind::WrongType { expected: s("integer"), actual: s("string") },
                    4,
                ),
                idx_path(
                    ValidationErrorKind::WrongType { expected: s("integer"), actual: s("hash") },
                    6,
                ),
            ],
        }),
    );
}

#[test]
fn array_validate_untyped_array() {
    let bare = SchemaArray {
        items: None,
        min_items: None,
        max_items: None,
        unique_items: false,
        contains: None,
        min_contains: None,
        max_contains: None,
    };
    bare.validate(&Context::new(), &load_simple("- abc\n- 123")).unwrap();
}

#[test]
fn validate_array_contains() {
    let yaml = load_simple(
        "minContains: 2\nmaxContains: 10\ncontains:\n  type: integer\n  minimum: 5\n  maximum: 20",
    );
    SchemaArray::try_from(&yaml)
        .unwrap()
        .validate(&Context::new(), &load_simple("- 1234\n- 5678\n- 9876\n- 50\n- 15\n- 10"))
        .unwrap();
}

#[test]
fn contains_without_schema_is_malformed() {
    assert_eq!(
        SchemaArray::try_from(&load_simple("minContains: 2")).unwrap_err(),
        plain_schema_err(SchemaErrorKind::MalformedField {
            error: s("minContains requires 'contains' to specify a schema to validate against"),
        }),
    );
}

#[test]
fn bool_from_yaml() {
    SchemaBool::try_from(&load_simple("type: bool")).unwrap();
}

#[test]
fn bool_validate_string() {
    SchemaBool {}.validate(&Context::new(), &load_simple("true")).unwrap();
}

#[test]
fn hash_from_yaml() {
    SchemaHash::try_from(&load_simple("items:\n  type: string")).unwrap();
}

#[test]
fn hash_malformed_items() {
    assert_eq!(
        SchemaHash::try_from(&load_simple("items:\n  - type: string")).unwrap_err(),
        SchemaError {
            kind: SchemaErrorKind::WrongType { expected: s("hash"), actual: s("array") },
            state: Breadcrumb { segments: vec![BreadcrumbSegment::Name(s("items"))] },
        },
    );
}

#[test]
fn validate_untyped_hash() {
    SchemaHash { items: None }.validate(&Context::new(), &load_simple("hello: world")).unwrap();
}

#[test]
fn validate_typed_hash() {
    let yaml = load_simple("type: hash\nitems:\n  type: integer");
    let schema = SchemaHash::try_from(&yaml).unwrap();
    schema.validate(&Context::new(), &load_simple("hello: 20")).unwrap();
}

#[test]
fn validate_invalid_typed_hash() {
    let yaml = load_simple("type: hash\nitems:\n  type: integer");
    let schema = SchemaHash::try_from(&yaml).unwrap();
    assert_eq!(
        schema
            .validate(&Context::new(), &load_simple("hello: 20\nworld: clearly a string"))
            .unwrap_err(),
        idx_path(
            ValidationErrorKind::WrongType { expected: s("integer"), actual: s("string") },
            1,
        ),
    );
}

#[test]
fn object_from_yaml() {
    SchemaObject::try_from(&load_simple("items:\n  something:\n    type: string")).unwrap();
}

#[test]
fn object_extra_fields() {
    assert_eq!(
        SchemaObject::try_from(&load_simple(
            "items:\n  something:\n    type: hello\nextra: extra field test",
        ))
        .unwrap_err(),
        plain_schema_err(SchemaErrorKind::ExtraField { field: s("extra") }),
    );
}

#[test]
fn object_malformed_items() {
    assert_eq!(
        SchemaObject::try_from(&load_simple("items:\n  hello: world")).unwrap_err(),
        SchemaError {
            kind: SchemaErrorKind::WrongType { expected: s("hash"), actual: s("string") },
            state: Breadcrumb {
                segments: vec![
                    BreadcrumbSegment::Name(s("hello")),
                    BreadcrumbSegment::Name(s("items")),
                ],
            },
        },
    );
}

#[test]
fn object_multiple_errors() {
    assert_eq!(
        SchemaObject::try_from(&load_simple(
            "items:\n  valid:\n    type: string\n  error 1:\n    type: unknown1\n  error 2:\n    type: unknown2",
        ))
        .unwrap_err(),
        plain_schema_err(SchemaErrorKind::Multiple {
            errors: vec![
                SchemaError {
                    kind: SchemaErrorKind::UnknownType { unknown_type: s("unknown1") },
                    state: Breadcrumb {
                        segments: vec![
                            BreadcrumbSegment::Name(s("error 1")),
                            BreadcrumbSegment::Name(s("items")),
                        ],
                    },
                },
                SchemaError {
                    kind: SchemaErrorKind::UnknownType { unknown_type: s("unknown2") },
                    state: Breadcrumb {
                        segments: vec![
                            BreadcrumbSegment::Name(s("error 2")),
                            BreadcrumbSegment::Name(s("items")),
                        ],
                    },
                },
            ],
        }),
    );
}

#[test]
fn object_validate_noncompliant() {
    let yaml = load_simple(
        "items:\n  hello:\n    type: string\n  world:\n    type: integer",
    );
    let schema = SchemaObject::try_from(&yaml).unwrap();
    assert_eq!(
        schema.validate(&Context::new(), &load_simple("hello: 20\nworld: world")).unwrap_err(),
        plain_validation_err(ValidationErrorKind::Multiple {
            errors: vec![
                ValidationError {
                    kind: ValidationErrorKind::WrongType {
                        expected: s("string"),
                        actual: s("integer"),
                    },
                    state: Breadcrumb { segments: vec![BreadcrumbSegment::Name(s("hello"))] },
                },
                ValidationError {
                    kind: ValidationErrorKind::WrongType {
                        expected: s("integer"),
                        actual: s("string"),
                    },
                    state: Breadcrumb { segments: vec![BreadcrumbSegment::Name(s("world"))] },
                },
            ],
        }),
    );
}

#[test]
fn validate_optional() {
    let yaml = load_simple("items:\n  hello:\n    type: string\n  world:\n    type: integer");
    let schema = SchemaObject::try_from(&yaml).unwrap();
    schema.validate(&Context::new(), &load_simple("hello: world")).unwrap();
}

#[test]
fn validate_required() {
    let yaml = load_simple(
        "items:\n  hello:\n    type: string\n  world:\n    type: integer\nrequired:\n    - hello\n    - world",
    );
    let schema = SchemaObject::try_from(&yaml).unwrap();
    assert_eq!(
        schema.validate(&Context::new(), &load_simple("hello: world")).unwrap_err(),
        plain_validation_err(ValidationErrorKind::FieldMissing { field: s("world") }),
    );
}

#[test]
fn missing_required_field_reports_at_empty_path() {
    // An empty document against an object schema requiring `name`.
    let yaml = load_simple("items:\n  name:\n    type: string\nrequired:\n  - name");
    let schema = SchemaObject::try_from(&yaml).unwrap();
    let err = schema.validate(&Context::new(), &load_simple("{}")).unwrap_err();
    assert_eq!(
        err,
        plain_validation_err(ValidationErrorKind::FieldMissing { field: s("name") }),
    );
    assert_eq!(err.report(), "#: field 'name' missing\n");
}

#[test]
fn exhaustive_aggregation_counts_every_bad_field() {
    // Three independently invalid fields give one aggregate with exactly
    // three entries, whatever the declaration order.
    let yaml = load_simple(
        "items:\n  a:\n    type: integer\n  b:\n    type: string\n  c:\n    type: boolean",
    );
    let schema = SchemaObject::try_from(&yaml).unwrap();
    let err = schema
        .validate(&Context::new(), &load_simple("a: x\nb: 1\nc: 2"))
        .unwrap_err();
    match err.kind {
        ValidationErrorKind::Multiple { errors } => assert_eq!(errors.len(), 3),
        other => panic!("unexpected kind: {:?}", other),
    }
    let reordered = load_simple(
        "items:\n  c:\n    type: boolean\n  b:\n    type: string\n  a:\n    type: integer",
    );
    let schema2 = SchemaObject::try_from(&reordered).unwrap();
    let err2 = schema2
        .validate(&Context::new(), &load_simple("a: x\nb: 1\nc: 2"))
        .unwrap_err();
    match err2.kind {
        ValidationErrorKind::Multiple { errors } => assert_eq!(errors.len(), 3),
        other => panic!("unexpected kind: {:?}", other),
    }
}
