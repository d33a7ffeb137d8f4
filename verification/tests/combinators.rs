use yaml_rust::{Yaml, YamlLoader};
use yaml_validator::breadcrumb::{Breadcrumb, BreadcrumbSegment};
use yaml_validator::errors::{SchemaError, SchemaErrorKind, ValidationError, ValidationErrorKind};
use yaml_validator::realnum::Real;
use yaml_validator::value::Value;
use yaml_validator::Context;

fn conv(y: &Yaml) -> Value {
    match y {
        Yaml::Real(_) => Value::Real(Real::from_bits(y.as_f64().unwrap().to_bits())),
        Yaml::Integer(i) => Value::Int(*i),
        Yaml::String(t) => Value::Str(t.clone()),
        Yaml::Boolean(b) => Value::Bool(*b),
        Yaml::Array(items) => Value::Array(items.iter().map(conv).collect()),
        Yaml::Hash(h) => Value::Hash(h.iter().map(|(k, v)| (conv(k), conv(v))).collect()),
        Yaml::Null => Value::Null,
        _ => Value::Bad,
    }
}

fn load_simple(source: &str) -> Value {
    conv(&YamlLoader::load_from_str(source).unwrap().remove(0))
}

fn s(t: &str) -> String {
    t.to_string()
}

fn plain_schema_err(kind: SchemaErrorKind) -> SchemaError {
    SchemaError { kind, state: Breadcrumb { segments: vec![] } }
}

fn plain_validation_err(kind: ValidationErrorKind) -> ValidationError {
    ValidationError { kind, state: Breadcrumb { segments: vec![] } }
}

use yaml_validator::modifiers::all_of::SchemaAllOf;
use yaml_validator::modifiers::any_of::SchemaAnyOf;
use yaml_validator::modifiers::not::SchemaNot;
use yaml_validator::modifiers::one_of::SchemaOneOf;
use yaml_validator::types::object::SchemaObject;
use yaml_validator::Schema;

#[test]
fn lib_from_yaml() {
    let docs = YamlLoader::load_from_str(
        "---\nuri: test\nschema:\n  type: integer\n---\nuri: another\nschema:\n  $ref: test\n",
    )
    .unwrap();
    let docs: Vec<Value> = docs.iter().map(conv).collect();
    let context = Context::try_from(&docs).unwrap();
    let schema = context.get_schema("another").unwrap();
    schema.validate(&context, &load_simple("20")).unwrap();
}

#[test]
fn not_from_yaml() {
    SchemaNot::try_from(&load_simple("not:\n  type: integer")).unwrap();

    assert_eq!(
        SchemaNot::try_from(&load_simple("note:\n  type: integer")).unwrap_err(),
        plain_schema_err(SchemaErrorKind::Multiple {
            errors: vec![
                plain_schema_err(SchemaErrorKind::FieldMissing { field: s("not") }),
                plain_schema_err(SchemaErrorKind::ExtraField { field: s("note") }),
            ],
        }),
    );
}

#[test]
fn not_extra_fields() {
    assert_eq!(
        SchemaNot::try_from(&load_simple("not:\n  type: hello\nextra: extra field test"))
            .unwrap_err(),
        plain_schema_err(SchemaErrorKind::ExtraField { field: s("extra") }),
    );
}

#[test]
fn validate_inversion_failure() {
    let yaml = load_simple("not:\n  type: integer");
    let schema = SchemaNot::try_from(&yaml).unwrap();
    assert_eq!(
        schema.validate(&Context::new(), &load_simple("20")).unwrap_err(),
        ValidationErrorKind::ValidationError {
            error: s("validation inversion failed because inner result matched"),
        }
        .with_path_name(s("not")),
    );
}

#[test]
fn validate_inversion_success() {
    let yaml = load_simple("not:\n  type: integer");
    let schema = SchemaNot::try_from(&yaml).unwrap();
    schema.validate(&Context::new(), &load_simple("hello world")).unwrap();
}

#[test]
fn validate_double_inversion() {
    let yaml = load_simple("not:\n  not:\n    type: integer");
    let schema = SchemaNot::try_from(&yaml).unwrap();
    schema.validate(&Context::new(), &load_simple("20")).unwrap();
}

#[test]
fn one_of_from_yaml() {
    SchemaOneOf::try_from(&load_simple("oneOf:\n  - type: integer\n  - type: string")).unwrap();

    assert_eq!(
        SchemaOneOf::try_from(&load_simple("oneOff:\n  - type: integer")).unwrap_err(),
        plain_schema_err(SchemaErrorKind::Multiple {
            errors: vec![
                plain_schema_err(SchemaErrorKind::FieldMissing { field: s("oneOf") }),
                plain_schema_err(SchemaErrorKind::ExtraField { field: s("oneOff") }),
            ],
        }),
    );
}

#[test]
fn one_of_validate_unit_case() {
    let yaml = load_simple("oneOf:\n  - type: integer");
    let schema = SchemaOneOf::try_from(&yaml).unwrap();
    schema.validate(&Context::new(), &load_simple("10")).unwrap();
}

#[test]
fn one_of_validate_multiple_valid() {
    let ambiguity = s(
        "multiple branches of oneOf validated successfully. oneOf must only contain a single valid branch",
    );
    assert_eq!(
        SchemaOneOf::try_from(&load_simple("oneOf:\n  - type: integer\n  - type: integer"))
            .unwrap()
            .validate(&Context::new(), &load_simple("10"))
            .unwrap_err(),
        ValidationErrorKind::Multiple {
            errors: vec![
                ValidationErrorKind::ValidationError { error: ambiguity.clone() }
                    .with_path_index(0),
                ValidationErrorKind::ValidationError { error: ambiguity.clone() }
                    .with_path_index(1),
            ],
        }
        .with_path_name(s("oneOf")),
    );
}

#[test]
fn validate_multiple_possible() {
    SchemaOneOf::try_from(&load_simple("oneOf:\n  - type: integer\n  - type: string"))
        .unwrap()
        .validate(&Context::new(), &load_simple("10"))
        .unwrap();
}

#[test]
fn one_of_validate_complex_subvalidators() {
    let yaml = load_simple(
        "oneOf:\n  - type: string\n    minLength: 10\n  - type: string\n    maxLength: 10",
    );
    let schema = SchemaOneOf::try_from(&yaml).unwrap();

    // An 11-character string only satisfies the first branch.
    schema.validate(&Context::new(), &load_simple("hello world")).unwrap();

    // A 9-character string only satisfies the second branch.
    schema.validate(&Context::new(), &load_simple("hello you")).unwrap();

    // A 10-character string satisfies both, which is ambiguity.
    let ambiguity = s(
        "multiple branches of oneOf validated successfully. oneOf must only contain a single valid branch",
    );
    assert_eq!(
        schema.validate(&Context::new(), &load_simple("hello you!")).unwrap_err(),
        ValidationErrorKind::Multiple {
            errors: vec![
                ValidationErrorKind::ValidationError { error: ambiguity.clone() }
                    .with_path_index(0),
                ValidationErrorKind::ValidationError { error: ambiguity.clone() }
                    .with_path_index(1),
            ],
        }
        .with_path_name(s("oneOf")),
    );
}

#[test]
fn all_of_one_of_from_yaml() {
    SchemaAllOf::try_from(&load_simple("allOf:\n  - type: integer\n  - type: string")).unwrap();
}

#[test]
fn all_of_validate_unit_case() {
    let yaml = load_simple("allOf:\n  - type: integer");
    let schema = SchemaAllOf::try_from(&yaml).unwrap();
    schema.validate(&Context::new(), &load_simple("10")).unwrap();
}

#[test]
fn validate_multiple_subvalidators() {
    let yaml = load_simple(
        "allOf:\n  - type: string\n    minLength: 5\n  - type: string\n    maxLength: 10",
    );
    let schema = SchemaAllOf::try_from(&yaml).unwrap();
    schema.validate(&Context::new(), &load_simple("hello you")).unwrap();
    schema.validate(&Context::new(), &load_simple("hi")).unwrap_err();
    schema.validate(&Context::new(), &load_simple("hello over there")).unwrap_err();
}

#[test]
fn any_of_one_of_from_yaml() {
    SchemaAnyOf::try_from(&load_simple("anyOf:\n  - type: integer\n  - type: string")).unwrap();
}

#[test]
fn any_of_validate_unit_case() {
    let yaml = load_simple("anyOf:\n  - type: integer");
    let schema = SchemaAnyOf::try_from(&yaml).unwrap();
    schema.validate(&Context::new(), &load_simple("10")).unwrap();
}

#[test]
fn any_of_validate_multiple_valid() {
    let yaml = load_simple("anyOf:\n  - type: integer\n  - type: integer");
    let schema = SchemaAnyOf::try_from(&yaml).unwrap();
    schema.validate(&Context::new(), &load_simple("10")).unwrap();
    schema.validate(&Context::new(), &load_simple("hello")).unwrap_err();
}

#[test]
fn reference_validate_string() {
    // A dangling reference fails with the unknown schema's URI.
    let docs: Vec<Value> = vec![load_simple("uri: holder\nschema:\n  $ref: test")];
    let context = Context::try_from(&docs).unwrap();
    let schema = context.get_schema("holder").unwrap();
    assert_eq!(
        schema.validate(&context, &load_simple("hello")).unwrap_err(),
        plain_validation_err(ValidationErrorKind::UnknownSchema { uri: s("test") }),
    );
}

#[test]
fn reference_cycle_resolves_through_optional_fields() {
    // A self-referential schema terminates on a document that bottoms out
    // in an empty optional object, in any declaration order.
    let doc = load_simple("next: {}");
    for source in [
        "uri: a\nschema:\n  type: object\n  items:\n    next:\n      $ref: a",
    ] {
        let docs: Vec<Value> = vec![load_simple(source)];
        let context = Context::try_from(&docs).unwrap();
        let schema = context.get_schema("a").unwrap();
        schema.validate(&context, &doc).unwrap();
    }
}

#[test]
fn reference_cycle_without_progress_is_cut_off() {
    // Two schemas that refer to each other without consuming any document
    // structure cannot loop forever; the engine reports the depth limit.
    let docs: Vec<Value> = vec![
        load_simple("uri: a\nschema:\n  $ref: b"),
        load_simple("uri: b\nschema:\n  $ref: a"),
    ];
    let context = Context::try_from(&docs).unwrap();
    let schema = context.get_schema("a").unwrap();
    let err = schema.validate(&context, &load_simple("10")).unwrap_err();
    match err.kind {
        ValidationErrorKind::RecursionLimit { .. } => (),
        other => panic!("unexpected kind: {:?}", other),
    }
}

#[test]
fn schema_test_error_path() {
    let yaml = load_simple(
        "items:\n  test:\n    type: integer\n  something:\n    type: object\n    items:\n      level2:\n        type: object\n        items:\n          leaf:\n            notype: hello",
    );
    let err = SchemaObject::try_from(&yaml).unwrap_err();
    assert_eq!(err.report(), "#.items.something.items.level2.items.leaf: field 'type' missing\n");
}

#[test]
fn schema_test_error_path_validation() {
    let yaml = load_simple(
        "items:\n  test:\n    type: integer\n  something:\n    type: object\n    items:\n      level2:\n        type: array\n        items:\n          type: object\n          items:\n            num:\n              type: integer",
    );
    let schema = SchemaObject::try_from(&yaml).unwrap();
    let document = load_simple(
        "test: 20\nsomething:\n  level2:\n    - num: abc\n    - num:\n        hash: value\n    - num:\n        - array: hello\n    - num: 10\n    - num: jkl",
    );
    let ctx = Context::new();
    let err = schema.validate(&ctx, &document).unwrap_err();
    assert_eq!(
        err.report(),
        "#.something.level2[0].num: wrong type, expected integer got string\n#.something.level2[1].num: wrong type, expected integer got hash\n#.something.level2[2].num: wrong type, expected integer got array\n#.something.level2[4].num: wrong type, expected integer got string\n",
    );
}

#[test]
fn string_length_report_scenario() {
    // A five-character string against minLength 10 / maxLength 20.
    let schema_doc = load_simple("uri: p\nschema:\n  type: string\n  minLength: 10\n  maxLength: 20");
    let docs: Vec<Value> = vec![schema_doc];
    let context = Context::try_from(&docs).unwrap();
    let schema = context.get_schema("p").unwrap();
    assert_eq!(
        schema.validate(&context, &load_simple("hello")).unwrap_err(),
        plain_validation_err(ValidationErrorKind::ValidationError {
            error: s("string length is less than minLength"),
        }),
    );
}

#[test]
fn unique_items_scenario_reports_first_duplicate() {
    let schema_doc = load_simple(
        "uri: q\nschema:\n  type: array\n  uniqueItems: true\n  items:\n    type: integer",
    );
    let docs: Vec<Value> = vec![schema_doc];
    let context = Context::try_from(&docs).unwrap();
    let schema = context.get_schema("q").unwrap();
    let err = schema.validate(&context, &load_simple("- 1\n- 2\n- 3\n- 1")).unwrap_err();
    assert_eq!(
        err,
        ValidationErrorKind::ValidationError { error: s("array contains duplicate key") }
            .with_path_index(3),
    );
    assert_eq!(
        err.report(),
        "#[3]: special requirements for field not met: array contains duplicate key\n",
    );
}

#[test]
fn later_schema_with_same_uri_shadows_earlier() {
    let docs: Vec<Value> = vec![
        load_simple("uri: v\nschema:\n  type: integer"),
        load_simple("uri: v\nschema:\n  type: string"),
    ];
    let context = Context::try_from(&docs).unwrap();
    let schema = context.get_schema("v").unwrap();
    schema.validate(&context, &load_simple("hello")).unwrap();
    schema.validate(&context, &load_simple("10")).unwrap_err();
}

#[test]
fn schema_document_must_hold_uri_and_schema() {
    let err = Schema::try_from(&load_simple("uri: lonely")).unwrap_err();
    assert_eq!(
        err,
        plain_schema_err(SchemaErrorKind::FieldMissing { field: s("schema") }),
    );
}

#[test]
fn mutual_references_resolve_in_any_order() {
    let first = "uri: a\nschema:\n  type: object\n  items:\n    next:\n      $ref: b";
    let second = "uri: b\nschema:\n  type: integer";
    let doc = load_simple("next: 5");
    for order in [[first, second], [second, first]] {
        let docs: Vec<Value> = order.iter().map(|t| load_simple(t)).collect();
        let context = Context::try_from(&docs).unwrap();
        let schema = context.get_schema("a").unwrap();
        schema.validate(&context, &doc).unwrap();
    }
}

#[test]
fn report_renders_two_digit_indices() {
    let schema_doc = load_simple("uri: w\nschema:\n  type: array\n  items:\n    type: integer");
    let docs: Vec<Value> = vec![schema_doc];
    let context = Context::try_from(&docs).unwrap();
    let schema = context.get_schema("w").unwrap();
    let err = schema
        .validate(
            &context,
            &load_simple("- 0\n- 1\n- 2\n- 3\n- 4\n- 5\n- 6\n- 7\n- 8\n- 9\n- 10\n- oops"),
        )
        .unwrap_err();
    assert_eq!(err.report(), "#[11]: wrong type, expected integer got string\n");
}
