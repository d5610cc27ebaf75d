use soma_media::error::MediaError;
use soma_media::validation::{fits, validate_input, Field, JsonKind, Property, Schema};

fn field(name: &str, kind: JsonKind, shown: &str) -> Field {
    Field { name: name.to_string(), kind, shown: shown.to_string() }
}

fn property(name: &str, expected: Option<&str>) -> Property {
    Property { name: name.to_string(), expected: expected.map(|s| s.to_string()) }
}

fn message(r: Result<(), MediaError>) -> String {
    match r {
        Err(MediaError::ValidationError(m)) => m,
        other => panic!("no validation error: {:?}", other),
    }
}

#[test]
fn test_validate_required_fields() {
    let schema = Schema {
        required: Some(vec![Some("input_path".to_string()), Some("output_path".to_string())]),
        properties: None,
    };

    let valid_input = vec![
        field("input_path", JsonKind::Text, "String(\"/tmp/input.mp3\")"),
        field("output_path", JsonKind::Text, "String(\"/tmp/output.wav\")"),
    ];

    assert!(validate_input(&valid_input, &schema).is_ok());

    let invalid_input = vec![field("input_path", JsonKind::Text, "String(\"/tmp/input.mp3\")")];

    assert!(validate_input(&invalid_input, &schema).is_err());
}

#[test]
fn test_validate_types() {
    let schema = Schema {
        required: None,
        properties: Some(vec![property("quality", Some("integer")), property("force", Some("boolean"))]),
    };

    let valid_input = vec![
        field("quality", JsonKind::Number, "Number(92)"),
        field("force", JsonKind::Boolean, "Bool(true)"),
    ];

    assert!(validate_input(&valid_input, &schema).is_ok());

    let invalid_input = vec![
        field("quality", JsonKind::Text, "String(\"ninety-two\")"),
        field("force", JsonKind::Boolean, "Bool(true)"),
    ];

    assert!(validate_input(&invalid_input, &schema).is_err());
}

#[test]
fn missing_field_is_named() {
    let schema = Schema {
        required: Some(vec![Some("a".to_string()), Some("b".to_string()), Some("c".to_string())]),
        properties: None,
    };
    let input = vec![field("c", JsonKind::Null, "Null"), field("a", JsonKind::Null, "Null")];
    assert_eq!(message(validate_input(&input, &schema)), "Missing required field: b");
    assert_eq!(message(validate_input(&[], &schema)), "Missing required field: a");
}

#[test]
fn required_entry_that_is_no_name_is_a_fault_of_the_schema() {
    let schema = Schema { required: Some(vec![Some("a".to_string()), None]), properties: None };
    let input = vec![field("a", JsonKind::Number, "Number(1)")];
    assert_eq!(message(validate_input(&input, &schema)), "Invalid schema: required field not a string");
    assert_eq!(message(validate_input(&[], &schema)), "Missing required field: a");
}

#[test]
fn first_mismatch_is_reported_with_the_value() {
    let schema = Schema {
        required: Some(vec![Some("n".to_string())]),
        properties: Some(vec![
            property("n", Some("number")),
            property("s", Some("string")),
            property("free", None),
            property("odd", Some("decimal")),
        ]),
    };
    let input = vec![
        field("free", JsonKind::Array, "Array []"),
        field("odd", JsonKind::Object, "Object {}"),
        field("extra", JsonKind::Null, "Null"),
        field("n", JsonKind::Number, "Number(1)"),
        field("s", JsonKind::Number, "Number(2)"),
        field("n", JsonKind::Text, "String(\"late\")"),
    ];
    assert_eq!(message(validate_input(&input, &schema)), "Type mismatch: expected string, got Number(2)");
    assert!(validate_input(&input[..4], &schema).is_ok());
    let missing = vec![field("s", JsonKind::Number, "Number(2)")];
    assert_eq!(message(validate_input(&missing, &schema)), "Missing required field: n");
}

#[test]
fn schema_without_rules_accepts_everything() {
    let schema = Schema { required: None, properties: None };
    assert!(validate_input(&[], &schema).is_ok());
    assert!(validate_input(&[field("x", JsonKind::Object, "Object {}")], &schema).is_ok());
    let empty = Schema { required: Some(Vec::new()), properties: Some(Vec::new()) };
    assert!(validate_input(&[field("x", JsonKind::Object, "Object {}")], &empty).is_ok());
}

#[test]
fn kinds_fit_their_type_names() {
    let kinds = [
        JsonKind::Null,
        JsonKind::Boolean,
        JsonKind::Number,
        JsonKind::Text,
        JsonKind::Array,
        JsonKind::Object,
    ];
    let names = [
        ("null", JsonKind::Null),
        ("boolean", JsonKind::Boolean),
        ("number", JsonKind::Number),
        ("integer", JsonKind::Number),
        ("string", JsonKind::Text),
        ("array", JsonKind::Array),
        ("object", JsonKind::Object),
    ];
    for (name, fitting) in names {
        for kind in kinds {
            assert_eq!(fits(kind, name), kind == fitting);
        }
    }
    for kind in kinds {
        assert!(fits(kind, "anything"));
        assert!(fits(kind, "String"));
        assert!(fits(kind, ""));
    }
}
