use guiyi_engine::command::input::member;
use guiyi_engine::ids::EngineTypeId;
use guiyi_engine::json::{json_equal, Dyadic, JsonNumber, JsonValue, NumberRepr};
use guiyi_engine::schema::registry::{SchemaRegistry, SchemaRegistryError};
use guiyi_engine::schema::{
    FieldSchema, NumericBound, SchemaNode, ValueKind, COMMAND_INPUT_ADDITIONAL_PROPERTY,
    COMMAND_INPUT_CONSTRAINT_FAILED, COMMAND_INPUT_ENUM_MISMATCH, COMMAND_INPUT_NULL_NOT_ALLOWED,
    COMMAND_INPUT_REQUIRED, COMMAND_INPUT_TYPE_MISMATCH, SCHEMA_DEFINITION_INVALID,
    SCHEMA_DIALECT_VERSION,
};

fn dyadic_of(f: f64) -> Dyadic {
    if f == 0.0 {
        return Dyadic { mantissa: 0, exponent: 0 };
    }
    let bits = f.to_bits();
    let exp = ((bits >> 52) & 0x7ff) as i32;
    let frac = bits & ((1u64 << 52) - 1);
    let (m, e) = if exp == 0 { (frac, -1074) } else { (frac | (1u64 << 52), exp - 1075) };
    let m = m as i64;
    Dyadic { mantissa: if bits >> 63 == 1 { -m } else { m }, exponent: e }
}

fn number_of(n: &serde_json::Number) -> JsonNumber {
    if let Some(u) = n.as_u64() {
        let approx = if u <= i64::MAX as u64 {
            Dyadic { mantissa: u as i64, exponent: 0 }
        } else {
            Dyadic { mantissa: (u >> 1) as i64, exponent: 1 }
        };
        JsonNumber { repr: NumberRepr::PosInt(u), approx, text: u.to_string(), json_text: u.to_string() }
    } else if let Some(i) = n.as_i64() {
        JsonNumber {
            repr: NumberRepr::NegInt(i),
            approx: Dyadic { mantissa: i, exponent: 0 },
            text: i.to_string(),
            json_text: i.to_string(),
        }
    } else {
        let f = n.as_f64().unwrap();
        JsonNumber {
            repr: NumberRepr::Float(dyadic_of(f)),
            approx: dyadic_of(f),
            text: format!("{}", f),
            json_text: n.to_string(),
        }
    }
}

fn engine_value(v: &serde_json::Value) -> JsonValue {
    match v {
        serde_json::Value::Null => JsonValue::Null,
        serde_json::Value::Bool(b) => JsonValue::Bool(*b),
        serde_json::Value::Number(n) => JsonValue::Number(number_of(n)),
        serde_json::Value::String(s) => JsonValue::String(s.clone()),
        serde_json::Value::Array(items) => JsonValue::Array(items.iter().map(engine_value).collect()),
        serde_json::Value::Object(members) => JsonValue::Object(
            members.iter().map(|(k, x)| (k.clone(), engine_value(x))).collect(),
        ),
    }
}

/// A value written as JSON text.
fn js(text: &str) -> JsonValue {
    engine_value(&serde_json::from_str::<serde_json::Value>(text).unwrap())
}

fn bound(f: f64) -> NumericBound {
    NumericBound {
        value: dyadic_of(f),
        text: format!("{}", f),
        json_text: serde_json::to_string(&f).unwrap(),
    }
}

fn field<'a>(v: &'a JsonValue, name: &str) -> Option<&'a JsonValue> {
    match v {
        JsonValue::Object(members) => member(members, name),
        _ => None,
    }
}

fn field_is(v: &JsonValue, name: &str, expected: &str) -> bool {
    match field(v, name) {
        Some(x) => json_equal(x, &js(expected)),
        None => false,
    }
}

fn first_path(bag: &guiyi_engine::diagnostics::DiagnosticBag) -> Option<String> {
    bag.diagnostics[0].location.as_ref().unwrap().field_path.clone()
}

#[test]
fn validates_correct_string_value() {
    let schema = SchemaNode::string();
    assert!(schema.validate_value(&js("\"hello\"")).diagnostics.is_empty());
}

#[test]
fn rejects_non_string_value() {
    let schema = SchemaNode::string();
    let bag = schema.validate_value(&js("42"));
    assert_eq!(bag.diagnostics[0].code, COMMAND_INPUT_TYPE_MISMATCH);
    assert_eq!(first_path(&bag), Some("".to_string()));
}

#[test]
fn validates_integer_rejects_float() {
    let schema = SchemaNode::integer();
    let bag = schema.validate_value(&js("3.5"));
    assert!(bag.has_errors());
    assert_eq!(bag.diagnostics[0].code, COMMAND_INPUT_TYPE_MISMATCH);
}

#[test]
fn validates_number_accepts_integer_and_float() {
    let schema = SchemaNode::number();
    assert!(!schema.validate_value(&js("42")).has_errors());
    assert!(!schema.validate_value(&js("2.5")).has_errors());
}

#[test]
fn validates_boolean() {
    let schema = SchemaNode::boolean();
    assert!(!schema.validate_value(&js("true")).has_errors());
    assert!(schema.validate_value(&js("\"true\"")).has_errors());
}

#[test]
fn null_rejected_on_non_nullable() {
    let schema = SchemaNode::string();
    let bag = schema.validate_value(&JsonValue::Null);
    assert_eq!(bag.diagnostics[0].code, COMMAND_INPUT_NULL_NOT_ALLOWED);
}

#[test]
fn null_allowed_on_nullable() {
    let schema = SchemaNode::string().nullable();
    assert!(!schema.validate_value(&JsonValue::Null).has_errors());
}

#[test]
fn enum_rejects_non_member() {
    let schema = SchemaNode::string().with_enum(vec![js("\"a\""), js("\"b\"")]);
    let bag = schema.validate_value(&js("\"c\""));
    assert_eq!(bag.diagnostics[0].code, COMMAND_INPUT_ENUM_MISMATCH);
}

#[test]
fn enum_accepts_member() {
    let schema = SchemaNode::string().with_enum(vec![js("\"a\""), js("\"b\"")]);
    assert!(!schema.validate_value(&js("\"a\"")).has_errors());
}

#[test]
fn numeric_minimum_rejects_below() {
    let schema = SchemaNode::integer().with_minimum(bound(1.0));
    let bag = schema.validate_value(&js("0"));
    assert_eq!(bag.diagnostics[0].code, COMMAND_INPUT_CONSTRAINT_FAILED);
}

#[test]
fn numeric_maximum_rejects_above() {
    let schema = SchemaNode::integer().with_maximum(bound(10.0));
    let bag = schema.validate_value(&js("11"));
    assert_eq!(bag.diagnostics[0].code, COMMAND_INPUT_CONSTRAINT_FAILED);
}

#[test]
fn string_min_length_rejects_short() {
    let schema = SchemaNode::string().with_min_length(3);
    let bag = schema.validate_value(&js("\"ab\""));
    assert_eq!(bag.diagnostics[0].code, COMMAND_INPUT_CONSTRAINT_FAILED);
}

#[test]
fn string_max_length_rejects_long() {
    let schema = SchemaNode::string().with_max_length(3);
    let bag = schema.validate_value(&js("\"abcd\""));
    assert_eq!(bag.diagnostics[0].code, COMMAND_INPUT_CONSTRAINT_FAILED);
}

#[test]
fn array_min_items_rejects_short() {
    let schema = SchemaNode::array(SchemaNode::string()).with_min_items(2);
    let bag = schema.validate_value(&js("[\"a\"]"));
    assert_eq!(bag.diagnostics[0].code, COMMAND_INPUT_CONSTRAINT_FAILED);
}

#[test]
fn array_max_items_rejects_long() {
    let schema = SchemaNode::array(SchemaNode::string()).with_max_items(2);
    let bag = schema.validate_value(&js("[\"a\", \"b\", \"c\"]"));
    assert_eq!(bag.diagnostics[0].code, COMMAND_INPUT_CONSTRAINT_FAILED);
}

#[test]
fn array_unique_items_rejects_duplicates() {
    let schema = SchemaNode::array(SchemaNode::integer()).unique_items();
    let bag = schema.validate_value(&js("[1, 2, 1]"));
    assert!(bag.has_errors());
    assert_eq!(bag.diagnostics[0].code, COMMAND_INPUT_CONSTRAINT_FAILED);
}

#[test]
fn array_item_validation_with_index_path() {
    let schema = SchemaNode::array(SchemaNode::integer());
    let bag = schema.validate_value(&js("[1, \"two\", 3]"));
    assert_eq!(first_path(&bag).as_deref(), Some("/1"));
}

#[test]
fn object_required_field_missing() {
    let schema = SchemaNode::object(vec![FieldSchema::required("name", SchemaNode::string())]);
    let bag = schema.validate_value(&js("{}"));
    assert_eq!(bag.diagnostics[0].code, COMMAND_INPUT_REQUIRED);
    assert_eq!(first_path(&bag).as_deref(), Some("/name"));
}

#[test]
fn object_wrong_root_type() {
    let schema = SchemaNode::object(vec![]);
    let bag = schema.validate_value(&js("[1, 2]"));
    assert_eq!(bag.diagnostics[0].code, COMMAND_INPUT_TYPE_MISMATCH);
}

#[test]
fn object_additional_property_forbidden() {
    let schema = SchemaNode::object(vec![FieldSchema::required("name", SchemaNode::string())])
        .forbid_additional_properties();
    let bag = schema.validate_value(&js("{\"name\": \"ok\", \"extra\": 1}"));
    assert_eq!(bag.diagnostics[0].code, COMMAND_INPUT_ADDITIONAL_PROPERTY);
    assert_eq!(first_path(&bag).as_deref(), Some("/extra"));
}

#[test]
fn object_additional_property_allowed_by_default() {
    let schema = SchemaNode::object(vec![FieldSchema::required("name", SchemaNode::string())]);
    assert!(!schema.validate_value(&js("{\"name\": \"ok\", \"extra\": 1}")).has_errors());
}

#[test]
fn nested_object_field_path() {
    let schema = SchemaNode::object(vec![FieldSchema::required(
        "meta",
        SchemaNode::object(vec![FieldSchema::required("version", SchemaNode::integer())]),
    )]);
    let bag = schema.validate_value(&js("{\"meta\": {\"version\": \"x\"}}"));
    assert_eq!(first_path(&bag).as_deref(), Some("/meta/version"));
}

#[test]
fn normalize_applies_defaults_for_optional_fields() {
    let schema = SchemaNode::object(vec![
        FieldSchema::required("id", SchemaNode::string()),
        FieldSchema::optional("version", SchemaNode::integer().with_default(js("1"))),
        FieldSchema::optional("payload", SchemaNode::any().with_default(js("{}"))),
    ]);
    let normalized = schema.validate_and_normalize(&js("{\"id\": \"doc.1\"}")).unwrap();
    assert!(field_is(&normalized, "version", "1"));
    assert!(field_is(&normalized, "payload", "{}"));
}

#[test]
fn normalize_preserves_provided_values() {
    let schema = SchemaNode::object(vec![
        FieldSchema::required("id", SchemaNode::string()),
        FieldSchema::optional("version", SchemaNode::integer().with_default(js("1"))),
    ]);
    let normalized = schema
        .validate_and_normalize(&js("{\"id\": \"doc.1\", \"version\": 3}"))
        .unwrap();
    assert!(field_is(&normalized, "version", "3"));
}

#[test]
fn normalize_array_defaults() {
    let schema = SchemaNode::object(vec![
        FieldSchema::required("id", SchemaNode::string()),
        FieldSchema::optional("tags", SchemaNode::array(SchemaNode::string()).with_default(js("[]"))),
    ]);
    let normalized = schema.validate_and_normalize(&js("{\"id\": \"doc.1\"}")).unwrap();
    assert!(field_is(&normalized, "tags", "[]"));
}

#[test]
fn definition_rejects_min_length_on_integer() {
    let schema = SchemaNode::integer().with_min_length(1);
    let error = schema.validate_definition().unwrap_err();
    assert_eq!(error.code, SCHEMA_DEFINITION_INVALID);
    assert_eq!(error.keyword, "minLength");
}

#[test]
fn definition_rejects_minimum_on_string() {
    let schema = SchemaNode::string().with_minimum(bound(1.0));
    assert!(schema.validate_definition().is_err());
}

#[test]
fn definition_rejects_items_on_object() {
    let schema = SchemaNode {
        kind: ValueKind::Object,
        items: Some(Box::new(SchemaNode::string())),
        ..SchemaNode::object(vec![])
    };
    assert!(schema.validate_definition().is_err());
}

#[test]
fn definition_rejects_min_greater_than_max() {
    let schema = SchemaNode::integer().with_minimum(bound(10.0)).with_maximum(bound(5.0));
    let error = schema.validate_definition().unwrap_err();
    assert!(error.message.contains("greater than maximum"));
}

#[test]
fn definition_rejects_min_length_greater_than_max_length() {
    let schema = SchemaNode::string().with_min_length(10).with_max_length(5);
    assert!(schema.validate_definition().is_err());
}

#[test]
fn definition_rejects_duplicate_field_names() {
    let schema = SchemaNode::object(vec![
        FieldSchema::required("name", SchemaNode::string()),
        FieldSchema::required("name", SchemaNode::string()),
    ]);
    let error = schema.validate_definition().unwrap_err();
    assert!(error.message.contains("duplicate field"));
}

#[test]
fn definition_rejects_invalid_default() {
    let schema = SchemaNode::object(vec![FieldSchema::optional(
        "count",
        SchemaNode::integer().with_minimum(bound(1.0)).with_default(js("0")),
    )]);
    let error = schema.validate_definition().unwrap_err();
    assert_eq!(error.keyword, "default");
}

#[test]
fn definition_accepts_valid_schema() {
    let schema = SchemaNode::object(vec![
        FieldSchema::required("id", SchemaNode::string()),
        FieldSchema::optional(
            "version",
            SchemaNode::integer().with_minimum(bound(1.0)).with_default(js("1")),
        ),
        FieldSchema::optional(
            "tags",
            SchemaNode::array(SchemaNode::string()).with_min_items(0).with_default(js("[]")),
        ),
    ]);
    assert!(schema.validate_definition().is_ok());
}

#[test]
fn definition_validates_nested_schemas() {
    let schema = SchemaNode::object(vec![FieldSchema::required(
        "inner",
        SchemaNode::object(vec![FieldSchema::required(
            "count",
            SchemaNode::integer().with_min_length(1),
        )]),
    )]);
    let error = schema.validate_definition().unwrap_err();
    assert!(error.field_path.contains("inner"));
}

#[test]
fn renders_string_schema_with_version() {
    let schema = SchemaNode::string().with_min_length(1);
    let rendered = schema.to_json_schema();
    assert!(field_is(&rendered, "type", "\"string\""));
    assert!(field_is(&rendered, "minLength", "1"));
    assert!(field_is(&rendered, "x-schema-version", &SCHEMA_DIALECT_VERSION.to_string()));
}

#[test]
fn renders_object_with_properties_and_required() {
    let schema = SchemaNode::object(vec![
        FieldSchema::required("id", SchemaNode::string()),
        FieldSchema::optional("version", SchemaNode::integer().with_default(js("1"))),
    ]);
    let rendered = schema.to_json_schema();
    assert!(field_is(&rendered, "type", "\"object\""));
    let properties = field(&rendered, "properties").unwrap();
    assert!(field_is(field(properties, "id").unwrap(), "type", "\"string\""));
    assert!(field_is(field(properties, "version").unwrap(), "default", "1"));
    assert!(field_is(&rendered, "required", "[\"id\"]"));
    assert!(field_is(&rendered, "additionalProperties", "true"));
    assert!(field_is(&rendered, "x-schema-version", &SCHEMA_DIALECT_VERSION.to_string()));
}

#[test]
fn renders_any_type_as_empty_type() {
    let schema = SchemaNode::any();
    let rendered = schema.to_json_schema();
    assert!(field(&rendered, "type").is_none());
    assert!(field_is(&rendered, "x-schema-version", &SCHEMA_DIALECT_VERSION.to_string()));
}

#[test]
fn renders_array_with_items() {
    let schema = SchemaNode::array(SchemaNode::string()).with_min_items(1);
    let rendered = schema.to_json_schema();
    assert!(field_is(&rendered, "type", "\"array\""));
    assert!(field_is(field(&rendered, "items").unwrap(), "type", "\"string\""));
    assert!(field_is(&rendered, "minItems", "1"));
}

#[test]
fn renders_additional_properties_false() {
    let schema = SchemaNode::object(vec![FieldSchema::required("id", SchemaNode::string())])
        .forbid_additional_properties();
    let rendered = schema.to_json_schema();
    assert!(field_is(&rendered, "additionalProperties", "false"));
}

#[test]
fn registry_rejects_duplicate_types() {
    let mut registry = SchemaRegistry::new();
    let type_id = EngineTypeId::from_static("example.actor");
    let schema = SchemaNode::object(vec![FieldSchema::required("name", SchemaNode::string())]);
    registry.register(type_id.clone(), schema).unwrap();
    let dup_schema = SchemaNode::object(vec![FieldSchema::required("name", SchemaNode::string())]);
    assert!(matches!(
        registry.register(type_id, dup_schema),
        Err(SchemaRegistryError::Duplicate(_))
    ));
}

#[test]
fn registry_validates_definition_on_register() {
    let mut registry = SchemaRegistry::new();
    let bad_schema = SchemaNode::integer().with_min_length(1);
    assert!(registry
        .register(EngineTypeId::from_static("bad.type"), bad_schema)
        .is_err());
}

#[test]
fn constraint_messages_quote_the_value_and_bound() {
    let bag = SchemaNode::integer().with_minimum(bound(1.0)).validate_value(&js("0"));
    assert_eq!(bag.diagnostics[0].message, "value 0 is less than minimum 1");
    let bag = SchemaNode::number().with_maximum(bound(2.5)).validate_value(&js("3.5"));
    assert_eq!(bag.diagnostics[0].message, "value 3.5 is greater than maximum 2.5");
}

#[test]
fn bounds_compare_exact_binary_values() {
    let schema = SchemaNode::number().with_minimum(bound(0.5));
    assert!(!schema.validate_value(&js("0.5")).has_errors());
    assert!(schema.validate_value(&js("0.25")).has_errors());
    assert!(!schema.validate_value(&js("1")).has_errors());
    let negative = SchemaNode::integer().with_maximum(bound(-2.0));
    assert!(!negative.validate_value(&js("-3")).has_errors());
    assert!(negative.validate_value(&js("-1")).has_errors());
}

#[test]
fn valid_value_normalizes_and_invalid_value_returns_the_bag() {
    let schema = SchemaNode::object(vec![FieldSchema::required("id", SchemaNode::string())]);
    let errors = schema.validate_and_normalize(&js("{}")).unwrap_err();
    assert_eq!(errors.diagnostics.len(), 1);
    assert_eq!(errors.diagnostics[0].code, COMMAND_INPUT_REQUIRED);
    let ok = schema.validate_and_normalize(&js("{\"id\": \"x\"}")).unwrap();
    assert!(json_equal(&ok, &js("{\"id\": \"x\"}")));
}

#[test]
fn registry_lists_types_in_order_and_reports_missing() {
    let mut registry = SchemaRegistry::new();
    registry.register(EngineTypeId::from_static("b.type"), SchemaNode::string()).unwrap();
    registry.register(EngineTypeId::from_static("a.type"), SchemaNode::integer()).unwrap();
    let names: Vec<&str> = registry.list().iter().map(|(t, _)| t.as_str()).collect();
    assert_eq!(names, vec!["a.type", "b.type"]);
    assert_eq!(registry.get(&EngineTypeId::from_static("a.type")).unwrap().kind, ValueKind::Integer);
    assert!(matches!(
        registry.get(&EngineTypeId::from_static("c.type")),
        Err(SchemaRegistryError::NotFound(_))
    ));
}

#[test]
fn rendered_bounds_keep_json_number_text() {
    let rendered = SchemaNode::number().with_minimum(bound(1.0)).to_json_schema();
    let mut text = String::new();
    guiyi_engine::json_text::push_json(&mut text, &rendered);
    assert!(text.contains("\"minimum\":1.0"), "{text}");
}
