use astral_llm_application::json::{JsonEntry, JsonValue};
use astral_llm_application::schema_compiler::{
    compile, definition_name_from_ref, definition_ranks, enforce_strict_object_rules, inline_refs,
    pin_chapter_code, prepare_strict_json_schema, strip_provider_meta_fields, wrap_mistral_schema,
    SchemaCapability, StructuredOutputAdapterKind,
};

fn convert(value: &serde_json::Value) -> JsonValue {
    match value {
        serde_json::Value::Null => JsonValue::Null,
        serde_json::Value::Bool(b) => JsonValue::Bool(*b),
        serde_json::Value::Number(n) => match n.as_i64() {
            Some(i) => JsonValue::Int(i),
            None => JsonValue::Decimal(n.to_string()),
        },
        serde_json::Value::String(s) => JsonValue::Str(s.clone()),
        serde_json::Value::Array(items) => JsonValue::Array(items.iter().map(convert).collect()),
        serde_json::Value::Object(map) => JsonValue::Object(
            map.iter()
                .map(|(k, v)| JsonEntry { key: k.clone(), value: convert(v) })
                .collect(),
        ),
    }
}

fn back(value: &JsonValue) -> serde_json::Value {
    match value {
        JsonValue::Null => serde_json::Value::Null,
        JsonValue::Bool(b) => serde_json::Value::Bool(*b),
        JsonValue::Int(i) => serde_json::Value::from(*i),
        JsonValue::Decimal(d) => serde_json::from_str(d).unwrap(),
        JsonValue::Str(s) => serde_json::Value::String(s.clone()),
        JsonValue::Array(items) => serde_json::Value::Array(items.iter().map(back).collect()),
        JsonValue::Object(entries) => {
            let mut map = serde_json::Map::new();
            for e in entries {
                map.insert(e.key.clone(), back(&e.value));
            }
            serde_json::Value::Object(map)
        }
    }
}

fn parse(text: &str) -> JsonValue {
    convert(&serde_json::from_str::<serde_json::Value>(text).unwrap())
}

fn expect(value: &JsonValue, text: &str) {
    let expected: serde_json::Value = serde_json::from_str(text).unwrap();
    assert_eq!(back(value), expected);
}

fn capability(strict: bool, adapter: StructuredOutputAdapterKind) -> SchemaCapability {
    SchemaCapability { supports_json_schema_strict: strict, structured_output_adapter: adapter }
}

#[test]
fn meta_fields_are_stripped_at_every_schema_position() {
    let mut schema = parse(
        r#"{
            "$schema": "http://json-schema.org/draft-07/schema#",
            "$id": "reading",
            "title": "Reading",
            "description": "A reading",
            "definitions": {"x": {"type": "string"}},
            "type": "object",
            "properties": {
                "title": {"type": "string", "description": "kept as a property name"},
                "items": {"type": "array", "items": {"type": "string", "title": "Item"}}
            },
            "anyOf": [{"type": "object", "description": "d"}],
            "examples": [{"title": "left alone"}]
        }"#,
    );
    strip_provider_meta_fields(&mut schema);
    expect(
        &schema,
        r#"{
            "type": "object",
            "properties": {
                "title": {"type": "string"},
                "items": {"type": "array", "items": {"type": "string"}}
            },
            "anyOf": [{"type": "object"}],
            "examples": [{"title": "left alone"}]
        }"#,
    );
}

#[test]
fn strict_rules_close_objects_and_type_constants() {
    let mut schema = parse(
        r#"{
            "properties": {
                "code": {"const": "identity"},
                "count": {"const": 3},
                "flag": {"const": true},
                "nested": {"type": "object", "properties": {"a": {"type": "string"}}}
            }
        }"#,
    );
    enforce_strict_object_rules(&mut schema);
    expect(
        &schema,
        r#"{
            "additionalProperties": false,
            "required": ["code", "count", "flag", "nested"],
            "properties": {
                "code": {"const": "identity", "type": "string"},
                "count": {"const": 3, "type": "number"},
                "flag": {"const": true, "type": "boolean"},
                "nested": {
                    "type": "object",
                    "additionalProperties": false,
                    "required": ["a"],
                    "properties": {"a": {"type": "string"}}
                }
            }
        }"#,
    );
}

#[test]
fn a_reference_node_with_properties_is_not_closed() {
    let mut schema = parse(r##"{"$ref": "#/definitions/x", "properties": {"a": {"type": "string"}}}"##);
    enforce_strict_object_rules(&mut schema);
    expect(&schema, r##"{"$ref": "#/definitions/x", "properties": {"a": {"type": "string"}}}"##);
}

#[test]
fn definition_names_come_from_both_prefixes() {
    assert_eq!(definition_name_from_ref("#/definitions/day_marker"), Some("day_marker".to_string()));
    assert_eq!(definition_name_from_ref("#/$defs/item"), Some("item".to_string()));
    assert_eq!(definition_name_from_ref("#/components/item"), None);
    assert_eq!(definition_name_from_ref("definitions/item"), None);
}

#[test]
fn references_are_inlined_through_chains() {
    let schema = parse(
        r##"{
            "type": "object",
            "properties": {
                "day": {"$ref": "#/definitions/day"},
                "days": {"type": "array", "items": {"$ref": "#/$defs/day"}},
                "other": {"$ref": "#/definitions/missing"}
            },
            "definitions": {
                "day": {"type": "object", "properties": {"date": {"$ref": "#/definitions/date"}}},
                "date": {"type": "string"}
            },
            "$defs": {"day": {"type": "string", "description": "from $defs"}}
        }"##,
    );
    assert!(definition_ranks(&schema).is_some());
    let mut value = parse(r##"{"anyOf": [{"$ref": "#/definitions/date"}, {"$ref": "#/$defs/day"}]}"##);
    inline_refs(&mut value, &schema);
    expect(&value, r#"{"anyOf": [{"type": "string"}, {"type": "string", "description": "from $defs"}]}"#);
}

#[test]
fn strict_schema_inlines_strips_and_closes() {
    let schema = parse(
        r##"{
            "$schema": "http://json-schema.org/draft-07/schema#",
            "title": "Period",
            "type": "object",
            "properties": {
                "marker": {"$ref": "#/definitions/marker"}
            },
            "definitions": {
                "marker": {
                    "type": "object",
                    "description": "a day",
                    "properties": {"date": {"type": "string"}, "kind": {"const": "best"}}
                }
            }
        }"##,
    );
    assert!(definition_ranks(&schema).is_some());
    let strict = prepare_strict_json_schema(&schema);
    expect(
        &strict,
        r#"{
            "type": "object",
            "additionalProperties": false,
            "required": ["marker"],
            "properties": {
                "marker": {
                    "type": "object",
                    "additionalProperties": false,
                    "required": ["date", "kind"],
                    "properties": {"date": {"type": "string"}, "kind": {"const": "best", "type": "string"}}
                }
            }
        }"#,
    );
}

#[test]
fn cyclic_definitions_are_detected() {
    let acyclic = parse(
        r##"{"definitions": {"a": {"$ref": "#/definitions/b"}, "b": {"type": "string"}, "c": {"items": {"$ref": "#/definitions/a"}}}}"##,
    );
    let ranks = definition_ranks(&acyclic).unwrap();
    assert_eq!(ranks.len(), 3);
    let rank = |name: &str| ranks.iter().find(|(n, _)| n == name).unwrap().1;
    assert!(rank("b") < rank("a"));
    assert!(rank("a") < rank("c"));

    let self_ref = parse(r##"{"definitions": {"node": {"properties": {"next": {"$ref": "#/definitions/node"}}}}}"##);
    assert!(definition_ranks(&self_ref).is_none());

    let pair = parse(r##"{"$defs": {"a": {"anyOf": [{"$ref": "#/$defs/b"}]}, "b": {"$ref": "#/definitions/a"}}, "definitions": {"a": {"type": "null"}}}"##);
    assert!(definition_ranks(&pair).is_none());

    let none = parse(r#"{"type": "string"}"#);
    assert_eq!(definition_ranks(&none).unwrap().len(), 0);
}

#[test]
fn chapter_code_is_pinned_only_where_there_are_properties() {
    let mut schema = parse(r#"{"type": "object", "properties": {"code": {"type": "string"}, "text": {"type": "string"}}}"#);
    pin_chapter_code(&mut schema, "identity");
    expect(
        &schema,
        r#"{"type": "object", "properties": {"code": {"type": "string", "const": "identity"}, "text": {"type": "string"}}}"#,
    );
    let mut bare = parse(r#"{"type": "string"}"#);
    pin_chapter_code(&mut bare, "identity");
    expect(&bare, r#"{"type": "string"}"#);
    let mut listed = parse(r#"{"properties": [1, 2]}"#);
    pin_chapter_code(&mut listed, "identity");
    expect(&listed, r#"{"properties": [1, 2]}"#);
}

#[test]
fn mistral_wrapper_shape() {
    let wrapped = wrap_mistral_schema(parse(r#"{"type": "object"}"#));
    expect(
        &wrapped,
        r#"{"type": "json_schema", "json_schema": {"name": "structured_reading", "schema": {"type": "object"}, "strict": true}}"#,
    );
}

#[test]
fn compile_picks_the_form_for_each_adapter() {
    let schema = parse(
        r##"{"title": "T", "type": "object", "properties": {"a": {"$ref": "#/definitions/a"}}, "definitions": {"a": {"type": "string"}}}"##,
    );
    let err = compile(&schema, &capability(false, StructuredOutputAdapterKind::OpenAiResponsesTextFormat)).unwrap_err();
    assert_eq!(err.detail().message, "provider model does not support strict JSON schema");
    let err = compile(&schema, &capability(true, StructuredOutputAdapterKind::MistralResponseFormatJsonObject)).unwrap_err();
    assert_eq!(err.detail().message, "strict output required but model only supports json_object mode");

    let strict = r#"{"type": "object", "additionalProperties": false, "required": ["a"], "properties": {"a": {"type": "string"}}}"#;
    let openai = compile(&schema, &capability(true, StructuredOutputAdapterKind::OpenAiResponsesTextFormat)).unwrap();
    expect(&openai, strict);
    let mistral = compile(&schema, &capability(true, StructuredOutputAdapterKind::MistralResponseFormatJsonSchema)).unwrap();
    expect(
        &mistral,
        &format!(r#"{{"type": "json_schema", "json_schema": {{"name": "structured_reading", "schema": {strict}, "strict": true}}}}"#),
    );
    let stripped = r##"{"type": "object", "properties": {"a": {"$ref": "#/definitions/a"}}}"##;
    let anthropic = compile(&schema, &capability(true, StructuredOutputAdapterKind::AnthropicOutputConfigFormat)).unwrap();
    expect(&anthropic, stripped);
    let prompt = compile(&schema, &capability(true, StructuredOutputAdapterKind::PromptOnly)).unwrap();
    expect(&prompt, stripped);
}

#[test]
fn compiled_schema_has_no_meta_fields() {
    let schema = parse(
        r#"{"$schema": "http://json-schema.org/draft-07/schema#", "$id": "natal_reading_v1", "type": "object", "properties": {"summary": {"type": "string", "title": "Summary"}}}"#,
    );
    let compiled = compile(&schema, &capability(true, StructuredOutputAdapterKind::OpenAiResponsesTextFormat)).unwrap();
    let text = back(&compiled).to_string();
    assert!(!text.contains("$schema"));
    assert!(!text.contains("$id"));
    assert!(!text.contains("\"title\""));
}
