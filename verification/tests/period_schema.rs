use astral_llm_application::json::{JsonEntry, JsonValue};
use astral_llm_application::period_schema::period_response_provider_schema;

fn convert(value: &serde_json::Value) -> JsonValue {
    match value {
        serde_json::Value::Null => JsonValue::Null,
        serde_json::Value::Bool(b) => JsonValue::Bool(*b),
        serde_json::Value::Number(n) => match n.as_i64() {
            Some(i) => JsonValue::Int(i),
            None => JsonValue::Decimal(n.to_string()),
        },
        serde_json::Value::String(s) => JsonValue::Str(s.clone()),
        serde_json::Value::Array(items) => JsonValue::Array(items.iter().map(convert).collect()),
        serde_json::Value::Object(map) => JsonValue::Object(
            map.iter().map(|(k, v)| JsonEntry { key: k.clone(), value: convert(v) }).collect(),
        ),
    }
}

fn back(value: &JsonValue) -> serde_json::Value {
    match value {
        JsonValue::Null => serde_json::Value::Null,
        JsonValue::Bool(b) => serde_json::Value::Bool(*b),
        JsonValue::Int(i) => serde_json::Value::from(*i),
        JsonValue::Decimal(d) => serde_json::from_str(d).unwrap(),
        JsonValue::Str(s) => serde_json::Value::String(s.clone()),
        JsonValue::Array(items) => serde_json::Value::Array(items.iter().map(back).collect()),
        JsonValue::Object(entries) => {
            let mut map = serde_json::Map::new();
            for e in entries {
                map.insert(e.key.clone(), back(&e.value));
            }
            serde_json::Value::Object(map)
        }
    }
}

fn parse(text: &str) -> JsonValue {
    convert(&serde_json::from_str::<serde_json::Value>(text).unwrap())
}

const BASE: &str = r##"{
    "$schema": "http://json-schema.org/draft-07/schema#",
    "type": "object",
    "allOf": [{"required": ["summary"]}],
    "required": ["contract_version", "summary", "dominant_theme"],
    "properties": {
        "contract_version": {"type": "string"},
        "summary": {"type": "object", "properties": {"title": {"type": "string"}, "text": {"type": "string"}}},
        "dominant_theme": {"type": "object", "properties": {"theme": {"type": "string"}, "text": {"type": "string"}}},
        "week_overview": {"type": "object", "properties": {"title": {"type": "string"}}},
        "advice": {"type": "string"},
        "domain_sections": {"type": "array", "items": {"$ref": "#/definitions/domain_section"}},
        "evidence_summary": {"type": "array"},
        "strategy": {"type": "object"}
    },
    "definitions": {
        "day_marker": {"type": "object", "properties": {"title": {"type": "string"}, "reason": {"type": "string"}}},
        "domain_section": {"type": "object", "properties": {"text": {"type": "string"}}},
        "evidence_summary_item": {"type": "object", "properties": {"label": {"type": "string"}}},
        "free_watch_summary": {"type": "object", "properties": {"text": {"type": "string"}}}
    }
}"##;

fn request(service: &str) -> JsonValue {
    parse(&format!(r#"{{"service_code": "{service}"}}"#))
}

#[test]
fn free_schema() {
    let r = back(&period_response_provider_schema(parse(BASE), &request("horoscope_free_next_7_days_natal")).unwrap());
    let required: Vec<&str> = r["required"].as_array().unwrap().iter().map(|v| v.as_str().unwrap()).collect();
    assert_eq!(required.len(), r["properties"].as_object().unwrap().len());
    assert!(r.get("allOf").is_none());
    assert!(r.get("definitions").is_none());
    assert!(r["properties"].get("week_overview").is_none());
    assert!(r["properties"].get("strategy").is_none());
    assert_eq!(r["properties"]["summary"]["properties"]["title"]["maxLength"], 40);
    assert_eq!(r["properties"]["summary"]["properties"]["text"]["minLength"], 420);
    assert_eq!(r["properties"]["advice"]["minLength"], 120);
    assert_eq!(r["properties"]["key_days"]["maxItems"], 2);
    assert_eq!(r["properties"]["key_days"]["items"]["properties"]["title"]["maxLength"], 40);
    assert_eq!(r["properties"]["key_days"]["items"]["properties"]["reason"]["minLength"], 100);
    assert_eq!(r["properties"]["key_days"]["items"]["additionalProperties"], false);
    assert_eq!(r["properties"]["watch_summary"]["properties"]["text"]["minLength"], 110);
    assert_eq!(r["properties"]["evidence_summary"]["items"]["properties"]["label"]["maxLength"], 96);
    assert_eq!(r["additionalProperties"], false);
}

#[test]
fn premium_schema() {
    let r = back(&period_response_provider_schema(parse(BASE), &request("horoscope_premium_next_7_days_natal")).unwrap());
    assert!(r["properties"].get("summary").is_none());
    assert!(r["properties"].get("dominant_theme").is_some() == false);
    assert!(r["properties"].get("week_overview").is_some());
    assert!(r["properties"].get("strategy").is_some());
}

#[test]
fn basic_schema() {
    let r = back(&period_response_provider_schema(parse(BASE), &request("horoscope_basic_next_7_days_natal")).unwrap());
    assert!(r["properties"].get("summary").is_none());
    assert!(r["properties"].get("strategy").is_none());
    assert_eq!(r["properties"]["advice"]["type"], "object");
    assert_eq!(r["properties"]["advice"]["properties"]["best_use"]["minLength"], 70);
    assert_eq!(r["properties"]["domain_sections"]["minItems"], 2);
    assert_eq!(r["properties"]["domain_sections"]["items"]["properties"]["text"]["maxLength"], 420);
    assert_eq!(r["properties"]["week_overview"]["properties"]["title"]["maxLength"], 60);
}

#[test]
fn the_required_edits_of_the_paid_offers() {
    // Before the strict rules rewrite `required` from the properties, the cut keeps the order of
    // the base list, adds the missing fields and drops the others.
    let e = period_response_provider_schema(parse(r#"{"required": [], "properties": []}"#), &request("x")).unwrap_err();
    assert_eq!(e.detail().message, "HOROSCOPE_PERIOD_RESPONSE_INVALID");
    let e = period_response_provider_schema(parse(r#"{"properties": {}}"#), &request("x")).unwrap_err();
    assert_eq!(e.detail().message, "HOROSCOPE_PERIOD_RESPONSE_INVALID");
    let cyclic = r##"{"required": [], "properties": {}, "definitions": {"a": {"$ref": "#/definitions/a"}}}"##;
    let e = period_response_provider_schema(parse(cyclic), &request("horoscope_premium_next_7_days_natal")).unwrap_err();
    assert_eq!(e.detail().message, "HOROSCOPE_PERIOD_RESPONSE_INVALID");
}

#[test]
fn members_the_cut_does_not_name_are_kept() {
    // `type` and the members of the untouched sections lie apart from every edited path of
    // the premium offer, so the cut leaves them as they were.
    let r = back(&period_response_provider_schema(parse(BASE), &request("horoscope_premium_next_7_days_natal")).unwrap());
    assert_eq!(r["type"], "object");
    assert_eq!(r["properties"]["contract_version"]["type"], "string");
    assert_eq!(r["properties"]["evidence_summary"]["type"], "array");
    let basic = back(&period_response_provider_schema(parse(BASE), &request("horoscope_basic_next_7_days_natal")).unwrap());
    assert_eq!(basic["properties"]["week_overview"]["properties"]["title"]["type"], "string");
    assert_eq!(basic["properties"]["domain_sections"]["items"]["properties"]["text"]["type"], "string");
}
