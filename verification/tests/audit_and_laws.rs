use astral_llm_application::error::GenerationErrorCode;
use astral_llm_application::json::{JsonEntry, JsonValue};
use astral_llm_application::payload_sanitizer::sanitize_custom_instructions;
use astral_llm_application::period_quality::period_quality_audit;
use astral_llm_application::semantic_brief::{validate_semantic_brief_is_atomic, validate_semantic_brief_references_only};

fn parse(text: &str) -> JsonValue {
    fn convert(value: &serde_json::Value) -> JsonValue {
        match value {
            serde_json::Value::Null => JsonValue::Null,
            serde_json::Value::Bool(b) => JsonValue::Bool(*b),
            serde_json::Value::Number(n) => match n.as_i64() {
                Some(i) => JsonValue::Int(i),
                None => JsonValue::Decimal(n.to_string()),
            },
            serde_json::Value::String(s) => JsonValue::Str(s.clone()),
            serde_json::Value::Array(items) => JsonValue::Array(items.iter().map(convert).collect()),
            serde_json::Value::Object(map) => JsonValue::Object(
                map.iter().map(|(k, v)| JsonEntry { key: k.clone(), value: convert(v) }).collect(),
            ),
        }
    }
    convert(&serde_json::from_str::<serde_json::Value>(text).unwrap())
}

#[test]
fn plain_audit_of_an_empty_response() {
    let r = period_quality_audit(&parse("{}"));
    let es = match &r {
        JsonValue::Object(es) => es,
        _ => panic!("not an object"),
    };
    assert_eq!(es.len(), 4);
    assert_eq!(es[0].key, "mode");
    assert!(matches!(&es[0].value, JsonValue::Str(m) if m == "non_blocking"));
    assert!(matches!(es[1].value, JsonValue::Int(0)));
    match &es[2].value {
        JsonValue::Object(counts) => {
            let keys: Vec<&str> = counts.iter().map(|e| e.key.as_str()).collect();
            assert_eq!(
                keys,
                vec!["week_overview", "strategy", "advice", "watch_summary", "daily_timeline", "domain_sections", "best_windows", "watch_windows"]
            );
            assert!(counts.iter().all(|e| matches!(e.value, JsonValue::Int(0))));
        }
        _ => panic!("no section counts"),
    }
    match &es[3].value {
        JsonValue::Array(ws) => {
            assert_eq!(ws.len(), 1);
            assert_eq!(ws[0].field_str("code"), Some("PERIOD_V2_SEVEN_DAILY_SHAPE_WARNING"));
            assert_eq!(ws[0].field_str("path"), Some("/reading"));
        }
        _ => panic!("no warnings"),
    }
}

#[test]
fn semantic_brief_refusals_are_invalid_input() {
    let value = parse(
        r#"{"semantic_brief":{"days":[{"date":"2026-06-20"}]},"period_resolution":{"included_dates":["2026-06-14"]},"evidence":[]}"#,
    );
    let e = validate_semantic_brief_references_only(&value).unwrap_err();
    assert_eq!(e.detail().message, "HOROSCOPE_PERIOD_WRITER_REQUEST_V2_DATE_OUTSIDE_PERIOD");
    assert_eq!(e.code, GenerationErrorCode::InvalidInput);
    let e = validate_semantic_brief_is_atomic(&parse("{}")).unwrap_err();
    assert_eq!(e.detail().message, "HOROSCOPE_PERIOD_WRITER_REQUEST_INVALID");
    assert_eq!(e.code, GenerationErrorCode::InvalidInput);
}

#[test]
fn sanitizing_accepted_instructions_again_keeps_them() {
    let once = sanitize_custom_instructions("  Parle de travail.  ").unwrap();
    assert_eq!(once, "Parle de travail.");
    assert_eq!(sanitize_custom_instructions(&once).unwrap(), once);
}
