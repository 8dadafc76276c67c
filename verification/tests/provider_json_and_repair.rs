use astral_llm_application::json::{JsonEntry, JsonValue};
use astral_llm_application::period_repair::{
    prune_period_response_variant_fields_v2, quality_v2, repair_period_response_shape,
    repair_period_response_shape_v2, restore_period_response_technical_keys_v2,
};
use astral_llm_application::provider_json::{
    extract_balanced_json_object, period_provider_incomplete_reason, period_provider_json_candidates,
    period_writer_v2_required_str, strip_json_fence,
};

fn s(text: &str) -> JsonValue {
    JsonValue::Str(text.to_string())
}

fn arr(items: Vec<JsonValue>) -> JsonValue {
    JsonValue::Array(items)
}

fn obj(members: Vec<(&str, JsonValue)>) -> JsonValue {
    JsonValue::Object(
        members
            .into_iter()
            .map(|(key, value)| JsonEntry { key: key.to_string(), value })
            .collect(),
    )
}

fn field<'a>(v: &'a JsonValue, key: &str) -> Option<&'a JsonValue> {
    match v {
        JsonValue::Object(es) => es.iter().find(|e| e.key == key).map(|e| &e.value),
        _ => None,
    }
}

fn text_of<'a>(v: &'a JsonValue, key: &str) -> Option<&'a str> {
    match field(v, key) {
        Some(JsonValue::Str(t)) => Some(t.as_str()),
        _ => None,
    }
}

fn keys_of(v: &JsonValue) -> Vec<String> {
    match field(v, "evidence_keys") {
        Some(JsonValue::Array(items)) => items
            .iter()
            .filter_map(|i| match i {
                JsonValue::Str(t) => Some(t.clone()),
                _ => None,
            })
            .collect(),
        _ => Vec::new(),
    }
}

#[test]
fn balanced_objects() {
    assert_eq!(
        extract_balanced_json_object("Voici : {\"a\": {\"b\": \"}\"}} et la suite }"),
        Some("{\"a\": {\"b\": \"}\"}}".to_string())
    );
    assert_eq!(
        extract_balanced_json_object("x {\"q\": \"\\\"{\"} y"),
        Some("{\"q\": \"\\\"{\"}".to_string())
    );
    assert_eq!(extract_balanced_json_object("pas d'objet"), None);
    assert_eq!(extract_balanced_json_object("{ jamais fermé"), None);
}

#[test]
fn fenced_replies() {
    assert_eq!(strip_json_fence("  ```json\n{\"a\":1}\n```  "), "{\"a\":1}");
    assert_eq!(strip_json_fence("```\n{\"a\":1}```"), "{\"a\":1}");
    assert_eq!(strip_json_fence("```json {\"a\":1}"), "```json {\"a\":1}");
    assert_eq!(strip_json_fence(" {\"a\":1} "), "{\"a\":1}");
    let candidates = period_provider_json_candidates("texte {\"a\":1} fin");
    assert_eq!(candidates, vec!["texte {\"a\":1} fin".to_string(), "texte {\"a\":1} fin".to_string(), "{\"a\":1}".to_string()]);
    assert_eq!(period_provider_json_candidates("rien").len(), 2);
}

#[test]
fn writer_request_fields_and_incomplete_reason() {
    let request = obj(vec![("service_code", s("x"))]);
    assert_eq!(period_writer_v2_required_str(&request, "service_code").unwrap(), "x");
    let err = period_writer_v2_required_str(&request, "detail_profile_code").unwrap_err();
    assert_eq!(err.detail().message, "HOROSCOPE_PERIOD_WRITER_REQUEST_V2_INVALID");
    assert_eq!(text_of(&err.detail().details, "missing_or_invalid_field"), Some("detail_profile_code"));
    let metadata = obj(vec![("incomplete_details", obj(vec![("reason", s("max_output_tokens"))]))]);
    assert!(matches!(period_provider_incomplete_reason(&metadata), JsonValue::Str(t) if t == "max_output_tokens"));
    assert!(matches!(period_provider_incomplete_reason(&obj(vec![])), JsonValue::Null));
}

#[test]
fn quality_block_of_the_fake_provider() {
    let q = quality_v2("horoscope_premium_next_7_days_natal", &JsonValue::Null, 7);
    assert_eq!(text_of(&q, "period_contract"), Some("premium_next_7_days"));
    assert_eq!(text_of(&q, "provider"), Some("fake"));
    assert!(matches!(field(&q, "daily_timeline_count"), Some(JsonValue::Int(7))));
    let free = quality_v2("horoscope_free_next_7_days_natal", &JsonValue::Null, 0);
    assert_eq!(text_of(&free, "period_contract"), Some("free_next_7_days"));
    let basic = quality_v2("other", &JsonValue::Null, 7);
    assert_eq!(text_of(&basic, "period_contract"), Some("basic_next_7_days"));
}

#[test]
fn pruning_by_offer() {
    let mut response = obj(vec![
        ("summary", obj(vec![])),
        ("daily_timeline", arr(vec![])),
        ("best_windows", arr(vec![])),
        ("advice", s("x")),
    ]);
    let basic = obj(vec![]);
    prune_period_response_variant_fields_v2(&basic, &mut response);
    assert!(field(&response, "summary").is_none());
    assert!(field(&response, "best_windows").is_none());
    assert!(field(&response, "daily_timeline").is_some());
    assert!(field(&response, "advice").is_some());
    let free = obj(vec![("service_code", s("horoscope_free_next_7_days_natal"))]);
    prune_period_response_variant_fields_v2(&free, &mut response);
    assert!(field(&response, "daily_timeline").is_none());
    assert!(field(&response, "advice").is_some());
    let mut text = s("not an object");
    prune_period_response_variant_fields_v2(&free, &mut text);
    assert!(matches!(text, JsonValue::Str(_)));
}

fn brief_request(service: &str) -> JsonValue {
    obj(vec![
        ("service_code", s(service)),
        ("period_resolution", obj(vec![("start_date", s("2026-06-08"))])),
        (
            "semantic_brief",
            obj(vec![(
                "daily_signal_summary",
                arr(vec![
                    obj(vec![("date", s("2026-06-08")), ("evidence_keys", arr(vec![s("old")]))]),
                    obj(vec![("date", s("2026-06-08")), ("evidence_keys", arr(vec![s("ev:1"), s("ev:2")]))]),
                    obj(vec![("date", s("2026-06-09")), ("evidence_keys", s("not a list"))]),
                ]),
            )]),
        ),
    ])
}

#[test]
fn restoring_evidence_keys() {
    let request = brief_request("horoscope_basic_next_7_days_natal");
    let mut response = obj(vec![
        (
            "daily_timeline",
            arr(vec![
                obj(vec![("date", s("2026-06-08")), ("evidence_keys", arr(vec![]))]),
                obj(vec![("date", s("2026-06-09"))]),
                obj(vec![("date", s("2026-06-08")), ("evidence_keys", arr(vec![s("kept")]))]),
                s("stray"),
            ]),
        ),
        ("watch_summary", obj(vec![("status", s("none")), ("evidence_keys", arr(vec![s("x")]))])),
    ]);
    restore_period_response_technical_keys_v2(&request, &mut response);
    match field(&response, "daily_timeline") {
        Some(JsonValue::Array(days)) => {
            assert_eq!(keys_of(&days[0]), vec!["ev:1".to_string(), "ev:2".to_string()]);
            assert!(field(&days[1], "evidence_keys").is_none());
            assert_eq!(keys_of(&days[2]), vec!["kept".to_string()]);
            assert!(matches!(&days[3], JsonValue::Str(_)));
        }
        _ => panic!("timeline expected"),
    }
    let watch = field(&response, "watch_summary").unwrap();
    assert!(keys_of(watch).is_empty());
    assert!(matches!(field(watch, "evidence_keys"), Some(JsonValue::Array(v)) if v.is_empty()));
}

#[test]
fn repairing_the_shape() {
    let request = brief_request("horoscope_free_next_7_days_natal");
    let mut response = obj(vec![
        ("contract_version", s("wrong")),
        ("best_days", arr(vec![])),
        ("key_days", arr(vec![obj(vec![("date", s("2026-06-08"))])])),
        ("summary", obj(vec![("title", s("T"))])),
    ]);
    repair_period_response_shape_v2(&request, &mut response);
    assert_eq!(text_of(&response, "contract_version"), Some("horoscope_period_response"));
    assert_eq!(text_of(&response, "service_code"), Some("horoscope_free_next_7_days_natal"));
    assert_eq!(text_of(field(&response, "period_resolution").unwrap(), "start_date"), Some("2026-06-08"));
    assert_eq!(text_of(field(&response, "quality").unwrap(), "period_contract"), Some("free_next_7_days"));
    assert!(matches!(field(field(&response, "quality").unwrap(), "daily_timeline_count"), Some(JsonValue::Int(0))));
    assert!(field(&response, "best_days").is_none());
    assert!(field(&response, "summary").is_some());
    match field(&response, "key_days") {
        Some(JsonValue::Array(days)) => assert_eq!(keys_of(&days[0]), vec!["ev:1".to_string(), "ev:2".to_string()]),
        _ => panic!("key days expected"),
    }
    let mut blank = JsonValue::Null;
    let premium = brief_request("horoscope_premium_next_7_days_natal");
    repair_period_response_shape(&premium, &mut blank);
    assert_eq!(text_of(&blank, "service_code"), Some("horoscope_premium_next_7_days_natal"));
    assert!(matches!(field(field(&blank, "quality").unwrap(), "daily_timeline_count"), Some(JsonValue::Int(7))));
    let mut kept_quality = obj(vec![("quality", obj(vec![("provider", s("openai"))]))]);
    repair_period_response_shape(&premium, &mut kept_quality);
    assert_eq!(text_of(field(&kept_quality, "quality").unwrap(), "provider"), Some("openai"));
}
