use astral_llm_application::json::{JsonEntry, JsonValue};
use astral_llm_application::period_repair::repair_period_response_shape_v2;
use astral_llm_application::period_writer::{
    fake_period_writer_response, fake_period_writer_response_from_writer_request,
};

fn convert(value: &serde_json::Value) -> JsonValue {
    match value {
        serde_json::Value::Null => JsonValue::Null,
        serde_json::Value::Bool(b) => JsonValue::Bool(*b),
        serde_json::Value::Number(n) => match n.as_i64() {
            Some(i) => JsonValue::Int(i),
            None => JsonValue::Decimal(n.to_string()),
        },
        serde_json::Value::String(s) => JsonValue::Str(s.clone()),
        serde_json::Value::Array(items) => JsonValue::Array(items.iter().map(convert).collect()),
        serde_json::Value::Object(map) => JsonValue::Object(
            map.iter()
                .map(|(k, v)| JsonEntry { key: k.clone(), value: convert(v) })
                .collect(),
        ),
    }
}

fn back(value: &JsonValue) -> serde_json::Value {
    match value {
        JsonValue::Null => serde_json::Value::Null,
        JsonValue::Bool(b) => serde_json::Value::Bool(*b),
        JsonValue::Int(i) => serde_json::Value::from(*i),
        JsonValue::Decimal(d) => serde_json::from_str(d).unwrap(),
        JsonValue::Str(s) => serde_json::Value::String(s.clone()),
        JsonValue::Array(items) => serde_json::Value::Array(items.iter().map(back).collect()),
        JsonValue::Object(entries) => {
            let mut map = serde_json::Map::new();
            for e in entries {
                map.insert(e.key.clone(), back(&e.value));
            }
            serde_json::Value::Object(map)
        }
    }
}

fn parse(text: &str) -> JsonValue {
    convert(&serde_json::from_str::<serde_json::Value>(text).unwrap())
}

fn no_rows() -> Vec<JsonValue> {
    Vec::new()
}

#[test]
fn free_request_gets_the_compact_reading() {
    let request = parse(
        r#"{"service_code":"horoscope_free_next_7_days_natal","evidence":[{"evidence_key":"signal:1","date":"2026-06-14","human_label":"L"}]}"#,
    );
    let r = back(&fake_period_writer_response(&request, &no_rows(), &no_rows(), JsonValue::Null, JsonValue::Null).unwrap());
    assert_eq!(r["service_code"], "horoscope_free_next_7_days_natal");
    assert_eq!(r["key_days"].as_array().unwrap().len(), 1);
    assert_eq!(r["key_days"][0]["date"], "2026-06-14");
    assert_eq!(r["key_days"][0]["title"], "Dimanche 14/06");
    assert_eq!(r["key_days"][0]["evidence_keys"], serde_json::from_str::<serde_json::Value>(r#"["signal:1"]"#).unwrap());
    assert_eq!(
        r["evidence_summary"],
        serde_json::from_str::<serde_json::Value>(r#"[{"evidence_key":"signal:1","date":"2026-06-14","label":"L"}]"#).unwrap()
    );
    assert_eq!(r["quality"]["provider"], "fake");
    assert!(r.get("daily_timeline").is_none());
}

fn writer_request(service: &str) -> JsonValue {
    parse(&format!(
        r#"{{
            "contract_version": "horoscope_period_writer_request_v2",
            "service_code": "{service}",
            "period_resolution": {{"included_dates": ["2026-06-08"]}},
            "evidence": [
                {{"evidence_key": "e1", "date": "2026-06-09", "human_label": "Appui"}},
                {{"evidence_key": "e2", "date": "2026-06-10", "human_label": "Tension"}}
            ],
            "semantic_brief": {{
                "daily_signal_summary": [
                    {{"date": "2026-06-08", "theme_codes": ["work"], "tone_codes": ["calm"], "evidence_keys": ["e1"]}},
                    {{"theme_codes": []}}
                ],
                "domain_candidates": [
                    {{"domain_code": "love", "text": "Texte", "evidence_keys": ["e2"]}},
                    {{}}
                ],
                "key_day_candidates": [{{"date": "2026-06-09", "title": "Mardi", "reason": "Un appui.", "evidence_keys": ["e1"]}}]
            }}
        }}"#
    ))
}

#[test]
fn writer_request_of_the_basic_offer() {
    let r = back(
        &fake_period_writer_response(&writer_request("horoscope_basic_next_7_days_natal"), &no_rows(), &no_rows(), JsonValue::Null, JsonValue::Null)
            .unwrap(),
    );
    assert_eq!(r["contract_version"], "horoscope_period_response");
    let timeline = r["daily_timeline"].as_array().unwrap();
    assert_eq!(timeline.len(), 2);
    assert_eq!(timeline[0]["date"], "2026-06-08");
    assert_eq!(timeline[0]["day_label"], "Lundi 08/06");
    assert_eq!(timeline[0]["theme"], "work");
    assert_eq!(timeline[0]["tone"], "calm");
    assert_eq!(timeline[0]["text"], "Lundi 08/06 sert de repère pour utiliser le signal sans le rigidifier.");
    assert_eq!(timeline[1]["date"], "2026-06-09");
    assert_eq!(timeline[1]["theme"], "organization");
    assert_eq!(timeline[1]["tone"], "focused");
    assert_eq!(timeline[1]["evidence_keys"], serde_json::from_str::<serde_json::Value>(r#"["e1"]"#).unwrap());
    let domains = r["domain_sections"].as_array().unwrap();
    assert_eq!(domains.len(), 2);
    assert_eq!(domains[0]["text"], "Texte");
    assert_eq!(domains[1]["domain"], "organization");
    assert_eq!(r["key_days"][0]["title"], "Mardi");
    assert_eq!(r["best_days"][0]["date"], "2026-06-09");
    assert_eq!(r["evidence_summary"].as_array().unwrap().len(), 2);
    assert_eq!(r["quality"]["period_contract"], "basic_next_7_days");
    assert_eq!(r["quality"]["daily_timeline_count"], 7);
    assert!(r.get("best_windows").is_none());
    assert!(r.get("strategy").is_none());
    assert!(r.get("summary").is_none());
}

#[test]
fn writer_request_of_the_premium_offer_takes_the_windows() {
    let best = parse(r#"[{"title": "Fenêtre"}]"#);
    let watch = parse(r#"[]"#);
    let r = back(
        &fake_period_writer_response_from_writer_request(
            &writer_request("horoscope_premium_next_7_days_natal"),
            &no_rows(),
            &no_rows(),
            best,
            watch,
        )
        .unwrap(),
    );
    assert_eq!(r["best_windows"][0]["title"], "Fenêtre");
    assert_eq!(r["watch_windows"].as_array().unwrap().len(), 0);
    assert_eq!(r["strategy"]["title"], "Stratégie de semaine");
    assert_eq!(r["strategy"]["evidence_keys"], serde_json::from_str::<serde_json::Value>(r#"["e1"]"#).unwrap());
    assert_eq!(r["quality"]["period_contract"], "premium_next_7_days");
}

#[test]
fn writer_request_errors() {
    let no_evidence = parse(r#"{"contract_version": "horoscope_period_writer_request_v2", "evidence": []}"#);
    let e = fake_period_writer_response(&no_evidence, &no_rows(), &no_rows(), JsonValue::Null, JsonValue::Null).unwrap_err();
    assert_eq!(e.detail().message, "HOROSCOPE_PERIOD_EVIDENCE_MISSING");
    let no_timeline = parse(
        r#"{"contract_version": "horoscope_period_writer_request_v2", "evidence": [{"evidence_key": "e1"}], "semantic_brief": {}}"#,
    );
    let e = fake_period_writer_response(&no_timeline, &no_rows(), &no_rows(), JsonValue::Null, JsonValue::Null).unwrap_err();
    assert_eq!(e.detail().message, "HOROSCOPE_PERIOD_TIMELINE_MISSING");
    let no_plans = parse(r#"{"service_code": "horoscope_basic_next_7_days_natal"}"#);
    let e = fake_period_writer_response(&no_plans, &no_rows(), &no_rows(), JsonValue::Null, JsonValue::Null).unwrap_err();
    assert_eq!(e.detail().message, "HOROSCOPE_PERIOD_TIMELINE_MISSING");
}

#[test]
fn request_with_daily_plans() {
    let request = parse(
        r#"{
            "service_code": "horoscope_premium_next_7_days_natal",
            "daily_plans": [
                {"date": "2026-06-08", "text": "  ", "evidence_keys": ["e1"]},
                {"date": "2026-06-09", "day_label": "Mardi", "theme_label": "Travail", "text": "Un texte.", "advice": "Agir."}
            ],
            "domain_sections": [{"domain": "love", "title": "Amour"}],
            "key_days": [{"date": "2026-06-08"}],
            "watch_summary_plan": {"status": "low"},
            "best_windows": [{"title": "B"}],
            "strategy": {"title": "Plan", "evidence_keys": ["e1"]},
            "evidence": [{"evidence_key": "e1", "date": "2026-06-08", "human_label": "H"}]
        }"#,
    );
    let r = back(&fake_period_writer_response(&request, &no_rows(), &no_rows(), JsonValue::Null, JsonValue::Null).unwrap());
    let t = r["daily_timeline"].as_array().unwrap();
    assert_eq!(t[0]["text"], "Lundi 08/06 sert de repère pour avancer sans surcharger la journée.");
    assert_eq!(t[0]["advice"], "Gardez un geste simple et vérifiable.");
    assert_eq!(t[1]["day_label"], "Mardi");
    assert_eq!(t[1]["theme"], "Travail");
    assert_eq!(t[1]["text"], "Un texte.");
    assert_eq!(r["domain_sections"][0]["title"], "Amour");
    assert_eq!(r["watch_summary"]["status"], "low");
    assert_eq!(r["best_windows"][0]["title"], "B");
    assert_eq!(r["strategy"]["title"], "Plan");
    assert_eq!(r["strategy"]["recovery"], "Préserver des temps de recul après les moments plus réactifs.");
    assert_eq!(r["evidence_summary"][0]["label"], "H");
    assert_eq!(r["quality"]["period_contract"], "premium_next_7_days");
    assert!(r.get("summary").is_none());
}

#[test]
fn repair_of_an_empty_free_response_is_exact() {
    let request = parse(r#"{"service_code":"horoscope_free_next_7_days_natal","period_resolution":{"x":1}}"#);
    let mut response = parse("{}");
    repair_period_response_shape_v2(&request, &mut response);
    let expected: serde_json::Value = serde_json::from_str(
        r#"{"contract_version":"horoscope_period_response","service_code":"horoscope_free_next_7_days_natal","period_resolution":{"x":1},"quality":{"daily_timeline_count":0,"evidence_guard_passed":true,"best_watch_overlap_passed":true,"provider":"fake","model":"fake-model","fallback_used":false,"period_contract":"free_next_7_days"}}"#,
    )
    .unwrap();
    assert_eq!(back(&response), expected);
}

#[test]
fn first_version_writer_requests_take_the_writer_path() {
    let request = parse(
        r#"{"contract_version": "horoscope_period_writer_request", "service_code": "horoscope_basic_next_7_days_natal",
            "evidence": [{"evidence_key": "e1", "date": "2026-06-09"}],
            "semantic_brief": {"daily_signal_summary": [{"date": "2026-06-09"}]}}"#,
    );
    let r = back(&fake_period_writer_response(&request, &no_rows(), &no_rows(), JsonValue::Null, JsonValue::Null).unwrap());
    assert_eq!(r["daily_timeline"].as_array().unwrap().len(), 1);
    assert_eq!(r["watch_summary"]["status"], "low");
}
