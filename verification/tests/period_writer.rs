use astral_llm_application::json::{JsonEntry, JsonValue};
use astral_llm_application::period_quality::period_v2_failure_issue;
use astral_llm_application::period_windows::window_markers_from_candidates_v2;
use astral_llm_application::period_writer::{
    day_markers_from_candidates_v2, evidence_summary_v2, fake_free_period_writer_response,
};

fn convert(value: &serde_json::Value) -> JsonValue {
    match value {
        serde_json::Value::Null => JsonValue::Null,
        serde_json::Value::Bool(b) => JsonValue::Bool(*b),
        serde_json::Value::Number(n) => match n.as_i64() {
            Some(i) => JsonValue::Int(i),
            None => JsonValue::Decimal(n.to_string()),
        },
        serde_json::Value::String(s) => JsonValue::Str(s.clone()),
        serde_json::Value::Array(items) => JsonValue::Array(items.iter().map(convert).collect()),
        serde_json::Value::Object(map) => JsonValue::Object(
            map.iter()
                .map(|(k, v)| JsonEntry { key: k.clone(), value: convert(v) })
                .collect(),
        ),
    }
}

fn parse(text: &str) -> JsonValue {
    convert(&serde_json::from_str::<serde_json::Value>(text).unwrap())
}

fn list(text: &str) -> Vec<JsonValue> {
    match parse(text) {
        JsonValue::Array(items) => items,
        _ => panic!("not an array"),
    }
}

fn text(v: &JsonValue, key: &str) -> String {
    v.field_str(key).unwrap().to_string()
}

fn strs(v: &JsonValue, key: &str) -> Vec<String> {
    v.field_arr(key)
        .unwrap()
        .iter()
        .map(|x| x.as_str().unwrap().to_string())
        .collect()
}

#[test]
fn markers_from_candidates() {
    let candidates = list(
        r#"[
            {"date": "2026-06-08", "title": "  ", "reason": "Un appui net.", "evidence_keys": ["e1"]},
            {"date": "2026-06-09", "title": "Mardi clé", "reason": ""},
            {"title": ""},
            {"date": "2026-06-11"},
            {"date": "2026-06-12"}
        ]"#,
    );
    let markers = day_markers_from_candidates_v2(Some(&candidates), "2026-06-07", &JsonValue::Str("k".to_string()));
    assert_eq!(markers.len(), 4);
    assert_eq!(text(&markers[0], "title"), "Lundi 08/06");
    assert_eq!(text(&markers[0], "reason"), "Un appui net.");
    assert_eq!(strs(&markers[0], "evidence_keys"), vec!["e1"]);
    assert!(matches!(markers[0].get("fallback_reason"), Some(JsonValue::Null)));
    assert_eq!(text(&markers[1], "title"), "Mardi clé");
    assert_eq!(text(&markers[1], "reason"), "Repère utile pour lire la suite de la période.");
    assert!(matches!(markers[1].get("evidence_keys"), Some(JsonValue::Null)));
    assert_eq!(text(&markers[2], "title"), "Repère");
    assert!(matches!(markers[2].get("date"), Some(JsonValue::Null)));
}

#[test]
fn a_marker_without_candidates() {
    let key = JsonValue::Str("ev-1".to_string());
    for candidates in [None, Some(&Vec::new())] {
        let markers = day_markers_from_candidates_v2(candidates, "2026-06-10", &key);
        assert_eq!(markers.len(), 1);
        assert_eq!(text(&markers[0], "date"), "2026-06-10");
        assert_eq!(text(&markers[0], "title"), "Mercredi 10/06");
        assert_eq!(text(&markers[0], "reason"), "Repère utile pour lire la suite de la période.");
        assert_eq!(strs(&markers[0], "evidence_keys"), vec!["ev-1"]);
    }
}

#[test]
fn evidence_summary_labels() {
    let evidence = list(
        r#"[
            {"evidence_key": "e1", "date": "d1", "human_label": "Vénus trigone Lune"},
            {"evidence_key": "e2", "date": "d2", "human_label": " ", "theme_code": "love", "tone": "calm"},
            {"evidence_key": "e3", "tone_code": "bold", "tone": "calm"},
            {"evidence_key": "e4"}
        ]"#,
    );
    let themes = list(r#"[{"theme_code": "love", "public_label": "Amour"}]"#);
    let tones = list(r#"[{"tone_code": "calm", "label_fr": "apaisé"}]"#);
    let summary = evidence_summary_v2(&evidence, 3, &themes, &tones);
    assert_eq!(summary.len(), 3);
    assert_eq!(text(&summary[0], "label"), "Vénus trigone Lune");
    assert_eq!(text(&summary[0], "evidence_key"), "e1");
    assert_eq!(text(&summary[1], "label"), "Amour / apaisé");
    assert_eq!(text(&summary[2], "label"), "organization / bold");
    assert!(matches!(summary[2].get("date"), Some(JsonValue::Null)));
    assert_eq!(evidence_summary_v2(&evidence, 10, &themes, &tones).len(), 4);
    assert_eq!(text(&evidence_summary_v2(&evidence, 10, &themes, &tones)[3], "label"), "organization / focused");
}

#[test]
fn the_free_reading_of_a_fake_writer() {
    let request = parse(
        r#"{
            "period_resolution": {"included_dates": ["2026-06-07", "2026-06-08"]},
            "evidence": [
                {"evidence_key": "e1", "theme_code": "love", "human_label": "Vénus"},
                {"evidence_key": "e2", "date": "2026-06-08"}
            ]
        }"#,
    );
    let themes = list(r#"[{"theme_code": "love", "public_label": "Amour"}]"#);
    let reading = fake_free_period_writer_response(&request, &themes).unwrap();
    assert_eq!(text(&reading, "contract_version"), "horoscope_period_response");
    assert_eq!(text(&reading, "service_code"), "horoscope_free_next_7_days_natal");
    let summary = reading.get("summary").unwrap();
    assert_eq!(text(summary, "title"), "Vos 7 prochains jours");
    assert!(text(summary, "text").contains("Autour du 2026-06-07, le climat met l'accent sur Amour : une priorité simple"));
    let dominant = reading.get("dominant_theme").unwrap();
    assert_eq!(text(dominant, "theme"), "Amour");
    assert!(text(dominant, "text").starts_with("Le thème dominant est Amour. Il invite"));
    let key_days = reading.field_arr("key_days").unwrap();
    assert_eq!(key_days.len(), 1);
    assert_eq!(text(&key_days[0], "date"), "2026-06-07");
    assert_eq!(text(&key_days[0], "title"), "Dimanche 07/06");
    assert_eq!(
        text(&key_days[0], "reason"),
        "Le thème Amour ressort plus nettement et donne un repère utile sans en faire un verdict."
    );
    assert_eq!(strs(&key_days[0], "evidence_keys"), vec!["e1"]);
    let watch = reading.get("watch_summary").unwrap();
    assert_eq!(text(watch, "status"), "low");
    assert_eq!(strs(watch, "evidence_keys"), vec!["e1"]);
    let items = reading.field_arr("evidence_summary").unwrap();
    assert_eq!(items.len(), 2);
    assert_eq!(text(&items[0], "label"), "Vénus");
    assert!(matches!(items[1].get("label"), Some(JsonValue::Null)));
    let quality = reading.get("quality").unwrap();
    assert_eq!(text(quality, "period_contract"), "free_next_7_days");
    assert!(matches!(quality.get("daily_timeline_count"), Some(JsonValue::Int(0))));
}

#[test]
fn the_free_reading_keeps_given_key_days() {
    let request = parse(
        r#"{"evidence": [{"evidence_key": "e1", "date": "2026-06-09"}],
            "key_days": [{"date": "a"}, {"date": "b"}, {"date": "c"}]}"#,
    );
    let reading = fake_free_period_writer_response(&request, &vec![]).unwrap();
    let key_days = reading.field_arr("key_days").unwrap();
    assert_eq!(key_days.len(), 2);
    assert_eq!(text(&key_days[1], "date"), "b");
    assert!(text(reading.get("summary").unwrap(), "text").contains("Autour du 2026-06-09, le climat met l'accent sur organization :"));
}

#[test]
fn the_free_reading_needs_evidence() {
    for request in [r#"{}"#, r#"{"evidence": []}"#, r#"{"evidence": "e1"}"#] {
        let err = fake_free_period_writer_response(&parse(request), &vec![]).unwrap_err();
        assert_eq!(err.detail.message, "HOROSCOPE_PERIOD_FREE_EVIDENCE_MISSING");
    }
}

#[test]
fn a_failure_issue() {
    let issue = period_v2_failure_issue("/reading", "PERIOD_V2_WORD_COUNT_WARNING", "metric", "Trop court.");
    assert_eq!(text(&issue, "path"), "/reading");
    assert_eq!(text(&issue, "code"), "PERIOD_V2_WORD_COUNT_WARNING");
    assert_eq!(text(&issue, "severity"), "metric");
    assert_eq!(text(&issue, "message"), "Trop court.");
}

const WINDOWS: &str = r#"{"semantic_brief": {"window_candidates": [
    {"date": "2026-03-02", "time_range_label": "9h-12h", "tone_code": "steady", "theme_code": "work", "reason": "  ", "evidence_keys": ["e1"], "source_snapshot_keys": ["s1"]},
    {"date": "2026-03-03", "time_range_label": "14h-18h", "tone_code": "careful", "watch_point": "Relire", "evidence_keys": ["e2"]},
    {"date": "2026-03-04", "time_range_label": "8h-10h", "tone_code": "bright", "best_for": ["repos"], "evidence_keys": ["e3"]},
    {"date": "2026-03-05", "time_range_label": "10h-11h", "tone_code": "bright", "evidence_keys": ["e4"]}
]}}"#;

#[test]
fn window_markers_of_a_request() {
    let request = parse(WINDOWS);
    let no_ids: Vec<Option<String>> = Vec::new();
    let best = window_markers_from_candidates_v2(&request, "best", &no_ids, &Vec::new(), &Vec::new());
    assert_eq!(best.len(), 2);
    assert_eq!(text(&best[0], "title"), "Lundi 02/03 9h-12h");
    assert_eq!(text(&best[0], "reason"), "Repère utile pour agir sans surcharge.");
    assert_eq!(text(&best[0], "theme"), "work");
    assert_eq!(strs(&best[0], "best_for"), vec!["work".to_string()]);
    assert_eq!(strs(&best[1], "best_for"), vec!["repos".to_string()]);
    assert_eq!(text(&best[1], "theme"), "thème");
    let watch = window_markers_from_candidates_v2(&request, "watch", &no_ids, &Vec::new(), &Vec::new());
    assert_eq!(watch.len(), 1);
    assert_eq!(text(&watch[0], "watch_point"), "Relire");
    assert!(matches!(watch[0].get("source_snapshot_keys"), Some(JsonValue::Null)));
    // The only careful window is excluded: the first window not excluded stands in.
    let ids = vec![Some("a".to_string()), Some("b".to_string())];
    let watch = window_markers_from_candidates_v2(&request, "watch", &ids, &vec!["b".to_string(), "a".to_string()], &Vec::new());
    assert_eq!(watch.len(), 1);
    assert_eq!(text(&watch[0], "date"), "2026-03-04");
    assert!(watch[0].get("reason").is_none());
    let other = window_markers_from_candidates_v2(&request, "other", &no_ids, &Vec::new(), &Vec::new());
    assert_eq!(other.len(), 3);
}
