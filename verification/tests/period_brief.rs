use astral_llm_application::period_domains::build_domain_candidates_v2;
use astral_llm_application::json::{JsonEntry, JsonValue};
use astral_llm_application::period_brief::{
    astrology_public_safety_profile, build_daily_signal_summary_v2, build_day_candidates_v2,
    build_period_editorial_angles_v2, build_period_premium_section_roles_v2, build_period_semantic_brief,
    build_repeating_arcs_v2, build_window_candidate_v2, build_window_candidates_v2, sanitize_writer_v2_evidence,
    validate_period_writer_v2_next_7_days_contract, WindowFilter,
};
use astral_llm_application::period_metadata::{PeriodDetailProfile, PeriodWordLimits};
use astral_llm_application::period_windows::{build_period_window, scan_plan_snapshot_keys_by_date};

fn convert(value: &serde_json::Value) -> JsonValue {
    match value {
        serde_json::Value::Null => JsonValue::Null,
        serde_json::Value::Bool(b) => JsonValue::Bool(*b),
        serde_json::Value::Number(n) => match n.as_i64() {
            Some(i) => JsonValue::Int(i),
            None => JsonValue::Decimal(n.to_string()),
        },
        serde_json::Value::String(s) => JsonValue::Str(s.clone()),
        serde_json::Value::Array(items) => JsonValue::Array(items.iter().map(convert).collect()),
        serde_json::Value::Object(map) => JsonValue::Object(
            map.iter()
                .map(|(k, v)| JsonEntry { key: k.clone(), value: convert(v) })
                .collect(),
        ),
    }
}

fn parse(text: &str) -> JsonValue {
    convert(&serde_json::from_str::<serde_json::Value>(text).unwrap())
}

fn list(text: &str) -> Vec<JsonValue> {
    match parse(text) {
        JsonValue::Array(items) => items,
        _ => panic!("not an array"),
    }
}

fn strs(v: &JsonValue, key: &str) -> Vec<String> {
    v.field_arr(key)
        .unwrap()
        .iter()
        .map(|x| x.as_str().unwrap().to_string())
        .collect()
}

fn text(v: &JsonValue, key: &str) -> String {
    v.field_str(key).unwrap().to_string()
}

fn scan_plan() -> JsonValue {
    parse(
        r#"{"snapshots": [
            {"date": "2026-06-08", "reference_time_local": "18:00", "snapshot_key": "s3"},
            {"date": "2026-06-08", "reference_time_local": "06:00", "snapshot_key": "s1"},
            {"date": "2026-06-09", "snapshot_key": "s4"},
            {"reference_time_local": "09:00", "snapshot_key": "nodate"},
            {"date": "2026-06-08", "reference_time_local": "12:00"}
        ]}"#,
    )
}

fn pairs(items: &[(&str, &str)]) -> Vec<(String, String)> {
    items.iter().map(|(a, b)| (a.to_string(), b.to_string())).collect()
}

#[test]
fn snapshot_times_by_date() {
    let by_date = scan_plan_snapshot_keys_by_date(&scan_plan());
    assert_eq!(by_date.len(), 2);
    assert_eq!(by_date[0].0, "2026-06-08");
    assert_eq!(by_date[0].1, pairs(&[("06:00", "s1"), ("12:00", ""), ("18:00", "s3")]));
    assert_eq!(by_date[1].0, "2026-06-09");
    assert_eq!(by_date[1].1, pairs(&[("12:00", "s4")]));
    assert!(scan_plan_snapshot_keys_by_date(&parse(r#"{"snapshots": 3}"#)).is_empty());
}

#[test]
fn snapshot_times_keep_the_order_of_equal_times() {
    let plan = parse(
        r#"{"snapshots": [
            {"date": "d", "reference_time_local": "09:00", "snapshot_key": "b"},
            {"date": "d", "reference_time_local": "06:00", "snapshot_key": "a"},
            {"date": "d", "reference_time_local": "09:00", "snapshot_key": "c"}
        ]}"#,
    );
    let by_date = scan_plan_snapshot_keys_by_date(&plan);
    assert_eq!(by_date[0].1, pairs(&[("06:00", "a"), ("09:00", "b"), ("09:00", "c")]));
}

fn themes() -> Vec<JsonValue> {
    list(r#"[{"theme_code": "love", "public_label": "Amour", "domain_focus": "Le lien"}]"#)
}

fn tones() -> Vec<JsonValue> {
    list(r#"[{"tone_code": "calm", "label_fr": "apaisé"}]"#)
}

#[test]
fn best_and_watch_windows() {
    let by_date = scan_plan_snapshot_keys_by_date(&scan_plan());
    let event = parse(
        r#"{"date": "2026-06-08", "snapshot_key": "s1", "theme_code": "love", "tone": "calm", "evidence_keys": ["e1"]}"#,
    );
    let best = build_period_window(&event, &by_date, false, 1, &themes(), &tones()).unwrap();
    assert_eq!(text(&best, "date"), "2026-06-08");
    assert_eq!(text(&best, "time_range_label"), "06:00–12:00");
    assert_eq!(strs(&best, "source_snapshot_keys"), vec!["s1"]);
    assert_eq!(text(&best, "title"), "Amour 06:00");
    assert_eq!(text(&best, "theme"), "Amour");
    assert_eq!(text(&best, "tone"), "apaisé");
    assert_eq!(text(&best, "reason"), "Le lien");
    assert_eq!(strs(&best, "best_for"), vec!["Amour 06:00", "Le lien"]);
    assert_eq!(strs(&best, "evidence_keys"), vec!["e1"]);
    assert!(best.get("watch_point").is_none());

    let late = parse(r#"{"date": "2026-06-08", "snapshot_key": "s3", "theme_code": "love", "tone": "bold"}"#);
    let watch = build_period_window(&late, &by_date, true, 1, &themes(), &tones()).unwrap();
    assert_eq!(text(&watch, "time_range_label"), "18:00–00:00");
    assert_eq!(text(&watch, "watch_point"), "love");
    assert_eq!(text(&watch, "tone"), "bold");
    assert!(watch.get("best_for").is_none());
    assert!(matches!(watch.get("evidence_keys"), Some(JsonValue::Null)));

    let unknown_key = parse(r#"{"date": "2026-06-08", "snapshot_key": "zz"}"#);
    let first = build_period_window(&unknown_key, &by_date, false, 1, &themes(), &tones()).unwrap();
    assert_eq!(text(&first, "time_range_label"), "06:00–12:00");
    assert_eq!(text(&first, "title"), "organization 06:00");
    assert_eq!(text(&first, "tone"), "focused");

    let no_snapshot = parse(r#"{"date": "2026-06-10"}"#);
    assert!(build_period_window(&no_snapshot, &by_date, false, 1, &themes(), &tones()).is_none());
    assert!(build_period_window(&parse(r#"{"snapshot_key": "s1"}"#), &by_date, false, 1, &themes(), &tones()).is_none());
}

fn window_events() -> Vec<JsonValue> {
    list(
        r#"[
            {"date": "2026-06-08", "snapshot_key": "s1", "tone": "calm", "theme_code": "love", "score": 0.8, "evidence_keys": ["e1"]},
            {"date": "2026-06-08", "snapshot_key": "s3", "tone": "careful", "theme_code": "work", "evidence_keys": ["e2"]},
            {"date": "2026-06-08", "snapshot_key": "s1", "tone": "calm", "theme_code": "energy"},
            {"date": "2026-06-09", "snapshot_key": "s4", "tone": "calm", "aspect": "trine", "natal_house": 5},
            {"date": "2026-06-09", "snapshot_key": "s4", "tone": "calm", "natal_house": 8}
        ]"#,
    )
}

#[test]
fn window_candidates_pick_one_window_per_date() {
    let events = window_events();
    let best = build_window_candidates_v2(&events, &scan_plan(), "best", 5, &WindowFilter::Best);
    assert_eq!(best.len(), 2);
    assert_eq!(text(&best[0], "date"), "2026-06-08");
    assert_eq!(text(&best[0], "time_range_label"), "06:00–12:00");
    assert_eq!(strs(&best[0], "source_snapshot_keys"), vec!["s1"]);
    assert_eq!(strs(&best[0], "usage_keywords"), vec!["calm", "love"]);
    assert_eq!(text(&best[0], "tone_code"), "calm");
    assert!(matches!(best[0].get("score"), Some(JsonValue::Decimal(d)) if d == "0.8"));
    assert_eq!(text(&best[1], "date"), "2026-06-09");
    assert_eq!(text(&best[1], "time_range_label"), "12:00–00:00");
    assert!(matches!(best[1].get("score"), Some(JsonValue::Null)));

    let limited = build_window_candidates_v2(&events, &scan_plan(), "best", 1, &WindowFilter::Best);
    assert_eq!(limited.len(), 1);
    let unlimited = build_window_candidates_v2(&events, &scan_plan(), "best", 0, &WindowFilter::Best);
    assert_eq!(unlimited.len(), 2);

    let watch = build_window_candidates_v2(&events, &scan_plan(), "watch", 5, &WindowFilter::Watch(vec![]));
    assert_eq!(watch.len(), 1);
    assert_eq!(text(&watch[0], "time_range_label"), "18:00–00:00");
    let taken = build_window_candidates_v2(&events, &scan_plan(), "watch", 5, &WindowFilter::Watch(vec!["s3".to_string()]));
    assert!(taken.is_empty());
}

#[test]
fn a_window_candidate_needs_snapshots() {
    let by_date = scan_plan_snapshot_keys_by_date(&scan_plan());
    assert!(build_window_candidate_v2(&parse(r#"{"date": "2026-07-01"}"#), &by_date, "best").is_none());
    let c = build_window_candidate_v2(&parse(r#"{"date": "2026-06-09", "theme_code": "love"}"#), &by_date, "best").unwrap();
    assert_eq!(text(&c, "theme_code"), "love");
    assert!(matches!(c.get("tone_code"), Some(JsonValue::Null)));
    assert_eq!(strs(&c, "usage_keywords"), vec!["love"]);
}

#[test]
fn day_candidates_take_fresh_dates() {
    let events = list(
        r#"[
            {"date": "d1", "score": 1, "theme_code": "love", "evidence_keys": ["e1"]},
            {"date": "d1", "theme_code": "work"},
            {"date": "d2", "tone": "calm"},
            {"theme_code": "x"},
            {"date": "d3"}
        ]"#,
    );
    let days = build_day_candidates_v2(&events, "key", 2);
    assert_eq!(days.len(), 2);
    assert_eq!(text(&days[0], "date"), "d1");
    assert_eq!(text(&days[0], "candidate_type"), "key");
    assert!(matches!(days[0].get("score"), Some(JsonValue::Int(1))));
    assert_eq!(strs(&days[0], "keywords"), vec!["love"]);
    assert_eq!(strs(&days[0], "evidence_keys"), vec!["e1"]);
    assert_eq!(text(&days[1], "date"), "d2");
    assert_eq!(strs(&days[1], "keywords"), vec!["calm"]);
    assert_eq!(build_day_candidates_v2(&events, "key", 10).len(), 3);
    assert!(build_day_candidates_v2(&events, "key", 0).is_empty());
    let bare = build_day_candidates_v2(&list(r#"[{"date": "d9"}]"#), "best", 1);
    assert_eq!(strs(&bare[0], "keywords"), vec!["weekly_signal"]);
}

fn day_events() -> Vec<JsonValue> {
    list(
        r#"[
            {"date": "d1", "event_key": "k1", "theme_code": "love", "tone": "calm", "intensity": "high", "evidence_keys": ["e1", "e2"]},
            {"date": "d1", "event_key": "k2", "theme_code": "work", "tone": "careful", "evidence_keys": ["e2", "e3"]},
            {"date": "d2", "event_key": "kx", "theme_code": "x"},
            {"date": "d1", "theme_code": "love", "tone": "bold", "evidence_keys": ["e4"]},
            {"date": "d1", "event_key": "k5", "theme_code": "energy", "evidence_keys": ["e5"]},
            {"date": "d1", "event_key": "k6", "theme_code": "clarity"}
        ]"#,
    )
}

#[test]
fn what_a_day_signals() {
    let summary = build_daily_signal_summary_v2("d1", 0, &day_events());
    assert_eq!(text(&summary, "date"), "d1");
    assert!(matches!(summary.get("day_index"), Some(JsonValue::Int(0))));
    assert_eq!(strs(&summary, "main_event_keys"), vec!["k1", "k2", "k5"]);
    assert_eq!(strs(&summary, "evidence_keys"), vec!["e1", "e2", "e3", "e4"]);
    assert_eq!(strs(&summary, "theme_codes"), vec!["love", "work", "energy"]);
    assert_eq!(strs(&summary, "tone_codes"), vec!["calm", "careful", "bold"]);
    assert_eq!(text(&summary, "intensity"), "high");
    assert_eq!(text(&summary, "role_hint"), "entry");
    assert_eq!(strs(&summary, "keywords"), vec!["bold", "calm", "careful", "energy", "love", "work"]);
    assert_eq!(strs(&summary, "opportunity_keywords"), vec!["bold", "calm", "energy", "love"]);
    assert_eq!(strs(&summary, "risk_keywords"), vec!["careful", "work"]);
    assert_eq!(strs(&summary, "avoid_keywords"), vec!["overpromise", "overinterpretation"]);
}

#[test]
fn a_quiet_day_still_has_keywords() {
    let summary = build_daily_signal_summary_v2("d7", 3, &day_events());
    assert!(matches!(summary.get("day_index"), Some(JsonValue::Int(3))));
    assert_eq!(text(&summary, "intensity"), "medium");
    assert_eq!(text(&summary, "role_hint"), "pivot");
    assert!(strs(&summary, "main_event_keys").is_empty());
    assert_eq!(strs(&summary, "keywords"), vec!["weekly_signal"]);
    assert_eq!(strs(&summary, "opportunity_keywords"), vec!["weekly_signal"]);
    assert_eq!(strs(&summary, "risk_keywords"), vec!["weekly_signal"]);
}

#[test]
fn editorial_angles_do_not_repeat() {
    let days = list(
        r#"[
            {"date": "d1", "theme_codes": ["love"]},
            {"date": "d2", "theme_codes": ["relationship"]},
            {"date": "d3", "theme_codes": ["relationship"]},
            {"date": "d4"}
        ]"#,
    );
    let angles = build_period_editorial_angles_v2(&days);
    let codes: Vec<String> = angles.iter().map(|a| text(a, "angle_code")).collect();
    assert_eq!(codes, vec!["organisation", "relation", "mise_en_pratique", "pivot"]);
    assert_eq!(text(&angles[0], "date"), "d1");
    assert_eq!(text(&angles[2], "angle_hint"), "tester une décision dans un geste limité");
    assert_eq!(
        text(&angles[1], "avoid_repetition_hint"),
        "Varier lien: écoute, réparation, limite douce, geste concret."
    );
    assert_eq!(text(&angles[3], "date"), "d4");
}

#[test]
fn arcs_repeat_over_the_week() {
    let events = list(
        r#"[
            {"date": "d1", "transiting_object": "sun", "aspect": "trine", "natal_target": "moon", "theme_code": "love", "evidence_keys": ["e1"]},
            {"date": "d2", "transiting_object": "mars", "aspect": "square"},
            {"date": "d2", "transiting_object": "sun", "aspect": "trine", "natal_target": "moon", "theme_code": "love", "evidence_keys": ["e2", "e1"]},
            {"date": "d3", "transiting_object": "venus"}
        ]"#,
    );
    let arcs = build_repeating_arcs_v2(&events);
    assert_eq!(arcs.len(), 1);
    assert_eq!(text(&arcs[0], "signature_code"), "sun|trine|moon|love");
    assert_eq!(strs(&arcs[0], "dates"), vec!["d1", "d2"]);
    assert_eq!(strs(&arcs[0], "evidence_keys"), vec!["e1", "e2"]);
    assert_eq!(strs(&arcs[0], "dominant_keywords"), vec!["love", "moon", "sun", "trine"]);
    let bare = build_repeating_arcs_v2(&list(r#"[{"date": "d1"}, {"date": "d2"}]"#));
    assert_eq!(text(&bare[0], "signature_code"), "|||");
    assert!(build_repeating_arcs_v2(&list(r#"[{"aspect": "a"}, {"aspect": "b"}]"#)).is_empty());
}

#[test]
fn the_period_must_be_the_next_seven_days() {
    let good = parse(
        r#"{"period_profile_code": "next_7_days", "duration_days": 7,
            "included_dates": ["d1", "d2", "d3", "d4", "d5", "d6", "d7"]}"#,
    );
    assert!(validate_period_writer_v2_next_7_days_contract(&good).is_ok());
    let other = parse(r#"{"period_profile_code": "next_30_days", "duration_days": 7, "included_dates": []}"#);
    assert_eq!(
        validate_period_writer_v2_next_7_days_contract(&other).unwrap_err().detail.message,
        "HOROSCOPE_PERIOD_PROFILE_UNSUPPORTED"
    );
    let short = parse(r#"{"period_profile_code": "next_7_days", "duration_days": 7, "included_dates": ["d1"]}"#);
    assert_eq!(
        validate_period_writer_v2_next_7_days_contract(&short).unwrap_err().detail.message,
        "HOROSCOPE_PERIOD_DATE_RANGE_MISMATCH"
    );
    let long = parse(
        r#"{"period_profile_code": "next_7_days", "duration_days": 8,
            "included_dates": ["d1", "d2", "d3", "d4", "d5", "d6", "d7"]}"#,
    );
    assert_eq!(
        validate_period_writer_v2_next_7_days_contract(&long).unwrap_err().detail.message,
        "HOROSCOPE_PERIOD_DATE_RANGE_MISMATCH"
    );
}

#[test]
fn the_writer_sees_a_narrow_view_of_the_evidence() {
    let items = list(r#"[{"evidence_key": "e1", "tone": "calm", "human_label": "secret", "score": 0.5}]"#);
    let out = sanitize_writer_v2_evidence(&items);
    assert_eq!(out.len(), 1);
    assert_eq!(text(&out[0], "evidence_key"), "e1");
    assert_eq!(text(&out[0], "tone_code"), "calm");
    assert!(matches!(out[0].get("date"), Some(JsonValue::Null)));
    assert!(out[0].get("human_label").is_none());
    assert!(out[0].get("tone").is_none());
}

#[test]
fn section_roles_and_safety_profile() {
    let roles = build_period_premium_section_roles_v2();
    assert_eq!(text(&roles, "overview_role"), "trajectoire de période, pas résumé des sept jours");
    assert_eq!(text(&roles, "strategy_role"), "arbitrage final sans refaire le calendrier");
    let safety = astrology_public_safety_profile();
    assert_eq!(text(&safety, "domain"), "astrology_public_guidance");
    assert!(matches!(safety.get("forbid_fatalism"), Some(JsonValue::Bool(true))));
    assert!(matches!(safety.get("evidence_keys_must_come_from_request"), Some(JsonValue::Bool(true))));
}

fn profile(include_optional: bool) -> PeriodDetailProfile {
    PeriodDetailProfile {
        max_evidence: 20,
        max_key_days: 2,
        max_best_days: 2,
        max_watch_days: 2,
        max_domain_sections: 3,
        max_best_windows: 2,
        max_watch_windows: 2,
        include_best_days: include_optional,
        include_watch_days: include_optional,
        include_best_windows: include_optional,
        include_watch_windows: include_optional,
        word_limits: PeriodWordLimits { target_min: 100, target_max: 200, hard_limit: 300 },
    }
}

fn seven_days() -> JsonValue {
    parse(
        r#"{"period_profile_code": "next_7_days", "duration_days": 7,
            "included_dates": ["2026-06-08", "2026-06-09", "d3", "d4", "d5", "d6", "d7"]}"#,
    )
}

#[test]
fn the_semantic_brief_of_a_week() {
    let events = window_events();
    let domains = list(r#"[{"domain_code": "love"}]"#);
    let brief = build_period_semantic_brief(&seven_days(), &scan_plan(), &events, &profile(true), "high", domains).unwrap();
    assert_eq!(text(&brief, "week_intensity"), "high");
    assert_eq!(brief.field_arr("daily_signal_summary").unwrap().len(), 7);
    assert_eq!(brief.field_arr("editorial_angles").unwrap().len(), 7);
    assert_eq!(brief.field_arr("domain_candidates").unwrap().len(), 1);
    let key_days = brief.field_arr("key_day_candidates").unwrap();
    assert_eq!(key_days.len(), 2);
    let watch_days = brief.field_arr("watch_day_candidates").unwrap();
    assert_eq!(watch_days.len(), 1);
    assert_eq!(text(&watch_days[0], "date"), "2026-06-08");
    // Both dates are taken by key or watch days.
    assert!(brief.field_arr("best_day_candidates").unwrap().is_empty());
    let windows = brief.field_arr("window_candidates").unwrap();
    assert_eq!(windows.len(), 3);
    assert_eq!(text(&windows[2], "time_range_label"), "18:00–00:00");
    assert_eq!(strs(&brief, "week_tone_codes"), vec!["calm", "careful"]);
    assert_eq!(text(brief.get("editorial_arc").unwrap(), "purpose"), "Donner une trajectoire lisible: ouverture, pivot, consolidation, clôture.");
    assert!(brief.field_arr("repeating_arcs").unwrap().is_empty());

    let lean = build_period_semantic_brief(&seven_days(), &scan_plan(), &events, &profile(false), "low", vec![]).unwrap();
    assert!(lean.field_arr("watch_day_candidates").unwrap().is_empty());
    assert!(lean.field_arr("best_day_candidates").unwrap().is_empty());
    assert!(lean.field_arr("window_candidates").unwrap().is_empty());
}

#[test]
fn the_semantic_brief_needs_the_next_seven_days() {
    let bad = parse(r#"{"period_profile_code": "next_7_days", "duration_days": 7, "included_dates": []}"#);
    let err = build_period_semantic_brief(&bad, &scan_plan(), &window_events(), &profile(true), "high", vec![]).unwrap_err();
    assert_eq!(err.detail.message, "HOROSCOPE_PERIOD_DATE_RANGE_MISMATCH");
}

#[test]
fn domain_candidates_heaviest_first() {
    let evidence = vec![
        astral_llm_application::json::JsonValue::Object(vec![
            astral_llm_application::json::JsonEntry { key: "theme_code".into(), value: astral_llm_application::json::JsonValue::Str("love".into()) },
            astral_llm_application::json::JsonEntry { key: "evidence_key".into(), value: astral_llm_application::json::JsonValue::Str("e1".into()) },
        ]),
        astral_llm_application::json::JsonValue::Object(vec![
            astral_llm_application::json::JsonEntry { key: "theme_code".into(), value: astral_llm_application::json::JsonValue::Str("work".into()) },
            astral_llm_application::json::JsonEntry { key: "evidence_key".into(), value: astral_llm_application::json::JsonValue::Str("e2".into()) },
        ]),
        astral_llm_application::json::JsonValue::Object(vec![
            astral_llm_application::json::JsonEntry { key: "theme_code".into(), value: astral_llm_application::json::JsonValue::Str("work".into()) },
            astral_llm_application::json::JsonEntry { key: "evidence_key".into(), value: astral_llm_application::json::JsonValue::Str("e3".into()) },
        ]),
        astral_llm_application::json::JsonValue::Object(Vec::new()),
    ];
    let out = build_domain_candidates_v2(&evidence, 3);
    let codes: Vec<&str> = out.iter().map(|c| c.domain_code.as_str()).collect();
    assert_eq!(codes, vec!["work", "love", "organization"]);
    assert_eq!(out[0].count, 2);
    assert_eq!(out[0].evidence_keys, vec!["e2".to_string(), "e3".to_string()]);
    assert_eq!(out[0].keywords, vec!["work".to_string()]);
    assert_eq!(out[2].keywords, vec!["weekly_signal".to_string()]);
    // With one section, every theme weighs 1: they keep the order first seen.
    let one = build_domain_candidates_v2(&evidence, 1);
    assert_eq!(one.len(), 1);
    assert_eq!(one[0].domain_code, "love");
}
