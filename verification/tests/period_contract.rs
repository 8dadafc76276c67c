use astral_llm_application::json::{JsonEntry, JsonValue};
use astral_llm_application::period_contract::{
    period_evidence_keys_from_request, period_included_dates_from_request,
    period_snapshot_keys_from_request, validate_period_day_markers_contract_v2,
    validate_period_domain_sections, validate_period_evidence_keys,
    validate_period_evidence_summary, validate_period_marker_date_overlaps,
    validate_period_premium_strategy, validate_period_response_identity_contract_v2,
    validate_period_timeline_contract_v2, validate_period_watch_summary,
    validate_period_window_array,
};
use astral_llm_application::period_quality::{
    collect_period_v2_public_text, period_editorial_audit, period_quality_audit,
    period_v2_section_word_counts, simple_public_word_count,
    validate_period_v2_public_text_forbidden_technical_leaks,
};

fn s(text: &str) -> JsonValue {
    JsonValue::Str(text.to_string())
}

fn arr(items: Vec<JsonValue>) -> JsonValue {
    JsonValue::Array(items)
}

fn obj(members: Vec<(&str, JsonValue)>) -> JsonValue {
    JsonValue::Object(
        members
            .into_iter()
            .map(|(key, value)| JsonEntry { key: key.to_string(), value })
            .collect(),
    )
}

fn strings(items: &[&str]) -> Vec<String> {
    items.iter().map(|x| x.to_string()).collect()
}

const DATES: [&str; 7] = [
    "2026-06-08", "2026-06-09", "2026-06-10", "2026-06-11", "2026-06-12", "2026-06-13", "2026-06-14",
];

fn request() -> JsonValue {
    obj(vec![
        ("service_code", s("horoscope_basic_next_7_days_natal")),
        (
            "period_resolution",
            obj(vec![("included_dates", arr(DATES.iter().map(|d| s(d)).collect()))]),
        ),
        ("evidence", arr(vec![obj(vec![("evidence_key", s("ev:1"))]), obj(vec![("evidence_key", s("ev:2"))])])),
        ("scan_plan", obj(vec![("snapshots", arr(vec![obj(vec![("snapshot_key", s("snap:1"))])]))])),
    ])
}

fn day(date: &str) -> JsonValue {
    obj(vec![("date", s(date)), ("evidence_keys", arr(vec![s("ev:1")]))])
}

fn code(r: Result<(), astral_llm_application::error::GenerationError>) -> String {
    r.unwrap_err().detail().message.clone()
}

#[test]
fn request_sets() {
    let dates = period_included_dates_from_request(&request()).unwrap();
    assert_eq!(dates, strings(&DATES));
    assert_eq!(period_evidence_keys_from_request(&request()).unwrap(), strings(&["ev:1", "ev:2"]));
    assert_eq!(period_snapshot_keys_from_request(&request()).unwrap(), strings(&["snap:1"]));
    let short = obj(vec![("period_resolution", obj(vec![("included_dates", arr(vec![s("2026-06-08"), s("2026-06-08")]))]))]);
    assert_eq!(
        period_included_dates_from_request(&short).unwrap_err().detail().message,
        "HOROSCOPE_PERIOD_DATE_RANGE_MISMATCH"
    );
    assert!(period_evidence_keys_from_request(&short).is_err());
    assert!(period_snapshot_keys_from_request(&short).is_err());
}

#[test]
fn identity_contract() {
    let response = obj(vec![
        ("service_code", s("horoscope_basic_next_7_days_natal")),
        (
            "period_resolution",
            obj(vec![("included_dates", arr(DATES.iter().map(|d| s(d)).collect()))]),
        ),
    ]);
    assert!(validate_period_response_identity_contract_v2(&request(), &response).is_ok());
    let other = obj(vec![("service_code", s("horoscope_basic_next_7_days_natal"))]);
    assert_eq!(
        code(validate_period_response_identity_contract_v2(&request(), &other)),
        "HOROSCOPE_PERIOD_DATE_RANGE_MISMATCH"
    );
    let wrong = obj(vec![("service_code", s("horoscope_free_next_7_days_natal"))]);
    assert_eq!(
        code(validate_period_response_identity_contract_v2(&request(), &wrong)),
        "HOROSCOPE_PERIOD_RESPONSE_INVALID"
    );
}

#[test]
fn timeline_and_markers() {
    let dates = strings(&DATES);
    let evidence = strings(&["ev:1", "ev:2"]);
    let good = obj(vec![("daily_timeline", arr(DATES.iter().map(|d| day(d)).collect()))]);
    assert!(validate_period_timeline_contract_v2(&good, &dates, &evidence).is_ok());
    let mut repeated: Vec<JsonValue> = DATES.iter().map(|d| day(d)).collect();
    repeated[6] = day("2026-06-08");
    let bad = obj(vec![("daily_timeline", arr(repeated))]);
    assert_eq!(
        code(validate_period_timeline_contract_v2(&bad, &dates, &evidence)),
        "HOROSCOPE_PERIOD_DATE_RANGE_MISMATCH"
    );
    let short = obj(vec![("daily_timeline", arr(vec![day("2026-06-08")]))]);
    assert_eq!(
        code(validate_period_timeline_contract_v2(&short, &dates, &evidence)),
        "HOROSCOPE_PERIOD_TIMELINE_MISSING"
    );
    let markers = obj(vec![("best_days", arr(vec![day("2026-06-09"), day("2026-06-09")]))]);
    assert_eq!(
        code(validate_period_day_markers_contract_v2(&markers, "best_days", &dates, &evidence)),
        "HOROSCOPE_PERIOD_DUPLICATE_DAY_MARKER"
    );
    assert!(validate_period_day_markers_contract_v2(&markers, "watch_days", &dates, &evidence).is_ok());
    let off = obj(vec![("key_days", arr(vec![day("2026-07-01")]))]);
    assert_eq!(
        code(validate_period_day_markers_contract_v2(&off, "key_days", &dates, &evidence)),
        "HOROSCOPE_PERIOD_DATE_RANGE_MISMATCH"
    );
}

#[test]
fn evidence_references() {
    let allowed = strings(&["ev:1"]);
    assert!(validate_period_evidence_keys(&allowed, Some(&vec![s("ev:1")])).is_ok());
    assert!(validate_period_evidence_keys(&allowed, Some(&vec![])).is_err());
    assert!(validate_period_evidence_keys(&allowed, Some(&vec![s("ev:9")])).is_err());
    assert!(validate_period_evidence_keys(&allowed, None).is_err());
}

#[test]
fn overlaps_and_watch_summary() {
    let overlap = obj(vec![
        ("key_days", arr(vec![day("2026-06-09")])),
        ("best_days", arr(vec![day("2026-06-09")])),
    ]);
    assert_eq!(code(validate_period_marker_date_overlaps(&overlap)), "HOROSCOPE_PERIOD_KEY_DAYS_MISSING");
    let watch = obj(vec![
        ("best_days", arr(vec![day("2026-06-10")])),
        ("watch_days", arr(vec![day("2026-06-10")])),
    ]);
    assert_eq!(code(validate_period_marker_date_overlaps(&watch)), "HOROSCOPE_PERIOD_BEST_WATCH_MISSING");
    let evidence = strings(&["ev:1"]);
    let none_with_days = obj(vec![
        ("watch_summary", obj(vec![("status", s("none"))])),
        ("watch_days", arr(vec![day("2026-06-10")])),
    ]);
    assert_eq!(
        code(validate_period_watch_summary(&none_with_days, &evidence)),
        "HOROSCOPE_PERIOD_BEST_WATCH_MISSING"
    );
    let low = obj(vec![("watch_summary", obj(vec![("status", s("low")), ("evidence_keys", arr(vec![s("ev:1")]))]))]);
    assert!(validate_period_watch_summary(&low, &evidence).is_ok());
    let none_with_keys = obj(vec![("watch_summary", obj(vec![("status", s("none")), ("evidence_keys", arr(vec![s("ev:1")]))]))]);
    assert_eq!(
        code(validate_period_watch_summary(&none_with_keys, &evidence)),
        "HOROSCOPE_PERIOD_EVIDENCE_MISSING"
    );
}

fn section(domain: &str, keys: &[&str]) -> JsonValue {
    obj(vec![("domain", s(domain)), ("evidence_keys", arr(keys.iter().map(|k| s(k)).collect()))])
}

#[test]
fn domain_sections_and_evidence_summary() {
    let evidence = strings(&["ev:1", "ev:2"]);
    let good = obj(vec![("domain_sections", arr(vec![section("Amour", &["ev:1"]), section("Travail", &["ev:2"])]))]);
    assert!(validate_period_domain_sections(&good, &evidence).is_ok());
    let same = obj(vec![("domain_sections", arr(vec![section("Amour", &["ev:1"]), section("Travail", &["ev:1"])]))]);
    assert_eq!(code(validate_period_domain_sections(&same, &evidence)), "HOROSCOPE_PERIOD_EVIDENCE_MISSING");
    let dup = obj(vec![("domain_sections", arr(vec![section("Amour", &["ev:1"]), section("AMOUR", &["ev:2"])]))]);
    assert_eq!(code(validate_period_domain_sections(&dup, &evidence)), "HOROSCOPE_PERIOD_EVIDENCE_MISSING");
    let premium_short = obj(vec![
        ("service_code", s("horoscope_premium_next_7_days_natal")),
        ("domain_sections", arr(vec![section("Amour", &["ev:1"]), section("Travail", &["ev:2"])])),
    ]);
    assert_eq!(
        code(validate_period_domain_sections(&premium_short, &evidence)),
        "HOROSCOPE_PERIOD_PREMIUM_DOMAIN_DEPTH_MISSING"
    );
    let dates = strings(&DATES);
    let summary = obj(vec![(
        "evidence_summary",
        arr(vec![obj(vec![("date", s("2026-06-08")), ("evidence_key", s("ev:1")), ("label", s("Climat"))])]),
    )]);
    assert!(validate_period_evidence_summary(&summary, &dates, &evidence).is_ok());
    let unlabeled = obj(vec![(
        "evidence_summary",
        arr(vec![obj(vec![("date", s("2026-06-08")), ("evidence_key", s("ev:1")), ("label", s(" "))])]),
    )]);
    assert_eq!(
        code(validate_period_evidence_summary(&unlabeled, &dates, &evidence)),
        "HOROSCOPE_PERIOD_EVIDENCE_MISSING"
    );
}

fn window(date: &str, sources: &[&str], keys: &[&str]) -> JsonValue {
    obj(vec![
        ("date", s(date)),
        ("time_range_label", s("9h-11h")),
        ("title", s("Élan")),
        ("theme", s("Travail")),
        ("tone", s("porteur")),
        ("reason", s("Un appui net.")),
        ("source_snapshot_keys", arr(sources.iter().map(|k| s(k)).collect())),
        ("evidence_keys", arr(keys.iter().map(|k| s(k)).collect())),
    ])
}

#[test]
fn windows_and_strategy() {
    let dates = strings(&DATES);
    let evidence = strings(&["ev:1"]);
    let snaps = strings(&["snap:1"]);
    let good = vec![window("2026-06-09", &["snap:1"], &["ev:1"])];
    assert!(validate_period_window_array("best_windows", &good, &dates, &evidence, &snaps).is_ok());
    assert_eq!(
        code(validate_period_window_array("watch_windows", &good, &dates, &evidence, &snaps)),
        "HOROSCOPE_PERIOD_RESPONSE_INVALID"
    );
    let no_source = vec![window("2026-06-09", &[], &["ev:1"])];
    assert_eq!(
        code(validate_period_window_array("best_windows", &no_source, &dates, &evidence, &snaps)),
        "HOROSCOPE_PERIOD_PREMIUM_WINDOWS_MISSING"
    );
    let no_evidence = vec![window("2026-06-09", &["snap:1"], &[])];
    assert_eq!(
        code(validate_period_window_array("best_windows", &no_evidence, &dates, &evidence, &snaps)),
        "HOROSCOPE_PERIOD_PREMIUM_WINDOW_EVIDENCE_MISSING"
    );
    let strategy = obj(vec![(
        "strategy",
        obj(vec![
            ("title", s("Cap")),
            ("text", s("Avancer")),
            ("best_use", s("Tôt")),
            ("recovery", s("Souffler")),
            ("evidence_keys", arr(vec![s("ev:1")])),
        ]),
    )]);
    assert!(validate_period_premium_strategy(&strategy, &evidence).is_ok());
    let thin = obj(vec![("strategy", obj(vec![("title", s("Cap"))]))]);
    assert_eq!(code(validate_period_premium_strategy(&thin, &evidence)), "HOROSCOPE_PERIOD_PREMIUM_STRATEGY_MISSING");
}

#[test]
fn public_text_and_audit() {
    let response = obj(vec![
        ("week_overview", obj(vec![("title", s("Semaine")), ("text", s("Une semaine 2026 calme"))])),
        ("advice", obj(vec![("main", s("Ralentir"))])),
        ("daily_timeline", arr(vec![obj(vec![("title", s("Lundi")), ("text", s("Doux")), ("date", s("2026-06-08"))])])),
    ]);
    assert_eq!(collect_period_v2_public_text(&response), "Semaine\nUne semaine 2026 calme\nRalentir\nLundi\nDoux\n");
    assert_eq!(simple_public_word_count("Une semaine 2026 calme ... !"), 3);
    let counts = period_v2_section_word_counts(&response);
    match counts {
        JsonValue::Object(entries) => {
            assert_eq!(entries.len(), 8);
            assert_eq!(entries[0].key, "week_overview");
            assert!(matches!(entries[0].value, JsonValue::Int(3)));
            assert!(matches!(entries[4].value, JsonValue::Int(2)));
        }
        _ => panic!("expected an object"),
    }
    match period_quality_audit(&response) {
        JsonValue::Object(entries) => {
            assert!(matches!(entries[1].value, JsonValue::Int(7)));
            match &entries[3].value {
                JsonValue::Array(ws) => assert_eq!(ws.len(), 1),
                _ => panic!("expected warnings"),
            }
        }
        _ => panic!("expected an object"),
    }
    let rows = vec![obj(vec![
        ("detail_profile_code", s("basic_standard")),
        ("target_words_min", JsonValue::Int(1)),
        ("target_words_max", JsonValue::Int(2)),
        ("hard_limit_words", JsonValue::Int(100)),
    ])];
    match period_editorial_audit(&obj(vec![]), &response, &rows) {
        JsonValue::Object(entries) => match &entries[3].value {
            JsonValue::Array(ws) => assert_eq!(ws.len(), 2),
            _ => panic!("expected warnings"),
        },
        _ => panic!("expected an object"),
    }
    assert_eq!(
        code(validate_period_v2_public_text_forbidden_technical_leaks("Voir Evidence_Key ici")),
        "HOROSCOPE_PERIOD_TECHNICAL_CODE_LEAK"
    );
    assert!(validate_period_v2_public_text_forbidden_technical_leaks("Une semaine calme").is_ok());
}
