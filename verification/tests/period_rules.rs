use astral_llm_application::json::{JsonEntry, JsonValue};
use astral_llm_application::period_metadata::{
    period_detail_profile, period_writer_max_output_tokens, period_writer_reasoning_effort,
    validate_period_public_word_count, ReasoningEffort,
};
use astral_llm_application::reference_data::{
    public_watch_point_for_theme, slot_label, slot_profile_label, SlotProfile,
};
use astral_llm_application::semantic_brief::{
    validate_semantic_brief_is_atomic, validate_semantic_brief_references_only,
};

fn s(text: &str) -> JsonValue {
    JsonValue::Str(text.to_string())
}

fn n(v: i64) -> JsonValue {
    JsonValue::Int(v)
}

fn arr(items: Vec<JsonValue>) -> JsonValue {
    JsonValue::Array(items)
}

fn obj(members: Vec<(&str, JsonValue)>) -> JsonValue {
    JsonValue::Object(
        members
            .into_iter()
            .map(|(key, value)| JsonEntry { key: key.to_string(), value })
            .collect(),
    )
}

fn profile_rows() -> Vec<JsonValue> {
    vec![
        obj(vec![
            ("detail_profile_code", s("basic_standard")),
            ("target_words_min", n(800)),
            ("target_words_max", n(1200)),
            ("hard_limit_words", n(1500)),
        ]),
        obj(vec![
            ("detail_profile_code", s("premium_rich")),
            ("is_enabled", JsonValue::Bool(true)),
            ("target_words_min", n(1000)),
            ("hard_limit_words", n(2000)),
            ("include_best_windows", JsonValue::Bool(true)),
        ]),
        obj(vec![("detail_profile_code", s("retired")), ("is_enabled", JsonValue::Bool(false))]),
    ]
}

#[test]
fn detail_profiles_fill_defaults() {
    let p = period_detail_profile("premium_rich", &profile_rows()).unwrap();
    assert_eq!(p.max_domain_sections, 5);
    assert_eq!(p.word_limits.target_min, 1000);
    assert_eq!(p.word_limits.target_max, 1200);
    assert_eq!(p.word_limits.hard_limit, 2000);
    assert!(p.include_best_windows);
    assert!(!p.include_watch_windows);
    assert_eq!(p.max_evidence, 20);
    let basic = period_detail_profile("basic_standard", &profile_rows()).unwrap();
    assert_eq!(basic.max_domain_sections, 4);
    let err = period_detail_profile("retired", &profile_rows()).unwrap_err();
    assert_eq!(err.detail().message, "HOROSCOPE_PERIOD_PROFILE_UNSUPPORTED");
}

#[test]
fn writer_budget_and_effort() {
    let rows = profile_rows();
    let v2 = obj(vec![("contract_version", s("horoscope_period_writer_request_v2"))]);
    assert_eq!(period_writer_max_output_tokens(&v2, &rows), 16000);
    let premium = obj(vec![("detail_profile_code", s("premium_rich"))]);
    assert_eq!(period_writer_max_output_tokens(&premium, &rows), 6500);
    let unknown = obj(vec![("detail_profile_code", s("nope"))]);
    assert_eq!(period_writer_max_output_tokens(&unknown, &rows), 5000);
    assert_eq!(period_writer_reasoning_effort(&v2), Some(ReasoningEffort::Minimal));
    let basic = obj(vec![("service_code", s("horoscope_basic_next_7_days_natal"))]);
    assert_eq!(period_writer_reasoning_effort(&basic), Some(ReasoningEffort::Minimal));
    let premium_service = obj(vec![("service_code", s("horoscope_premium_next_7_days_natal"))]);
    assert_eq!(period_writer_reasoning_effort(&premium_service), None);
}

#[test]
fn word_count_gate() {
    let rows = profile_rows();
    let v2 = obj(vec![("contract_version", s("horoscope_period_writer_request_v2"))]);
    let response = obj(vec![]);
    let text_99 = "mot ".repeat(99);
    let text_100 = "mot ".repeat(100);
    let err = validate_period_public_word_count(&v2, &response, &text_99, &rows).unwrap_err();
    assert_eq!(err.detail().message, "HOROSCOPE_PERIOD_WORD_COUNT_OUT_OF_RANGE");
    assert!(validate_period_public_word_count(&v2, &response, &text_100, &rows).is_ok());
    let too_long = "mot ".repeat(1501);
    assert!(validate_period_public_word_count(&v2, &response, &too_long, &rows).is_err());
    let fake = obj(vec![("quality", obj(vec![("provider", s("fake"))]))]);
    assert!(validate_period_public_word_count(&v2, &fake, "", &rows).is_ok());
}

fn slot(code: &str, label: Option<&str>) -> SlotProfile {
    SlotProfile {
        service_code: "horoscope_premium_daily_local_2h_slots".to_string(),
        slot_code: code.to_string(),
        start_local_time: "08:00".to_string(),
        end_local_time: "10:00".to_string(),
        reference_local_time: "09:00".to_string(),
        slot_label: label.map(str::to_string),
        is_public: Some(true),
        sort_order: 1,
    }
}

#[test]
fn slot_labels() {
    assert_eq!(slot_label("afternoon"), "Après-midi");
    assert_eq!(slot_label("night"), "Moment");
    let profiles = vec![slot("morning", None), slot("h08", Some("8h-10h"))];
    assert_eq!(slot_profile_label(&profiles, "h08"), "8h-10h");
    assert_eq!(slot_profile_label(&profiles, "morning"), "Matin");
    assert_eq!(slot_profile_label(&profiles, "evening"), "Soir");
}

#[test]
fn watch_point_of_a_theme() {
    let rows = vec![
        obj(vec![("theme_code", s("love")), ("advice_axis", s("a")), ("public_watch_point", s("old"))]),
        obj(vec![("theme_code", s("love")), ("advice_axis", s("b")), ("public_watch_point", s("new"))]),
        obj(vec![("theme_code", s("work")), ("public_watch_point", s("no axis"))]),
    ];
    assert_eq!(public_watch_point_for_theme("love", &rows).unwrap(), Some("new".to_string()));
    assert_eq!(public_watch_point_for_theme("work", &rows).unwrap(), None);
    assert_eq!(public_watch_point_for_theme("  ", &rows).unwrap(), None);
}

fn writer_request(brief: JsonValue) -> JsonValue {
    obj(vec![
        (
            "period_resolution",
            obj(vec![("included_dates", arr(vec![s("2026-06-14"), s("2026-06-15")]))]),
        ),
        ("scan_plan", obj(vec![("snapshots", arr(vec![obj(vec![("snapshot_key", s("snap:1"))])]))])),
        (
            "evidence",
            arr(vec![obj(vec![("evidence_key", s("ev:1"))]), obj(vec![("evidence_key", s("ev:2"))])]),
        ),
        ("semantic_brief", brief),
    ])
}

#[test]
fn semantic_brief_references_stay_inside_the_request() {
    let good = obj(vec![(
        "days",
        arr(vec![obj(vec![
            ("date", s("2026-06-14")),
            ("evidence_keys", arr(vec![s("ev:1"), s("ev:2")])),
            ("source_snapshot_keys", arr(vec![s("snap:1")])),
        ])]),
    )]);
    assert!(validate_semantic_brief_references_only(&writer_request(good)).is_ok());

    let outside = obj(vec![("date", s("2026-07-01"))]);
    assert_eq!(
        validate_semantic_brief_is_atomic(&writer_request(outside)).unwrap_err().detail().message,
        "HOROSCOPE_PERIOD_WRITER_REQUEST_V2_DATE_OUTSIDE_PERIOD"
    );
    let dup = obj(vec![("evidence_keys", arr(vec![s("ev:1"), s("ev:1")]))]);
    assert_eq!(
        validate_semantic_brief_is_atomic(&writer_request(dup)).unwrap_err().detail().message,
        "HOROSCOPE_PERIOD_WRITER_REQUEST_V2_DUPLICATE_REFERENCE"
    );
    let unknown = obj(vec![("source_snapshot_keys", arr(vec![s("snap:9")]))]);
    assert_eq!(
        validate_semantic_brief_is_atomic(&writer_request(unknown)).unwrap_err().detail().message,
        "HOROSCOPE_PERIOD_WRITER_REQUEST_V2_UNKNOWN_REFERENCE"
    );
    let not_text = obj(vec![("evidence_keys", arr(vec![n(1)]))]);
    assert_eq!(
        validate_semantic_brief_is_atomic(&writer_request(not_text)).unwrap_err().detail().message,
        "HOROSCOPE_PERIOD_WRITER_REQUEST_V2_INVALID_REFERENCE"
    );
}

#[test]
fn writer_request_needs_a_brief_and_distinct_evidence() {
    let no_brief = obj(vec![("evidence", arr(vec![]))]);
    assert_eq!(
        validate_semantic_brief_is_atomic(&no_brief).unwrap_err().detail().message,
        "HOROSCOPE_PERIOD_WRITER_REQUEST_INVALID"
    );
    let dup_evidence = obj(vec![
        ("semantic_brief", obj(vec![])),
        (
            "evidence",
            arr(vec![obj(vec![("evidence_key", s("ev:1"))]), obj(vec![("evidence_key", s("ev:1"))])]),
        ),
    ]);
    assert_eq!(
        validate_semantic_brief_is_atomic(&dup_evidence).unwrap_err().detail().message,
        "HOROSCOPE_PERIOD_EVIDENCE_DUPLICATE"
    );
    let no_evidence = obj(vec![("semantic_brief", obj(vec![]))]);
    assert_eq!(
        validate_semantic_brief_is_atomic(&no_evidence).unwrap_err().detail().message,
        "HOROSCOPE_PERIOD_EVIDENCE_MISSING"
    );
}
