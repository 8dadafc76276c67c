use astral_llm_application::json::{JsonEntry, JsonValue};
use astral_llm_application::period_payload::{
    validate_free_period_key_days_are_neutral_markers, validate_free_period_provider_public_payload,
    validate_period_provider_public_payload,
};
use astral_llm_application::service_codes::HOROSCOPE_FREE_NEXT_7_DAYS_NATAL_SERVICE_CODE;

fn s(text: &str) -> JsonValue {
    JsonValue::Str(text.to_string())
}

fn arr(items: Vec<JsonValue>) -> JsonValue {
    JsonValue::Array(items)
}

fn obj(members: Vec<(&str, JsonValue)>) -> JsonValue {
    JsonValue::Object(
        members
            .into_iter()
            .map(|(key, value)| JsonEntry { key: key.to_string(), value })
            .collect(),
    )
}

fn neutral_free_response() -> JsonValue {
    obj(vec![
        ("service_code", s(HOROSCOPE_FREE_NEXT_7_DAYS_NATAL_SERVICE_CODE)),
        (
            "summary",
            obj(vec![
                ("title", s("Vos 7 prochains jours")),
                (
                    "text",
                    s("Une tendance générale se dessine sans transformer la semaine en programme rigide."),
                ),
            ]),
        ),
        (
            "dominant_theme",
            obj(vec![
                ("theme", s("Relations")),
                ("text", s("Le climat dominant aide à prioriser les échanges utiles.")),
            ]),
        ),
        (
            "key_days",
            arr(vec![obj(vec![
                ("date", s("2026-06-14")),
                ("title", s("Point d'appui de la semaine")),
                (
                    "reason",
                    s("Ce repère aide à cadrer une décision simple sans en faire un verdict."),
                ),
                ("evidence_keys", arr(vec![s("signal:1")])),
            ])]),
        ),
        ("advice", s("Choisissez une action simple puis ajustez selon les retours.")),
        (
            "watch_summary",
            obj(vec![
                ("status", s("low")),
                ("text", s("Une vigilance légère suffit pour éviter les réactions trop rapides.")),
                ("evidence_keys", arr(vec![s("signal:1")])),
            ]),
        ),
        (
            "evidence_summary",
            arr(vec![obj(vec![
                ("date", s("2026-06-14")),
                ("evidence_key", s("signal:1")),
                ("label", s("Climat relationnel plus sensible")),
            ])]),
        ),
    ])
}

fn with_member(value: JsonValue, key: &str, member: JsonValue) -> JsonValue {
    match value {
        JsonValue::Object(mut entries) => {
            entries.retain(|e| e.key != key);
            entries.push(JsonEntry { key: key.to_string(), value: member });
            JsonValue::Object(entries)
        }
        other => other,
    }
}

fn without_member(value: JsonValue, key: &str) -> JsonValue {
    match value {
        JsonValue::Object(mut entries) => {
            entries.retain(|e| e.key != key);
            JsonValue::Object(entries)
        }
        other => other,
    }
}

fn code_of(result: Result<(), astral_llm_application::error::GenerationError>) -> String {
    result.unwrap_err().detail().message.clone()
}

#[test]
fn free_period_accepts_non_literal_key_day_title_when_marker_stays_neutral() {
    let response = neutral_free_response();
    assert!(validate_free_period_provider_public_payload(&response).is_ok());
}

#[test]
fn free_period_rejects_key_day_reason_that_is_too_thin() {
    let response = obj(vec![(
        "key_days",
        arr(vec![obj(vec![
            ("date", s("2026-06-14")),
            ("title", s("Point d'appui")),
            ("reason", s("Ralentir avant de conclure.")),
        ])]),
    )]);
    let error = validate_free_period_key_days_are_neutral_markers(&response).unwrap_err();
    assert_eq!(error.detail().message, "HOROSCOPE_PERIOD_FREE_KEY_DAY_TOO_THIN");
}

#[test]
fn free_payload_dispatch_accepts_neutral_free_reading() {
    assert!(validate_period_provider_public_payload(&neutral_free_response()).is_ok());
}

#[test]
fn free_key_day_with_recommendation_wording_is_a_best_day_leak() {
    let response = obj(vec![(
        "key_days",
        arr(vec![obj(vec![
            ("date", s("2026-06-14")),
            ("title", s("Le MEILLEUR jour")),
            ("reason", s("Une occasion de poser une décision simple avec calme et clarté.")),
        ])]),
    )]);
    let error = validate_free_period_key_days_are_neutral_markers(&response).unwrap_err();
    assert_eq!(error.detail().message, "HOROSCOPE_PERIOD_FREE_KEY_DAY_BEST_DAY_LEAK");
}

#[test]
fn free_payload_refuses_paid_sections() {
    let response = with_member(neutral_free_response(), "daily_timeline", arr(vec![]));
    assert_eq!(
        code_of(validate_free_period_provider_public_payload(&response)),
        "HOROSCOPE_PERIOD_FREE_DAILY_TIMELINE_LEAK"
    );
    let response = with_member(neutral_free_response(), "strategy", obj(vec![]));
    assert_eq!(
        code_of(validate_free_period_provider_public_payload(&response)),
        "HOROSCOPE_PERIOD_FREE_STRATEGY_LEAK"
    );
}

#[test]
fn free_payload_requires_summary_advice_and_evidence() {
    let response = without_member(neutral_free_response(), "summary");
    assert_eq!(
        code_of(validate_free_period_provider_public_payload(&response)),
        "HOROSCOPE_PERIOD_FREE_MISSING_SUMMARY"
    );
    let response = with_member(neutral_free_response(), "advice", s("   "));
    assert_eq!(
        code_of(validate_free_period_provider_public_payload(&response)),
        "HOROSCOPE_PERIOD_FREE_MISSING_ADVICE"
    );
    let response = with_member(neutral_free_response(), "evidence_summary", arr(vec![]));
    assert_eq!(
        code_of(validate_free_period_provider_public_payload(&response)),
        "HOROSCOPE_PERIOD_FREE_EVIDENCE_MISSING"
    );
}

#[test]
fn free_payload_allows_at_most_two_key_days() {
    let day = || {
        obj(vec![
            ("date", s("2026-06-14")),
            ("title", s("Point d'appui")),
            ("reason", s("Ce repère aide à cadrer une décision simple sans en faire un verdict.")),
        ])
    };
    let response = with_member(neutral_free_response(), "key_days", arr(vec![day(), day(), day()]));
    assert_eq!(
        code_of(validate_free_period_provider_public_payload(&response)),
        "HOROSCOPE_PERIOD_FREE_BEST_DAYS_LEAK"
    );
}

#[test]
fn full_payload_requires_the_week_overview() {
    let response = obj(vec![("service_code", s("horoscope_basic_next_7_days_natal"))]);
    assert_eq!(
        code_of(validate_period_provider_public_payload(&response)),
        "HOROSCOPE_PERIOD_RESPONSE_INVALID"
    );
}
