use astral_llm_application::error::GenerationError;
use astral_llm_application::json::{JsonEntry, JsonValue};
use astral_llm_application::period_validators::{
    is_period_major_aspect, period_editorial_meta_forbidden_terms, validate_free_period_not_too_generic,
    validate_free_period_response_evidence, validate_period_day_markers, validate_period_premium_detail,
    validate_period_premium_public_not_meta, validate_period_watch_windows_not_meta,
};

fn s(text: &str) -> JsonValue {
    JsonValue::Str(text.to_string())
}

fn n(v: i64) -> JsonValue {
    JsonValue::Int(v)
}

fn arr(items: Vec<JsonValue>) -> JsonValue {
    JsonValue::Array(items)
}

fn obj(members: Vec<(&str, JsonValue)>) -> JsonValue {
    JsonValue::Object(
        members
            .into_iter()
            .map(|(key, value)| JsonEntry { key: key.to_string(), value })
            .collect(),
    )
}

fn strings(items: &[&str]) -> Vec<String> {
    items.iter().map(|x| x.to_string()).collect()
}

fn code(r: Result<(), GenerationError>) -> String {
    r.unwrap_err().detail().message.clone()
}

const DATES: [&str; 7] = [
    "2026-06-08", "2026-06-09", "2026-06-10", "2026-06-11", "2026-06-12", "2026-06-13", "2026-06-14",
];

fn marker(date: &str, keys: Vec<&str>) -> JsonValue {
    obj(vec![
        ("date", s(date)),
        ("reason", s("Un repère utile.")),
        ("evidence_keys", arr(keys.into_iter().map(s).collect())),
    ])
}

#[test]
fn day_markers_accept_known_dates_and_evidence() {
    let response = obj(vec![("key_days", arr(vec![marker("2026-06-08", vec!["ev:1"]), marker("2026-06-09", vec!["ev:2"])]))]);
    let included = strings(&DATES);
    let evidence = strings(&["ev:1", "ev:2"]);
    assert!(validate_period_day_markers(&response, "key_days", &included, &evidence).is_ok());
    assert!(validate_period_day_markers(&response, "best_days", &included, &evidence).is_ok());
}

#[test]
fn day_markers_refusals() {
    let included = strings(&DATES);
    let evidence = strings(&["ev:1"]);
    let dup = obj(vec![("key_days", arr(vec![marker("2026-06-08", vec!["ev:1"]), marker("2026-06-08", vec!["ev:1"])]))]);
    assert_eq!(code(validate_period_day_markers(&dup, "key_days", &included, &evidence)), "HOROSCOPE_PERIOD_DUPLICATE_DAY_MARKER");
    let outside = obj(vec![("key_days", arr(vec![marker("2026-07-01", vec!["ev:1"])]))]);
    assert_eq!(code(validate_period_day_markers(&outside, "key_days", &included, &evidence)), "HOROSCOPE_PERIOD_DATE_RANGE_MISMATCH");
    let undated = obj(vec![("key_days", arr(vec![obj(vec![("title", s("x"))])]))]);
    assert_eq!(code(validate_period_day_markers(&undated, "key_days", &included, &evidence)), "HOROSCOPE_PERIOD_KEY_DAYS_MISSING");
    let blank_fallback = obj(vec![(
        "key_days",
        arr(vec![obj(vec![("date", s("2026-06-08")), ("fallback_reason", s("  ")), ("evidence_keys", arr(vec![s("ev:1")]))])]),
    )]);
    assert_eq!(code(validate_period_day_markers(&blank_fallback, "key_days", &included, &evidence)), "HOROSCOPE_PERIOD_EVIDENCE_MISSING");
    let mechanical = obj(vec![(
        "best_days",
        arr(vec![obj(vec![
            ("date", s("2026-06-08")),
            ("reason", s("Vérifiez AVANT DE PROMETTRE DAVANTAGE.")),
            ("evidence_keys", arr(vec![s("ev:1")])),
        ])]),
    )]);
    assert_eq!(code(validate_period_day_markers(&mechanical, "best_days", &included, &evidence)), "HOROSCOPE_PERIOD_MECHANICAL_PUBLIC_TEXT");
    let renamed = obj(vec![("key_days", arr(vec![obj(vec![
        ("date", s("2026-06-08")),
        ("reason", s("Vérifiez avant de promettre davantage.")),
        ("evidence_keys", arr(vec![s("ev:1")])),
    ])]))]);
    assert!(validate_period_day_markers(&renamed, "key_days", &included, &evidence).is_ok());
    let unknown = obj(vec![("key_days", arr(vec![marker("2026-06-08", vec!["ev:9"])]))]);
    assert_eq!(code(validate_period_day_markers(&unknown, "key_days", &included, &evidence)), "HOROSCOPE_PERIOD_EVIDENCE_MISSING");
    let keyless = obj(vec![("key_days", arr(vec![obj(vec![("date", s("2026-06-08"))])]))]);
    assert_eq!(code(validate_period_day_markers(&keyless, "key_days", &included, &evidence)), "HOROSCOPE_PERIOD_EVIDENCE_MISSING");
}

#[test]
fn free_reading_needs_a_specific_anchor() {
    let anchored = obj(vec![("summary", obj(vec![("text", s("La LUNE éclaire la semaine."))]))]);
    assert!(validate_free_period_not_too_generic(&anchored).is_ok());
    let advice_only = obj(vec![("advice", s("Gardez une routine simple."))]);
    assert!(validate_free_period_not_too_generic(&advice_only).is_ok());
    let generic = obj(vec![("summary", obj(vec![("text", s("Une semaine à vivre pas à pas."))]))]);
    assert_eq!(code(validate_free_period_not_too_generic(&generic)), "HOROSCOPE_PERIOD_FREE_TOO_GENERIC");
}

#[test]
fn editorial_meta_terms_stay_out_of_public_text() {
    assert_eq!(period_editorial_meta_forbidden_terms().len(), 6);
    assert!(validate_period_premium_public_not_meta("Un texte sobre.").is_ok());
    let err = validate_period_premium_public_not_meta("Une NOUVELLE FACETTE apparaît.").unwrap_err();
    assert_eq!(err.detail().message, "HOROSCOPE_PERIOD_PREMIUM_PUBLIC_META_LEAK");
    let windows = vec![obj(vec![("title", s("Ralentir")), ("watch_point", s("Changer l'usage du temps"))])];
    assert_eq!(code(validate_period_watch_windows_not_meta(&windows)), "HOROSCOPE_PERIOD_PREMIUM_WINDOW_META_LEAK");
    let clean = vec![obj(vec![("title", s("Ralentir")), ("watch_point", s("Garder une marge"))])];
    assert!(validate_period_watch_windows_not_meta(&clean).is_ok());
}

fn premium_response(advice: &str) -> JsonValue {
    obj(vec![
        ("best_windows", arr(vec![obj(vec![])])),
        ("strategy", obj(vec![("text", s("Une stratégie claire."))])),
        ("domain_sections", arr(vec![obj(vec![]), obj(vec![]), obj(vec![])])),
        ("daily_timeline", arr((0..7).map(|_| obj(vec![])).collect())),
        ("evidence_summary", arr(vec![obj(vec![])])),
        ("advice", obj(vec![("main", s(advice))])),
    ])
}

#[test]
fn premium_detail_and_explicit_dates() {
    assert!(validate_period_premium_detail(&premium_response("Avancez pas à pas.")).is_ok());
    assert_eq!(
        code(validate_period_premium_detail(&premium_response("Rendez-vous le 12/06 pour agir."))),
        "HOROSCOPE_PERIOD_PREMIUM_ADVICE_RECALENDARIZED"
    );
    assert_eq!(code(validate_period_premium_detail(&obj(vec![]))), "HOROSCOPE_PERIOD_PREMIUM_INSUFFICIENT_DETAIL");
}

#[test]
fn major_aspects() {
    assert!(is_period_major_aspect("trine"));
    assert!(is_period_major_aspect("opposition"));
    assert!(!is_period_major_aspect("quincunx"));
}

fn profile_rows() -> Vec<JsonValue> {
    vec![obj(vec![
        ("detail_profile_code", s("basic_standard")),
        ("target_words_min", n(20)),
        ("target_words_max", n(60)),
        ("hard_limit_words", n(80)),
    ])]
}

fn free_request() -> JsonValue {
    obj(vec![
        ("service_code", s("horoscope_free_next_7_days_natal")),
        ("period_resolution", obj(vec![("included_dates", arr(DATES.iter().map(|d| s(d)).collect()))])),
        ("evidence", arr(vec![obj(vec![("evidence_key", s("signal:1"))])])),
    ])
}

fn free_response(summary_text: &str) -> JsonValue {
    obj(vec![
        ("service_code", s("horoscope_free_next_7_days_natal")),
        ("summary", obj(vec![("title", s("Vos 7 prochains jours")), ("text", s(summary_text))])),
        (
            "dominant_theme",
            obj(vec![("theme", s("Relations")), ("text", s("Le climat dominant aide à prioriser les échanges utiles."))]),
        ),
        (
            "key_days",
            arr(vec![obj(vec![
                ("date", s("2026-06-14")),
                ("title", s("Point d'appui de la semaine")),
                ("reason", s("Ce repère aide à cadrer une décision simple sans en faire un verdict.")),
                ("evidence_keys", arr(vec![s("signal:1")])),
            ])]),
        ),
        ("advice", s("Choisissez une action simple puis ajustez selon les retours.")),
        (
            "watch_summary",
            obj(vec![
                ("status", s("low")),
                ("text", s("Une vigilance légère suffit pour éviter les réactions trop rapides.")),
                ("evidence_keys", arr(vec![s("signal:1")])),
            ]),
        ),
        (
            "evidence_summary",
            arr(vec![obj(vec![
                ("date", s("2026-06-14")),
                ("evidence_key", s("signal:1")),
                ("label", s("Climat relationnel plus sensible")),
            ])]),
        ),
    ])
}

const PUBLIC: &str = "Une tendance générale se dessine autour des relations et de la clarté, avec des échanges utiles et des décisions simples à poser au fil des jours.";

#[test]
fn free_reading_against_its_request() {
    let rows = profile_rows();
    let request = free_request();
    let ok = free_response("La lune soutient les relations cette semaine.");
    assert!(validate_free_period_response_evidence(&request, &ok, &rows, PUBLIC, Ok(())).is_ok());
    let verdict = Err(astral_llm_application::error::horoscope_error("HOROSCOPE_PERIOD_PUBLIC_TEXT_INVALID"));
    assert_eq!(
        code(validate_free_period_response_evidence(&request, &ok, &rows, PUBLIC, verdict)),
        "HOROSCOPE_PERIOD_PUBLIC_TEXT_INVALID"
    );
    assert_eq!(
        code(validate_free_period_response_evidence(&request, &ok, &rows, "Trop court.", Ok(()))),
        "HOROSCOPE_PERIOD_FREE_TOO_SHORT"
    );
    let dated = free_response("La lune aide le 08/06, le 10/06 puis le 12/06.");
    assert_eq!(
        code(validate_free_period_response_evidence(&request, &dated, &rows, PUBLIC, Ok(()))),
        "HOROSCOPE_PERIOD_FREE_SUMMARY_TOO_MANY_EXPLICIT_DATES"
    );
    let short_period = obj(vec![
        ("service_code", s("horoscope_free_next_7_days_natal")),
        ("period_resolution", obj(vec![("included_dates", arr(vec![s("2026-06-14")]))])),
    ]);
    assert_eq!(
        code(validate_free_period_response_evidence(&short_period, &ok, &rows, PUBLIC, Ok(()))),
        "HOROSCOPE_PERIOD_DATE_RANGE_MISMATCH"
    );
}
