use astral_llm_application::json::{JsonEntry, JsonValue};
use astral_llm_application::scan_plan::{require_canonical_utc_offset, scan_profile, validate_scan_plan};

fn convert(value: &serde_json::Value) -> JsonValue {
    match value {
        serde_json::Value::Null => JsonValue::Null,
        serde_json::Value::Bool(b) => JsonValue::Bool(*b),
        serde_json::Value::Number(n) => match n.as_i64() {
            Some(i) => JsonValue::Int(i),
            None => JsonValue::Decimal(n.to_string()),
        },
        serde_json::Value::String(s) => JsonValue::Str(s.clone()),
        serde_json::Value::Array(items) => JsonValue::Array(items.iter().map(convert).collect()),
        serde_json::Value::Object(map) => JsonValue::Object(
            map.iter()
                .map(|(k, v)| JsonEntry { key: k.clone(), value: convert(v) })
                .collect(),
        ),
    }
}

fn parse(text: &str) -> JsonValue {
    convert(&serde_json::from_str::<serde_json::Value>(text).unwrap())
}

fn rows() -> Vec<JsonValue> {
    match parse(
        r#"[
            {"scan_profile_code": "daily_noon_7_days", "is_enabled": false, "granularity": "off", "reference_time_local": "09:00", "expected_snapshots_per_day": 3},
            {"scan_profile_code": "daily_noon_7_days", "granularity": "daily", "reference_time_local": "12:00", "expected_snapshots_per_day": 1},
            {"scan_profile_code": "twice_daily", "granularity": "half_day", "reference_time_local": "08:00,20:00"}
        ]"#,
    ) {
        JsonValue::Array(items) => items,
        _ => panic!("not an array"),
    }
}

fn window() -> JsonValue {
    parse(
        r#"{
            "start_datetime_utc": "2026-06-08T00:00:00+00:00",
            "end_datetime_utc": "2026-06-10T00:00:00+00:00",
            "included_dates": ["2026-06-08", "2026-06-09"]
        }"#,
    )
}

fn plan(snapshots: &str, count: usize) -> JsonValue {
    parse(&format!(
        r#"{{"scan_profile_code": "daily_noon_7_days", "snapshot_count": {count}, "snapshots": {snapshots}}}"#
    ))
}

fn code(r: Result<(), astral_llm_application::error::GenerationError>) -> Option<String> {
    r.err().map(|e| e.detail().message.clone())
}

const GOOD: &str = r#"[
    {"snapshot_key": "2026-06-08:noon", "date": "2026-06-08", "reference_datetime_utc": "2026-06-08T10:00:00+00:00"},
    {"snapshot_key": "2026-06-09:noon", "date": "2026-06-09", "reference_datetime_utc": "2026-06-09T10:00:00+00:00"}
]"#;

#[test]
fn canonical_utc_instants_only() {
    assert!(require_canonical_utc_offset("2026-06-08T10:00:00+00:00").is_ok());
    let z = require_canonical_utc_offset("2026-06-08T10:00:00Z").unwrap_err();
    assert_eq!(z.detail().message, "HOROSCOPE_PERIOD_DATE_RANGE_MISMATCH");
    assert!(require_canonical_utc_offset("2026-06-08T12:00:00+02:00").is_err());
    assert!(require_canonical_utc_offset("not a date").is_err());
}

#[test]
fn scan_profile_takes_first_enabled_row() {
    let p = scan_profile(&rows(), "daily_noon_7_days").unwrap();
    assert_eq!(p.granularity, "daily");
    assert_eq!(p.reference_time_local, "12:00");
    assert_eq!(p.expected_snapshots_per_day, 1);
    let missing = scan_profile(&rows(), "twice_daily").unwrap_err();
    assert_eq!(missing.detail().message, "HOROSCOPE_PERIOD_SCAN_PLAN_INVALID");
    assert!(scan_profile(&rows(), "unknown").is_err());
}

#[test]
fn a_sound_plan_passes() {
    assert_eq!(code(validate_scan_plan(&window(), &plan(GOOD, 2), &rows())), None);
}

#[test]
fn plan_errors() {
    let spi = Some("HOROSCOPE_PERIOD_SCAN_PLAN_INVALID".to_string());
    let drm = Some("HOROSCOPE_PERIOD_DATE_RANGE_MISMATCH".to_string());
    // the stated count disagrees
    assert_eq!(code(validate_scan_plan(&window(), &plan(GOOD, 3), &rows())), spi);
    // one snapshot for two days
    let one = r#"[{"snapshot_key": "a", "date": "2026-06-08", "reference_datetime_utc": "2026-06-08T10:00:00+00:00"}]"#;
    assert_eq!(code(validate_scan_plan(&window(), &plan(one, 1), &rows())), spi);
    // a repeated key
    let twice = GOOD.replace("2026-06-09:noon", "2026-06-08:noon");
    assert_eq!(code(validate_scan_plan(&window(), &plan(&twice, 2), &rows())), spi);
    // an instant outside the window, and one at its exclusive end
    let late = GOOD.replace("2026-06-09T10:00:00+00:00", "2026-06-10T00:00:00+00:00");
    assert_eq!(code(validate_scan_plan(&window(), &plan(&late, 2), &rows())), spi);
    // an instant not written in UTC
    let zulu = GOOD.replace("2026-06-09T10:00:00+00:00", "2026-06-09T10:00:00Z");
    assert_eq!(code(validate_scan_plan(&window(), &plan(&zulu, 2), &rows())), drm);
    // an included day without a snapshot
    let same_day = GOOD.replace(r#""date": "2026-06-09""#, r#""date": "2026-06-08""#);
    assert_eq!(code(validate_scan_plan(&window(), &plan(&same_day, 2), &rows())), spi);
    // a window without a readable start
    let bad_window = parse(r#"{"start_datetime_utc": "2026-06-08", "end_datetime_utc": "2026-06-10T00:00:00+00:00", "included_dates": []}"#);
    assert_eq!(code(validate_scan_plan(&bad_window, &plan(GOOD, 2), &rows())), drm);
    // an unknown profile
    let unknown = parse(&format!(r#"{{"scan_profile_code": "nope", "snapshot_count": 2, "snapshots": {GOOD}}}"#));
    assert_eq!(code(validate_scan_plan(&window(), &unknown, &rows())), spi);
}
