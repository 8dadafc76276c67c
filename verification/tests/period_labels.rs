use astral_llm_application::json::{JsonEntry, JsonValue};
use astral_llm_application::period_labels::{
    find_last_row, period_best_day_title, period_domain_title, period_natal_focus, period_natal_focus_code,
    period_object_public_label, period_public_theme_field, period_theme_public_label,
    period_theme_public_label_if_code, period_tone_public_label, period_tone_public_label_if_code,
    period_watch_window_point, period_watch_window_title, public_day_label,
};

fn s(text: &str) -> JsonValue {
    JsonValue::Str(text.to_string())
}

fn obj(members: Vec<(&str, JsonValue)>) -> JsonValue {
    JsonValue::Object(
        members
            .into_iter()
            .map(|(key, value)| JsonEntry { key: key.to_string(), value })
            .collect(),
    )
}

fn theme_rows() -> Vec<JsonValue> {
    vec![
        obj(vec![
            ("theme_code", s("love")),
            ("public_label", s("Amour ancien")),
            ("domain_title", s("Vie affective")),
        ]),
        obj(vec![("theme_code", s("love")), ("public_label", s("Amour"))]),
        obj(vec![
            ("theme_code", s("organization")),
            ("public_label", s("Organisation")),
            ("best_day_title", s("Jour pour s'organiser")),
            ("is_enabled", JsonValue::Bool(true)),
        ]),
        obj(vec![
            ("theme_code", s("work")),
            ("public_label", s("Travail caché")),
            ("is_enabled", JsonValue::Bool(false)),
        ]),
        obj(vec![("theme_code", s("default")), ("watch_window_title", s("Prudence"))]),
    ]
}

fn tone_rows() -> Vec<JsonValue> {
    vec![
        obj(vec![("tone_code", s("calm")), ("label_fr", s("apaisé"))]),
        obj(vec![("tone_code", s("bold")), ("label_fr", s("audacieux")), ("is_active", JsonValue::Bool(false))]),
        obj(vec![("tone_code", s("warm"))]),
    ]
}

#[test]
fn later_theme_rows_replace_earlier_ones() {
    let rows = theme_rows();
    assert_eq!(period_theme_public_label("love", &rows), "Amour");
    // The last row for "love" has no domain title: the default row has none either.
    assert_eq!(period_domain_title("love", &rows), "love");
    assert_eq!(period_public_theme_field("love", "domain_focus", "repli", &rows), "repli");
}

#[test]
fn routine_reads_the_organization_row() {
    let rows = theme_rows();
    assert_eq!(period_theme_public_label("routine", &rows), "Organisation");
    assert_eq!(period_best_day_title("routine", &rows), "Jour pour s'organiser");
    assert_eq!(period_theme_public_label_if_code("routine", &rows), "Organisation");
}

#[test]
fn disabled_or_unknown_themes_fall_back_to_the_default_row() {
    let rows = theme_rows();
    assert_eq!(period_watch_window_title("work", "08:00", &rows), "Prudence");
    assert_eq!(period_theme_public_label("work", &rows), "work");
    assert_eq!(period_best_day_title("unknown", &rows), "Jour favorable");
    assert_eq!(
        period_watch_window_point("unknown", &rows),
        "Gardez une marge avant de transformer l'impression en décision définitive."
    );
    assert_eq!(period_theme_public_label_if_code("work", &rows), "work");
    assert_eq!(period_theme_public_label_if_code("Amour", &rows), "Amour");
}

#[test]
fn fields_outside_the_theme_table_are_never_read() {
    let rows = vec![obj(vec![("theme_code", s("love")), ("theme_code_extra", s("x"))])];
    assert_eq!(period_public_theme_field("love", "theme_code_extra", "repli", &rows), "repli");
}

#[test]
fn tone_labels() {
    let rows = tone_rows();
    assert_eq!(period_tone_public_label("calm", &rows), "apaisé");
    assert_eq!(period_tone_public_label("bold", &rows), "bold");
    assert_eq!(period_tone_public_label("warm", &rows), "warm");
    assert_eq!(period_tone_public_label_if_code("  CALM ", &rows), "apaisé");
    assert_eq!(period_tone_public_label_if_code(" Apaisé ", &rows), "apaisé");
    assert_eq!(period_tone_public_label_if_code("Audacieux", &rows), "Audacieux");
    assert_eq!(period_tone_public_label_if_code("   ", &rows), "   ");
    assert_eq!(period_tone_public_label_if_code("Serein", &rows), "Serein");
}

#[test]
fn natal_focus_labels() {
    let rows = vec![
        obj(vec![("focus_code", s("natal_house_5")), ("label_fr", s("Maison V")), ("hint_fr", s("créativité"))]),
        obj(vec![("focus_code", s("natal_house_7")), ("label_fr", s("Maison VII"))]),
    ];
    let five = period_natal_focus("natal_house_5", &rows);
    assert_eq!(five.label, "Maison V");
    assert_eq!(five.hint, "créativité");
    let seven = period_natal_focus("natal_house_7", &rows);
    assert_eq!(seven.label, "natal_house_7");
    assert_eq!(seven.hint, "");
}

#[test]
fn natal_focus_codes() {
    assert_eq!(period_natal_focus_code(&obj(vec![("natal_target", s("venus"))])), "venus");
    assert_eq!(
        period_natal_focus_code(&obj(vec![("natal_target", s("  ")), ("natal_house", JsonValue::Int(5))])),
        "natal_house_5"
    );
    assert_eq!(period_natal_focus_code(&obj(vec![("natal_house", JsonValue::Int(12))])), "natal_house_12");
    assert_eq!(period_natal_focus_code(&obj(vec![("natal_house", JsonValue::Int(13))])), "natal_house_6");
    assert_eq!(period_natal_focus_code(&obj(vec![])), "natal_house_6");
}

#[test]
fn planet_names() {
    assert_eq!(period_object_public_label("sun"), "le Soleil");
    assert_eq!(period_object_public_label("venus"), "Vénus");
    assert_eq!(period_object_public_label("saturn"), "Saturne");
    assert_eq!(period_object_public_label("pluto"), "pluto");
}

#[test]
fn day_labels() {
    assert_eq!(public_day_label("2026-06-08"), "Lundi 08/06");
    assert_eq!(public_day_label("2026-06-14"), "Dimanche 14/06");
    assert_eq!(public_day_label("2025-12-25"), "Jeudi 25/12");
    assert_eq!(public_day_label("2026-02-30"), "2026-02-30");
    assert_eq!(public_day_label("demain"), "demain");
}

#[test]
fn the_last_matching_row_is_found() {
    let rows = theme_rows();
    let found = find_last_row(&rows, "is_enabled", "theme_code", "love", &[]).unwrap();
    assert_eq!(found.field_str("public_label"), Some("Amour"));
    let with_title = find_last_row(&rows, "is_enabled", "theme_code", "love", &["domain_title"]).unwrap();
    assert_eq!(with_title.field_str("public_label"), Some("Amour ancien"));
    assert!(find_last_row(&rows, "is_enabled", "theme_code", "work", &[]).is_none());
}
