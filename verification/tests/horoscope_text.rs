use astral_llm_application::error::GenerationError;
use astral_llm_application::horoscope_text::{
    first_words, free_public_text, meaningful_words, normalized_text, validate_astrological_reference,
    validate_day_overview_not_copied, validate_distinct_strings, validate_public_text_no_technical_codes,
    validate_slot_diversity, validate_slot_evidence_alignment, validate_slot_specificity,
};
use astral_llm_application::horoscope_text::{collect_evidence_keys, validate_distinct_best_for};
use astral_llm_application::json::{JsonEntry, JsonValue};

fn s(text: &str) -> JsonValue {
    JsonValue::Str(text.to_string())
}

fn arr(items: Vec<JsonValue>) -> JsonValue {
    JsonValue::Array(items)
}

fn obj(members: Vec<(&str, JsonValue)>) -> JsonValue {
    JsonValue::Object(
        members
            .into_iter()
            .map(|(key, value)| JsonEntry { key: key.to_string(), value })
            .collect(),
    )
}

fn strings(items: &[&str]) -> Vec<String> {
    items.iter().map(|x| x.to_string()).collect()
}

fn code(r: Result<(), GenerationError>) -> String {
    r.unwrap_err().detail().message.clone()
}

#[test]
fn normalisation() {
    assert_eq!(normalized_text("  L'Énergie — du JOUR !  "), "l énergie du jour");
    assert_eq!(normalized_text("Mars, Vénus; et 3 transits."), "mars vénus et 3 transits");
    assert_eq!(normalized_text("..."), "");
    assert_eq!(first_words("Le Soleil, la Lune et Mars.", 3), strings(&["le", "soleil", "la"]));
    assert_eq!(first_words("Un mot", 5), strings(&["un", "mot"]));
    assert_eq!(
        meaningful_words("Le soleil et la lune: le soleil revient avec la lune."),
        strings(&["soleil", "lune", "revient"])
    );
}

#[test]
fn slot_specificity() {
    let specific = obj(vec![("specificity", s("specific")), ("required_evidence_keys", arr(vec![s("ev:1")]))]);
    assert!(validate_slot_specificity(&specific).is_ok());
    let specific_empty = obj(vec![("specificity", s("specific")), ("required_evidence_keys", arr(vec![]))]);
    assert_eq!(code(validate_slot_specificity(&specific_empty)), "HOROSCOPE_SLOT_EVIDENCE_MISSING");
    let shared_plain = obj(vec![("specificity", s("shared")), ("required_evidence_keys", arr(vec![s("ev:1")]))]);
    assert_eq!(code(validate_slot_specificity(&shared_plain)), "HOROSCOPE_SLOT_THEME_DUPLICATED");
    let shared_toned = obj(vec![
        ("specificity", s("shared")),
        ("required_evidence_keys", arr(vec![s("ev:1")])),
        ("best_for", arr(vec![s("x")])),
    ]);
    assert!(validate_slot_specificity(&shared_toned).is_ok());
    let fallback_ok = obj(vec![
        ("specificity", s("fallback")),
        ("required_evidence_keys", arr(vec![])),
        ("fallback_reason", s("pas de transit")),
    ]);
    assert!(validate_slot_specificity(&fallback_ok).is_ok());
    let fallback_bad = obj(vec![("specificity", s("fallback")), ("required_evidence_keys", arr(vec![]))]);
    assert_eq!(code(validate_slot_specificity(&fallback_bad)), "HOROSCOPE_SLOT_FALLBACK_INVALID");
    let unknown = obj(vec![("specificity", s("other")), ("required_evidence_keys", arr(vec![]))]);
    assert_eq!(code(validate_slot_specificity(&unknown)), "HOROSCOPE_RESPONSE_INVALID");
    assert_eq!(code(validate_slot_specificity(&obj(vec![("specificity", s("specific"))]))), "HOROSCOPE_RESPONSE_INVALID");
}

#[test]
fn slot_evidence_alignment() {
    let plan = obj(vec![("required_evidence_keys", arr(vec![s("ev:1"), s("ev:2")]))]);
    assert!(validate_slot_evidence_alignment(&plan, &vec![s("ev:2"), JsonValue::Null]).is_ok());
    let err = validate_slot_evidence_alignment(&plan, &vec![s("ev:3")]).unwrap_err();
    assert_eq!(err.detail().message, "HOROSCOPE_EVIDENCE_MISMATCH");
    let fallback = obj(vec![("specificity", s("fallback"))]);
    assert!(validate_slot_evidence_alignment(&fallback, &vec![s("ev:3")]).is_ok());
}

#[test]
fn technical_codes_and_astro_reference() {
    assert!(validate_public_text_no_technical_codes("Une matinée calme, un jour utile.").is_ok());
    assert_eq!(code(validate_public_text_no_technical_codes("Le SLOT_CODE reste visible")), "HOROSCOPE_PUBLIC_SLOT_CODE_LEAK");
    assert_eq!(code(validate_public_text_no_technical_codes("Profitez du Day pour agir")), "HOROSCOPE_PUBLIC_SLOT_CODE_LEAK");
    assert!(validate_public_text_no_technical_codes("Un daybreak calme").is_ok());
    let plan = obj(vec![("specificity", s("specific"))]);
    assert!(validate_astrological_reference("morning", "La Lune éclaire la matinée.", &plan).is_ok());
    let err = validate_astrological_reference("morning", "Une matinée calme.", &plan).unwrap_err();
    assert_eq!(err.detail().message, "HOROSCOPE_SLOT_ASTRO_REFERENCE_MISSING");
    let fallback = obj(vec![("specificity", s("fallback"))]);
    assert!(validate_astrological_reference("morning", "Une matinée calme.", &fallback).is_ok());
}

#[test]
fn overview_not_copied() {
    let request = obj(vec![("day_overview", obj(vec![("summary_hint", s("  Une journée de tri. "))]))]);
    let copied = vec![obj(vec![("text", s("Ce matin : une JOURNÉE de tri, puis du calme."))])];
    assert_eq!(code(validate_day_overview_not_copied(&request, &copied)), "HOROSCOPE_SLOT_REPETITION_FAILED");
    let fresh = vec![obj(vec![("text", s("Ce matin, un rangement."))])];
    assert!(validate_day_overview_not_copied(&request, &fresh).is_ok());
    let no_hint = obj(vec![]);
    assert!(validate_day_overview_not_copied(&no_hint, &copied).is_ok());
}

#[test]
fn slot_diversity() {
    let varied = strings(&[
        "Mercure favorise les échanges précis ce matin.",
        "Vénus adoucit les relations proches après midi.",
        "Saturne structure les projets durables ce soir.",
    ]);
    assert!(validate_slot_diversity(&varied).is_ok());
    let overlapping = strings(&[
        "Mercure favorise échanges précis matin",
        "Ensuite Mercure favorise échanges précis encore",
    ]);
    assert_eq!(code(validate_slot_diversity(&overlapping)), "HOROSCOPE_SLOT_REPETITION_FAILED");
    let same_opening = strings(&["Le ciel du matin aide.", "Le ciel du soir freine."]);
    assert_eq!(code(validate_slot_diversity(&same_opening)), "HOROSCOPE_SLOT_REPETITION_FAILED");
}

#[test]
fn distinct_strings() {
    assert!(validate_distinct_strings(&strings(&["Un texte", "Un autre", "...", "!!"]), "CODE_X").is_ok());
    assert_eq!(code(validate_distinct_strings(&strings(&["Un texte.", "un TEXTE"]), "CODE_X")), "CODE_X");
}

#[test]
fn free_daily_public_text() {
    let response = obj(vec![
        ("summary", obj(vec![("title", s("Titre")), ("text", s("Texte"))])),
        ("advice", s("Conseil")),
        ("watch_point", JsonValue::Null),
    ]);
    assert_eq!(free_public_text(&response), "Titre\nTexte\nConseil\n");
}

#[test]
fn best_window_uses_must_differ_whatever_their_order() {
    let a = strings(&["Parler clairement", "Ranger"]);
    let b = strings(&["ranger", "  parler   CLAIREMENT "]);
    let c = strings(&["Ranger"]);
    assert!(validate_distinct_best_for(&[a.clone(), c.clone()]).is_ok());
    let err = validate_distinct_best_for(&[a, c, b]).unwrap_err();
    assert_eq!(err.detail.message, "HOROSCOPE_SLOT_THEME_DUPLICATED");
    assert!(validate_distinct_best_for(&[vec![], vec![]]).is_ok());
    assert!(validate_distinct_best_for(&[strings(&["x", "x"]), strings(&["x"])]).is_ok());
    assert!(validate_distinct_best_for(&[strings(&["x", "x"]), strings(&["X", "x"])]).is_err());
}

#[test]
fn evidence_keys_cited_anywhere() {
    let value = obj(vec![
        ("evidence_keys", arr(vec![s("e1"), JsonValue::Int(3), s("e2")])),
        (
            "days",
            arr(vec![
                obj(vec![("evidence_keys", arr(vec![s("e3")]))]),
                obj(vec![("nested", obj(vec![("evidence_keys", arr(vec![s("e4")]))]))]),
            ]),
        ),
        ("evidence_keys_note", s("e9")),
    ]);
    let mut out = vec!["e0".to_string()];
    collect_evidence_keys(&value, &mut out);
    assert_eq!(out, strings(&["e0", "e1", "e2", "e3", "e4"]));
    let mut none = Vec::new();
    collect_evidence_keys(&s("e1"), &mut none);
    assert!(none.is_empty());
}
