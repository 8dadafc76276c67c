use astral_llm_application::reading::{NatalReading, ReadingChapter};
use astral_llm_application::script_guard::{
    first_unexpected_french_script_char, sanitize_text_for_french_script,
    script_violations_for_reading, violations_are_script_only,
};

fn fr_reading(title: &str, body: &str) -> NatalReading {
    NatalReading {
        language: " FR ".to_string(),
        summary_title: "Résumé « clair »".to_string(),
        summary_short_text: "Texte".to_string(),
        disclaimer: "Lecture symbolique".to_string(),
        chapters: vec![ReadingChapter {
            code: "identity".to_string(),
            title: title.to_string(),
            summary_sentence: String::new(),
            body: body.to_string(),
            astro_basis_factors: vec![],
        }],
    }
}

#[test]
fn sanitizing_removes_foreign_script_and_collapses_spaces() {
    assert_eq!(
        sanitize_text_for_french_script("Bonjour  नमस्ते  à\tvous"),
        ("Bonjour à vous".to_string(), true)
    );
    assert_eq!(
        sanitize_text_for_french_script("Élan — déjà « là »"),
        ("Élan — déjà « là »".to_string(), false)
    );
    assert_eq!(sanitize_text_for_french_script(" a  b "), ("a b".to_string(), true));
}

#[test]
fn first_foreign_character_is_reported() {
    assert_eq!(first_unexpected_french_script_char("été 2026 …"), None);
    assert_eq!(first_unexpected_french_script_char("ok Ω ok"), Some('Ω'));
}

#[test]
fn french_reading_reports_each_contaminated_field() {
    let reading = fr_reading("Titre", "Corps avec 漢 dedans");
    assert_eq!(
        script_violations_for_reading(&reading.language, &reading),
        vec!["unexpected script in chapters[0].body (language=fr): '漢' U+6F22".to_string()]
    );
    let reading = fr_reading("ह", "ok");
    assert_eq!(
        script_violations_for_reading(&reading.language, &reading),
        vec!["unexpected script in chapters[0].title (language=fr): 'ह' U+0939".to_string()]
    );
}

#[test]
fn other_languages_are_not_checked() {
    let reading = fr_reading("漢", "漢");
    assert!(script_violations_for_reading("en", &reading).is_empty());
}

#[test]
fn script_only_violations() {
    assert!(!violations_are_script_only(&[]));
    assert!(violations_are_script_only(&[
        "unexpected script in summary.title (language=fr): 'x' U+0078".to_string()
    ]));
    assert!(!violations_are_script_only(&[
        "unexpected script in a".to_string(),
        "missing legal disclaimer".to_string()
    ]));
}
