use astral_llm_application::json::{JsonEntry, JsonValue};
use astral_llm_application::period_text::{
    append_period_sentence, append_period_value_sentence, compact_period_words, ensure_period_personalization_text,
    naturalize_period_focus, non_empty_string_array_value, period_complete_sentences, period_is_weak_sentence_ending,
    period_public_day_advice, period_public_day_text, period_public_domain_text, period_public_focus_text,
    period_repetition_normalization_excluded_key, period_trim_incomplete_tail, string_array_value,
};

fn s(text: &str) -> JsonValue {
    JsonValue::Str(text.to_string())
}

fn obj(members: Vec<(&str, JsonValue)>) -> JsonValue {
    JsonValue::Object(
        members
            .into_iter()
            .map(|(key, value)| JsonEntry { key: key.to_string(), value })
            .collect(),
    )
}

fn strings(items: &[&str]) -> Vec<String> {
    items.iter().map(|x| x.to_string()).collect()
}

#[test]
fn whole_sentences() {
    assert_eq!(
        period_complete_sentences("Un début. Une question ? Oui ! Et une fin sans point"),
        strings(&["Un début.", "Une question ?", "Oui !"])
    );
    assert_eq!(period_complete_sentences(" . Deux.."), strings(&[".", "Deux.", "."]));
    assert_eq!(period_complete_sentences("rien"), Vec::<String>::new());
}

#[test]
fn weak_endings_and_tails() {
    assert!(period_is_weak_sentence_ending("et"));
    assert!(period_is_weak_sentence_ending("«Pour»"));
    assert!(period_is_weak_sentence_ending("L'"));
    assert!(!period_is_weak_sentence_ending("semaine"));
    assert_eq!(period_trim_incomplete_tail("Avancez avec calme, et pour"), "Avancez avec calme.");
    assert_eq!(period_trim_incomplete_tail("Une idée claire !"), "Une idée claire !");
    assert_eq!(period_trim_incomplete_tail("Un point ; : de"), "Un point.");
    assert_eq!(period_trim_incomplete_tail(""), ".");
}

#[test]
fn compacting_to_a_budget() {
    let text = "Première phrase courte. Deuxième phrase un peu plus longue ici. Troisième.";
    assert_eq!(compact_period_words(text, 20), text);
    assert_eq!(compact_period_words(text, 4), "Première phrase courte.");
    assert_eq!(compact_period_words(text, 10), "Première phrase courte. Deuxième phrase un peu plus longue ici.");
    assert_eq!(compact_period_words("Un très long passage sans aucun point pour la fin", 5), "Un très long passage.");
    assert_eq!(compact_period_words("Phrase beaucoup trop longue pour tenir. Fin.", 2), "Phrase beaucoup.");
}

#[test]
fn appending_a_sentence_once() {
    let mut text = "Une base".to_string();
    append_period_sentence(&mut text, "  Un ajout.  ");
    assert_eq!(text, "Une base Un ajout.");
    append_period_sentence(&mut text, "Un ajout.");
    assert_eq!(text, "Une base Un ajout.");
    append_period_sentence(&mut text, "   ");
    assert_eq!(text, "Une base Un ajout.");
    let mut spaced = "Fin ".to_string();
    append_period_sentence(&mut spaced, "Suite.");
    assert_eq!(spaced, "Fin Suite.");
    let mut empty = String::new();
    append_period_sentence(&mut empty, "Seule.");
    assert_eq!(empty, "Seule.");
    let mut value = s("Texte.");
    append_period_value_sentence(&mut value, "Ajout.");
    assert!(matches!(&value, JsonValue::Str(t) if t == "Texte. Ajout."));
    let mut number = JsonValue::Int(3);
    append_period_value_sentence(&mut number, "Ajout.");
    assert!(matches!(number, JsonValue::Int(3)));
}

#[test]
fn texts_of_a_day() {
    let day = obj(vec![("text", s("T")), ("advice", s("A")), ("focus", s("F"))]);
    assert_eq!(period_public_day_text(&day, 4), "T");
    assert_eq!(period_public_day_advice(&day), "A");
    assert_eq!(period_public_focus_text(&day), "F");
    assert_eq!(period_public_domain_text(&obj(vec![])), "");
    assert_eq!(naturalize_period_focus("garder le cap"), "garder le cap");
    assert_eq!(ensure_period_personalization_text(" Base ", "  Perso "), "Base Perso");
    assert_eq!(ensure_period_personalization_text("   ", " Perso "), "Perso");
    assert_eq!(ensure_period_personalization_text(" Base", ""), "Base");
    assert_eq!(ensure_period_personalization_text(" ", ""), "");
}

#[test]
fn string_arrays_and_excluded_keys() {
    let value = JsonValue::Array(vec![s("a"), s("  "), JsonValue::Int(1), s("b")]);
    match string_array_value(Some(&value)) {
        Some(JsonValue::Array(items)) => {
            assert_eq!(items.len(), 2);
            assert!(matches!(&items[1], JsonValue::Str(t) if t == "b"));
        }
        _ => panic!("array expected"),
    }
    assert!(string_array_value(Some(&s("x"))).is_none());
    assert!(string_array_value(None).is_none());
    assert!(non_empty_string_array_value(Some(&JsonValue::Array(vec![s(" ")]))).is_none());
    assert!(non_empty_string_array_value(Some(&value)).is_some());
    assert!(period_repetition_normalization_excluded_key(Some("evidence_keys")));
    assert!(period_repetition_normalization_excluded_key(Some("period_contract")));
    assert!(!period_repetition_normalization_excluded_key(Some("text")));
    assert!(!period_repetition_normalization_excluded_key(None));
}
