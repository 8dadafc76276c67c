use astral_llm_application::json::JsonValue;
use astral_llm_application::natal_explanations::{
    explanation_limit, explanation_status, generated_cache_records, generation_language, items_from_generated,
    missing_fact_ids, natal_explanation_provider_payload, non_empty, prepare_step, GeneratedExplanations,
    PrepareAction, PrepareEvent, PreparePhase, PrepareState, reuse_cached_explanations, supported_language_code, ExplanationCacheKey,
    ExplanationCacheRecord, ExplanationCandidate, GeneratedExplanationItem, NatalExplanationItem, PROMPT_VERSION,
};

fn candidate(fact: &str, hash: &str, localized: bool) -> ExplanationCandidate {
    ExplanationCandidate {
        fact_id: fact.to_string(),
        kind_code: "placement".to_string(),
        title: format!("Titre {fact}"),
        title_is_localized: localized,
        expression_primary: None,
        cache_key: ExplanationCacheKey {
            language_code: "fr".to_string(),
            kind_code: "placement".to_string(),
            key_hash: hash.to_string(),
            key_json: JsonValue::Null,
        },
    }
}

fn record(hash: &str, title: &str, version: &str) -> ExplanationCacheRecord {
    ExplanationCacheRecord {
        language_code: "fr".to_string(),
        kind_code: "placement".to_string(),
        key_hash: hash.to_string(),
        key_json: JsonValue::Null,
        title: title.to_string(),
        explanation: format!("Explication {hash}"),
        expression_primary: None,
        provider: "openai".to_string(),
        model: "m".to_string(),
        prompt_version: version.to_string(),
    }
}

#[test]
fn languages_and_limits() {
    assert_eq!(supported_language_code("  FR "), Some("fr".to_string()));
    assert_eq!(supported_language_code("it"), None);
    assert_eq!(explanation_limit(Some("natal_light")), 6);
    assert_eq!(explanation_limit(Some("natal_basic")), 10);
    assert_eq!(explanation_limit(None), 12);
    assert_eq!(explanation_status(0, 0, 0), "unavailable");
    assert_eq!(explanation_status(2, 0, 0), "complete");
    assert_eq!(explanation_status(2, 1, 0), "partial");
    assert_eq!(explanation_status(2, 0, 1), "partial");
    assert_eq!(non_empty("  a b "), Some("a b".to_string()));
    assert_eq!(non_empty("   "), None);
}

#[test]
fn cache_reuse_rules() {
    let candidates = vec![
        candidate("sun", "h1", false),
        candidate("moon", "h2", true),
        candidate("mars", "h3", false),
        candidate("venus", "h4", true),
    ];
    let records = vec![
        record("h1", "ancien", "old_version"),
        record("h1", "Soleil", PROMPT_VERSION),
        record("h2", "Autre titre", PROMPT_VERSION),
        record("h4", " Titre venus ", PROMPT_VERSION),
    ];
    let (items, missing) = reuse_cached_explanations(&candidates, &records);
    let reused: Vec<&str> = items.iter().map(|i| i.fact_id.as_str()).collect();
    assert_eq!(reused, vec!["sun", "venus"]);
    assert_eq!(items[0].title, "Soleil");
    assert_eq!(items[0].source, "cache");
    let left: Vec<&str> = missing.iter().map(|c| c.fact_id.as_str()).collect();
    assert_eq!(left, vec!["moon", "mars"]);
}

#[test]
fn generated_answers_and_missing_facts() {
    let candidates = vec![candidate("sun", "h1", true), candidate("moon", "h2", false), candidate("mars", "h3", false)];
    let generated = vec![
        GeneratedExplanationItem { key_hash: "h1".into(), title: "X".into(), explanation: " Le soleil. ".into(), expression_primary: Some("e".into()) },
        GeneratedExplanationItem { key_hash: "h2".into(), title: "  ".into(), explanation: "La lune.".into(), expression_primary: None },
        GeneratedExplanationItem { key_hash: "h3".into(), title: "Mars".into(), explanation: "   ".into(), expression_primary: None },
    ];
    let items: Vec<NatalExplanationItem> = items_from_generated(&candidates, &generated);
    assert_eq!(items.len(), 2);
    assert_eq!(items[0].title, "Titre sun");
    assert_eq!(items[0].explanation, "Le soleil.");
    assert_eq!(items[0].expression_primary, Some("e".to_string()));
    assert_eq!(items[1].title, "Titre moon");
    assert_eq!(items[1].source, "generated");
    assert_eq!(missing_fact_ids(&candidates, &items), vec!["mars".to_string()]);
    let records = generated_cache_records(&items, &candidates, "openai", "gpt");
    assert_eq!(records.len(), 2);
    assert_eq!(records[1].key_hash, "h2");
    assert_eq!(records[1].prompt_version, PROMPT_VERSION);
    assert_eq!(generation_language(&candidates), "fr");
    assert_eq!(generation_language(&Vec::new()), "fr");
}

fn member<'a>(v: &'a JsonValue, k: &str) -> Option<&'a JsonValue> {
    match v {
        JsonValue::Object(entries) => entries.iter().find(|e| e.key == k).map(|e| &e.value),
        _ => None,
    }
}

fn text<'a>(v: &'a JsonValue, k: &str) -> Option<&'a str> {
    match member(v, k) {
        Some(JsonValue::Str(s)) => Some(s.as_str()),
        _ => None,
    }
}

#[test]
fn provider_payload_lists_each_candidate() {
    let mut axis = candidate("f2", "h2", false);
    axis.kind_code = "house_axis".to_string();
    axis.cache_key.language_code = "en".to_string();
    axis.cache_key.key_json = JsonValue::Object(vec![astral_llm_application::json::JsonEntry {
        key: "justification_signature".to_string(),
        value: JsonValue::Str("sig".to_string()),
    }]);
    axis.expression_primary = Some("expr".to_string());
    let candidates = vec![axis, candidate("f1", "h1", true)];
    let p = natal_explanation_provider_payload(&candidates);
    assert_eq!(text(&p, "language_code"), Some("en"));
    let items = match member(&p, "items") {
        Some(JsonValue::Array(items)) => items,
        _ => panic!("no items"),
    };
    assert_eq!(items.len(), 2);
    assert_eq!(text(&items[0], "fact_id"), Some("f2"));
    assert_eq!(text(&items[0], "title_source"), Some("source_fallback"));
    assert_eq!(text(&items[0], "expression_primary"), Some("expr"));
    assert_eq!(text(&items[0], "astrological_context"), Some("sig"));
    assert_eq!(text(&items[1], "title_source"), Some("localized_input"));
    assert!(matches!(member(&items[1], "expression_primary"), Some(JsonValue::Null)));
    assert!(member(&items[1], "astrological_context").is_none());
    let rules = member(&p, "rules").unwrap();
    assert_eq!(text(rules, "style"), Some("phrase courte, neutre, explicative"));
    assert!(matches!(member(rules, "max_sentences"), Some(JsonValue::Int(1))));
    let empty = natal_explanation_provider_payload(&Vec::new());
    assert_eq!(text(&empty, "language_code"), Some("fr"));
}

fn state(with_cache: bool, candidates: Vec<ExplanationCandidate>) -> PrepareState {
    PrepareState { phase: PreparePhase::Start, with_cache, candidates, items: Vec::new(), missing: Vec::new(), errors: Vec::new() }
}

fn generated_item(fact: &str) -> NatalExplanationItem {
    NatalExplanationItem {
        fact_id: fact.to_string(),
        kind_code: "placement".to_string(),
        title: format!("Titre {fact}"),
        explanation: "Une phrase.".to_string(),
        expression_primary: None,
        source: "generated".to_string(),
    }
}

#[test]
fn a_preparation_with_a_cache() {
    let s = state(true, vec![candidate("sun", "h1", false), candidate("moon", "h2", false)]);
    let (s, a) = prepare_step(s, PrepareEvent::Begin);
    assert!(matches!(a, PrepareAction::LookUp));
    assert_eq!(s.phase, PreparePhase::AwaitingLookup);
    let (s, a) = prepare_step(s, PrepareEvent::LookedUp(Ok(vec![record("h1", "Soleil", PROMPT_VERSION)])));
    assert!(matches!(a, PrepareAction::Generate));
    assert_eq!(s.items.len(), 1);
    assert_eq!(s.missing.len(), 1);
    assert_eq!(s.missing[0].fact_id, "moon");
    let g = GeneratedExplanations { items: vec![generated_item("moon")], provider: "openai".into(), model: "m".into() };
    let (s, a) = prepare_step(s, PrepareEvent::Generated(Ok(g)));
    match a {
        PrepareAction::Store(records) => {
            assert_eq!(records.len(), 1);
            assert_eq!(records[0].key_hash, "h2");
            assert_eq!(records[0].provider, "openai");
        }
        _ => panic!("expected a store"),
    }
    let (s, a) = prepare_step(s, PrepareEvent::Stored(Err("disk full".into())));
    assert_eq!(s.phase, PreparePhase::Done);
    assert_eq!(s.errors, vec!["disk full".to_string()]);
    match a {
        PrepareAction::Finish { status, missing_fact_ids } => {
            assert_eq!(status, "partial");
            assert!(missing_fact_ids.is_empty());
        }
        _ => panic!("expected an answer"),
    }
    let (_, a) = prepare_step(s, PrepareEvent::Begin);
    assert!(matches!(a, PrepareAction::Ignore));
}

#[test]
fn a_preparation_without_a_cache() {
    let (s, a) = prepare_step(state(false, vec![candidate("sun", "h1", false)]), PrepareEvent::Begin);
    assert!(matches!(a, PrepareAction::Generate));
    let (s, a) = prepare_step(s, PrepareEvent::Generated(Err("timeout".into())));
    assert_eq!(s.errors, vec!["timeout".to_string()]);
    match a {
        PrepareAction::Finish { status, missing_fact_ids } => {
            assert_eq!(status, "unavailable");
            assert_eq!(missing_fact_ids, vec!["sun".to_string()]);
        }
        _ => panic!("expected an answer"),
    }
    let (s, a) = prepare_step(state(false, Vec::new()), PrepareEvent::Begin);
    assert_eq!(s.errors, vec!["no eligible natal explanation candidates".to_string()]);
    assert!(matches!(a, PrepareAction::Finish { .. }));
    let (s, _) = prepare_step(state(false, vec![candidate("sun", "h1", false)]), PrepareEvent::Begin);
    let g = GeneratedExplanations { items: vec![generated_item("sun")], provider: "openai".into(), model: "m".into() };
    let (_, a) = prepare_step(s, PrepareEvent::Generated(Ok(g)));
    match a {
        PrepareAction::Finish { status, .. } => assert_eq!(status, "complete"),
        _ => panic!("expected an answer"),
    }
}
