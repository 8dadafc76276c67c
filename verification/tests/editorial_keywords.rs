use astral_llm_application::json::{JsonEntry, JsonValue};
use astral_llm_application::keywords::{
    dominant_keywords_v2, dominant_tone_codes_v2, non_empty_keywords, period_arc_keywords_v2, period_keywords_for_fact,
    sort_dedup, text_less, unique_event_strings, unique_keywords, unique_string_values_from_iter,
};
use astral_llm_application::period_editorial::{
    build_period_editorial_arc_v2, is_period_best_candidate, is_period_watch_event, period_best_marker_public_use,
    period_best_window_best_for, period_best_window_reason, period_best_window_title, period_editorial_angle_v2,
    period_editorial_repetition_hint_v2, period_editorial_theme_key, period_internal_tone, period_role_hint,
};

fn s(text: &str) -> JsonValue {
    JsonValue::Str(text.to_string())
}

fn arr(items: Vec<JsonValue>) -> JsonValue {
    JsonValue::Array(items)
}

fn obj(members: Vec<(&str, JsonValue)>) -> JsonValue {
    JsonValue::Object(
        members
            .into_iter()
            .map(|(key, value)| JsonEntry { key: key.to_string(), value })
            .collect(),
    )
}

fn strings(items: &[&str]) -> Vec<String> {
    items.iter().map(|x| x.to_string()).collect()
}

fn field<'a>(v: &'a JsonValue, key: &str) -> Option<&'a JsonValue> {
    match v {
        JsonValue::Object(es) => es.iter().find(|e| e.key == key).map(|e| &e.value),
        _ => None,
    }
}

fn text_of<'a>(v: &'a JsonValue, key: &str) -> Option<&'a str> {
    match field(v, key) {
        Some(JsonValue::Str(t)) => Some(t.as_str()),
        _ => None,
    }
}

#[test]
fn window_titles_reasons_and_uses() {
    assert_eq!(period_best_window_title("relationship", "06:00"), "Ouvrir un échange utile");
    assert_eq!(period_best_window_title("energy", "18:00"), "Transformer l'élan en décision");
    assert_eq!(period_best_window_title("organization", "12:00"), "Stabiliser une décision utile");
    assert_eq!(period_best_window_title("routine", "00:00"), "Reprendre l'initiative personnelle");
    assert_eq!(
        period_best_window_reason("clarity"),
        "À privilégier pour choisir entre deux options, clarifier une preuve ou mettre une priorité au net."
    );
    assert_eq!(
        period_best_window_reason("other"),
        "À utiliser pour confirmer une ressource, fermer une tâche pratique ou poser une preuve simple."
    );
    assert_eq!(
        period_best_window_best_for("communication", "12:00"),
        vec!["ajuster une réponse", "tenir un échange précis", "réduire les explications inutiles"]
    );
    assert_eq!(
        period_best_window_best_for("unknown", "18:00"),
        vec!["retrouver une impulsion créative", "assouplir une décision", "préserver un élan durable"]
    );
    assert_eq!(
        period_best_marker_public_use("energy"),
        "transformer l'élan en action courte sans brusquer le rythme"
    );
}

#[test]
fn tones_and_candidates() {
    assert_eq!(period_internal_tone("relationship", "transit_active", Some("square")), "careful");
    assert_eq!(period_internal_tone("energy", "transit_active", Some("sextile")), "supportive");
    assert_eq!(period_internal_tone("energy", "transit_active", Some("conjunction")), "active");
    assert_eq!(period_internal_tone("relationship", "moon_house_by_day", None), "supportive");
    assert_eq!(period_internal_tone("communication", "moon_house_by_day", Some("quincunx")), "active");
    assert_eq!(period_internal_tone("integration", "x", None), "mixed");
    assert_eq!(period_internal_tone("routine", "x", None), "focused");
    let watch = obj(vec![("aspect", s("opposition"))]);
    assert!(is_period_watch_event(&watch));
    assert!(!is_period_best_candidate(&watch));
    let careful = obj(vec![("tone", s("careful"))]);
    assert!(is_period_watch_event(&careful));
    let twelfth = obj(vec![("tone", s("supportive")), ("natal_house", JsonValue::Int(12))]);
    assert!(!is_period_watch_event(&twelfth));
    assert!(!is_period_best_candidate(&twelfth));
    let fifth = obj(vec![("tone", s("supportive")), ("natal_house", JsonValue::Int(5))]);
    assert!(is_period_best_candidate(&fifth));
}

#[test]
fn roles_arc_and_angles() {
    assert_eq!(period_role_hint(0), "entry");
    assert_eq!(period_role_hint(2), "development");
    assert_eq!(period_role_hint(3), "pivot");
    assert_eq!(period_role_hint(5), "integration");
    assert_eq!(period_role_hint(6), "closure");
    assert_eq!(period_editorial_theme_key("routine"), "organization");
    assert_eq!(period_editorial_theme_key("energy"), "energy");
    let arc = build_period_editorial_arc_v2(&["2026-06-08", "2026-06-09", "2026-06-10", "2026-06-11"]);
    assert_eq!(text_of(&arc, "purpose"), Some("Donner une trajectoire lisible: ouverture, pivot, consolidation, clôture."));
    match field(&arc, "days") {
        Some(JsonValue::Array(days)) => {
            assert_eq!(days.len(), 4);
            assert_eq!(text_of(&days[0], "phase"), Some("ouverture"));
            assert_eq!(text_of(&days[2], "phase"), Some("mise_en_mouvement"));
            assert_eq!(text_of(&days[3], "date"), Some("2026-06-11"));
            assert_eq!(text_of(&days[3], "editorial_function"), Some("changer de rythme et trier ce qui mérite d'être gardé"));
        }
        _ => panic!("days missing"),
    }
    let mut used: Vec<String> = Vec::new();
    assert_eq!(
        period_editorial_angle_v2("energy", 0, &mut used),
        ("action", "transformer l'élan en geste court et réversible")
    );
    assert_eq!(period_editorial_angle_v2("energy", 3, &mut used), ("pivot", "changer de rythme et sélectionner l'essentiel"));
    assert_eq!(used, strings(&["action", "pivot"]));
    assert_eq!(period_editorial_angle_v2("routine", 6, &mut used).0, "organisation");
    assert_eq!(
        period_editorial_repetition_hint_v2("routine"),
        "Varier organisation: cadre, ressource, routine, service, visibilité."
    );
}

#[test]
fn text_order_and_sorted_sets() {
    assert!(text_less("abc", "abd"));
    assert!(text_less("ab", "abc"));
    assert!(!text_less("abc", "ab"));
    assert!(!text_less("same", "same"));
    assert!(text_less("Zeta", "alpha"));
    assert!(text_less("e", "é"));
    let sorted = sort_dedup(&strings(&["mars", "lune", "mars", "aspect", "lune"]));
    assert_eq!(sorted, strings(&["aspect", "lune", "mars"]));
}

#[test]
fn first_occurrences_up_to_a_limit() {
    assert_eq!(unique_string_values_from_iter(&["a", " ", "b", "a", "c"], 2), strings(&["a", "b"]));
    assert_eq!(unique_string_values_from_iter(&["a", " ", "b", "a", "c"], 9), strings(&["a", "b", "c"]));
    assert_eq!(unique_keywords(strings(&["", "x", "x", "y"]), 5), strings(&["x", "y"]));
    assert_eq!(unique_keywords(strings(&["  "]), 5), strings(&["weekly_signal"]));
    let events = vec![
        obj(vec![("tone", s("careful")), ("theme_code", s("energy")), ("fact_type", s("transit_active"))]),
        obj(vec![("tone", s("careful")), ("theme_code", s("clarity"))]),
        obj(vec![("tone", s("supportive")), ("theme_code", s("energy")), ("fact_type", s("moon_house_by_day"))]),
    ];
    assert_eq!(unique_event_strings(&events, "tone", 5), strings(&["careful", "supportive"]));
    assert_eq!(unique_event_strings(&events, "tone", 1), strings(&["careful"]));
    assert_eq!(dominant_tone_codes_v2(&events, 3), strings(&["careful", "supportive"]));
    assert_eq!(dominant_tone_codes_v2(&Vec::new(), 3), strings(&["focused"]));
    assert_eq!(
        period_arc_keywords_v2(&events, 3),
        strings(&["energy", "clarity", "transit_active"])
    );
}

#[test]
fn keywords_of_an_event() {
    let event = obj(vec![
        ("tone", s(" careful ")),
        ("theme_code", s("energy")),
        ("aspect", s("square")),
        ("natal_target", s("  ")),
        ("transiting_object", s("mars")),
        ("tone_code", s("careful")),
    ]);
    assert_eq!(period_keywords_for_fact(&event), strings(&["careful", "energy", "mars", "square"]));
    let events = vec![event, obj(vec![("theme_code", s("clarity")), ("tone", s("energy"))])];
    assert_eq!(dominant_keywords_v2(&events, 10), strings(&["careful", "energy", "mars", "square", "clarity"]));
    assert_eq!(
        non_empty_keywords(strings(&["b", " ", "a", "b"]), &strings(&["fallback"])),
        strings(&["a", "b"])
    );
    assert_eq!(non_empty_keywords(strings(&[" "]), &strings(&["fallback", "other"])), strings(&["fallback"]));
    assert_eq!(non_empty_keywords(Vec::new(), &Vec::new()), Vec::<String>::new());
}
