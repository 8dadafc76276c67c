//! The editorial tables of a seven-day reading: window titles, reasons and uses, the tone of an
//! event, the roles and angles of the days, and which events are watch or best candidates.
use vstd::prelude::*;

use crate::json::{JsonEntry, JsonValue, field_str, json_at, json_get, json_int};
use crate::period_payload::views;
use crate::text::{str_equal, string_views};

verus! {

// ---------------------------------------------------------------------------------------------
// Themes
// ---------------------------------------------------------------------------------------------

/// The editorial key of a theme: `routine` is filed under `organization`.
pub open spec fn editorial_theme_key(theme: Seq<char>) -> Seq<char> {
    if theme == "routine"@ {
        "organization"@
    } else {
        theme
    }
}

/// The editorial key of a theme.
pub fn period_editorial_theme_key(theme: &str) -> (r: &str)
    ensures
        r@ == editorial_theme_key(theme@),
{
    if str_equal(theme, "routine") {
        "organization"
    } else {
        theme
    }
}

// ---------------------------------------------------------------------------------------------
// Best windows
// ---------------------------------------------------------------------------------------------

/// The title of a best window, by theme and starting hour.
pub open spec fn best_window_title(theme: Seq<char>, start: Seq<char>) -> Seq<char> {
    if theme == "relationship"@ {
        if start == "00:00"@ { "Apaiser une attente personnelle"@ }
        else if start == "06:00"@ { "Ouvrir un échange utile"@ }
        else if start == "12:00"@ { "Clarifier une attente relationnelle"@ }
        else { "Retrouver une fluidité relationnelle"@ }
    } else if theme == "energy"@ {
        if start == "00:00"@ { "Relancer l'élan sans brusquer"@ }
        else if start == "06:00"@ { "Passer à l'action courte"@ }
        else if start == "12:00"@ { "Canaliser l'énergie disponible"@ }
        else { "Transformer l'élan en décision"@ }
    } else if theme == "communication"@ {
        if start == "00:00"@ { "Préparer une parole nette"@ }
        else if start == "06:00"@ { "Formuler le message essentiel"@ }
        else if start == "12:00"@ { "Mettre les mots au bon endroit"@ }
        else { "Répondre avec plus de précision"@ }
    } else if theme == "clarity"@ {
        if start == "00:00"@ { "Reprendre l'initiative personnelle"@ }
        else if start == "06:00"@ { "Clarifier le cap visible"@ }
        else if start == "12:00"@ { "Choisir une suite simple"@ }
        else { "Retrouver une impulsion créative"@ }
    } else if theme == "integration"@ {
        if start == "00:00"@ { "Stabiliser une base intérieure"@ }
        else if start == "06:00"@ { "Consolider ce qui doit durer"@ }
        else if start == "12:00"@ { "Relier les décisions au cadre"@ }
        else { "Préparer une suite plus stable"@ }
    } else {
        if start == "00:00"@ { "Reprendre l'initiative personnelle"@ }
        else if start == "06:00"@ { "Clarifier le cap visible"@ }
        else if start == "12:00"@ { "Stabiliser une décision utile"@ }
        else { "Retrouver une impulsion créative"@ }
    }
}

/// The title of a best window, by theme and starting hour.
pub fn period_best_window_title(theme: &str, start_label: &str) -> (r: &'static str)
    ensures
        r@ == best_window_title(theme@, start_label@),
{
    let s0 = str_equal(start_label, "00:00");
    let s6 = str_equal(start_label, "06:00");
    let s12 = str_equal(start_label, "12:00");
    if str_equal(theme, "relationship") {
        if s0 { "Apaiser une attente personnelle" }
        else if s6 { "Ouvrir un échange utile" }
        else if s12 { "Clarifier une attente relationnelle" }
        else { "Retrouver une fluidité relationnelle" }
    } else if str_equal(theme, "energy") {
        if s0 { "Relancer l'élan sans brusquer" }
        else if s6 { "Passer à l'action courte" }
        else if s12 { "Canaliser l'énergie disponible" }
        else { "Transformer l'élan en décision" }
    } else if str_equal(theme, "communication") {
        if s0 { "Préparer une parole nette" }
        else if s6 { "Formuler le message essentiel" }
        else if s12 { "Mettre les mots au bon endroit" }
        else { "Répondre avec plus de précision" }
    } else if str_equal(theme, "clarity") {
        if s0 { "Reprendre l'initiative personnelle" }
        else if s6 { "Clarifier le cap visible" }
        else if s12 { "Choisir une suite simple" }
        else { "Retrouver une impulsion créative" }
    } else if str_equal(theme, "integration") {
        if s0 { "Stabiliser une base intérieure" }
        else if s6 { "Consolider ce qui doit durer" }
        else if s12 { "Relier les décisions au cadre" }
        else { "Préparer une suite plus stable" }
    } else {
        if s0 { "Reprendre l'initiative personnelle" }
        else if s6 { "Clarifier le cap visible" }
        else if s12 { "Stabiliser une décision utile" }
        else { "Retrouver une impulsion créative" }
    }
}

/// Why a best window of a theme is worth using.
pub open spec fn best_window_reason(theme: Seq<char>) -> Seq<char> {
    if theme == "relationship"@ {
        "À utiliser pour nommer un besoin, confirmer une attente ou réparer un malentendu simple."@
    } else if theme == "energy"@ {
        "À réserver à une action courte : lancer, terminer ou limiter un effort avant dispersion."@
    } else if theme == "communication"@ {
        "À utiliser pour préparer une phrase claire, envoyer un message ciblé ou cadrer une réponse."@
    } else if theme == "clarity"@ {
        "À privilégier pour choisir entre deux options, clarifier une preuve ou mettre une priorité au net."@
    } else if theme == "integration"@ {
        "À garder pour consolider un engagement, vérifier sa tenue ou réduire ce qui surcharge."@
    } else {
        "À utiliser pour confirmer une ressource, fermer une tâche pratique ou poser une preuve simple."@
    }
}

/// Why a best window of a theme is worth using.
pub fn period_best_window_reason(theme: &str) -> (r: &'static str)
    ensures
        r@ == best_window_reason(theme@),
{
    if str_equal(theme, "relationship") {
        "À utiliser pour nommer un besoin, confirmer une attente ou réparer un malentendu simple."
    } else if str_equal(theme, "energy") {
        "À réserver à une action courte : lancer, terminer ou limiter un effort avant dispersion."
    } else if str_equal(theme, "communication") {
        "À utiliser pour préparer une phrase claire, envoyer un message ciblé ou cadrer une réponse."
    } else if str_equal(theme, "clarity") {
        "À privilégier pour choisir entre deux options, clarifier une preuve ou mettre une priorité au net."
    } else if str_equal(theme, "integration") {
        "À garder pour consolider un engagement, vérifier sa tenue ou réduire ce qui surcharge."
    } else {
        "À utiliser pour confirmer une ressource, fermer une tâche pratique ou poser une preuve simple."
    }
}

/// What a best-day marker of a theme is good for.
pub open spec fn best_marker_public_use(theme: Seq<char>) -> Seq<char> {
    if theme == "relationship"@ {
        "apaiser un lien, nommer un besoin personnel ou confirmer une attente simple"@
    } else if theme == "energy"@ {
        "transformer l'élan en action courte sans brusquer le rythme"@
    } else if theme == "communication"@ {
        "envoyer un message net, demander une précision ou cadrer un échange"@
    } else if theme == "clarity"@ {
        "mettre au net ce qui compte et choisir une suite vérifiable"@
    } else if theme == "integration"@ {
        "consolider un engagement, une limite ou une décision déjà amorcée"@
    } else {
        "sécuriser ce qui soutient la semaine : ressource, rendez-vous, preuve ou tâche pratique"@
    }
}

/// What a best-day marker of a theme is good for.
pub fn period_best_marker_public_use(theme: &str) -> (r: &'static str)
    ensures
        r@ == best_marker_public_use(theme@),
{
    if str_equal(theme, "relationship") {
        "apaiser un lien, nommer un besoin personnel ou confirmer une attente simple"
    } else if str_equal(theme, "energy") {
        "transformer l'élan en action courte sans brusquer le rythme"
    } else if str_equal(theme, "communication") {
        "envoyer un message net, demander une précision ou cadrer un échange"
    } else if str_equal(theme, "clarity") {
        "mettre au net ce qui compte et choisir une suite vérifiable"
    } else if str_equal(theme, "integration") {
        "consolider un engagement, une limite ou une décision déjà amorcée"
    } else {
        "sécuriser ce qui soutient la semaine : ressource, rendez-vous, preuve ou tâche pratique"
    }
}

/// Three uses, as texts.
pub open spec fn uses3(a: &str, b: &str, c: &str) -> Seq<Seq<char>> {
    seq![a@, b@, c@]
}

fn three(a: &'static str, b: &'static str, c: &'static str) -> (r: Vec<&'static str>)
    ensures
        views(r@) == uses3(a, b, c),
{
    let v = vec![a, b, c];
    assert(views(v@) =~= uses3(a, b, c));
    v
}

/// What a best window is good for, by theme and starting hour.
pub open spec fn best_window_best_for(theme: Seq<char>, start: Seq<char>) -> Seq<Seq<char>> {
    if theme == "relationship"@ {
        if start == "00:00"@ {
            uses3("apaiser une attente personnelle", "préparer un échange sensible", "retrouver une disponibilité affective")
        } else if start == "06:00"@ {
            uses3("ouvrir un échange utile", "clarifier une attente", "réparer un malentendu simple")
        } else if start == "12:00"@ {
            uses3("poser un accord concret", "nommer un besoin relationnel", "ajuster une attente partagée")
        } else {
            uses3("fluidifier une relation", "répondre avec nuance", "consolider un lien utile")
        }
    } else if theme == "energy"@ {
        if start == "00:00"@ {
            uses3("préparer l'élan du jour", "choisir une action courte", "éviter de démarrer trop vite")
        } else if start == "06:00"@ {
            uses3("lancer une action courte", "débloquer une décision pratique", "poser une limite concrète")
        } else if start == "12:00"@ {
            uses3("canaliser l'effort utile", "traiter un point actif", "agir sans disperser l'énergie")
        } else {
            uses3("transformer l'élan en décision", "conclure une action simple", "récupérer après l'effort")
        }
    } else if theme == "communication"@ {
        if start == "00:00"@ {
            uses3("préparer une formulation", "ordonner les arguments", "clarifier l'intention du message")
        } else if start == "06:00"@ {
            uses3("envoyer un message clair", "préparer une réponse", "nommer une priorité")
        } else if start == "12:00"@ {
            uses3("ajuster une réponse", "tenir un échange précis", "réduire les explications inutiles")
        } else {
            uses3("répondre avec précision", "clore une discussion utile", "poser un cadre verbal")
        }
    } else if theme == "clarity"@ {
        if start == "00:00"@ {
            uses3("reprendre l'initiative personnelle", "poser un repère simple", "préparer le rythme du jour")
        } else if start == "06:00"@ {
            uses3("clarifier le cap visible", "organiser la prochaine étape", "rendre une priorité lisible")
        } else if start == "12:00"@ {
            uses3("trier les options", "choisir une suite simple", "mettre à jour une priorité")
        } else {
            uses3("retrouver une impulsion créative", "assouplir une décision", "préserver un élan durable")
        }
    } else if theme == "integration"@ {
        if start == "00:00"@ {
            uses3("stabiliser une base intérieure", "préparer une consolidation", "faire le point avant d'élargir")
        } else if start == "06:00"@ {
            uses3("consolider une avancée", "revenir à l'essentiel", "stabiliser une décision")
        } else if start == "12:00"@ {
            uses3("relier une décision au cadre", "vérifier la tenue d'un engagement", "ordonner ce qui doit durer")
        } else {
            uses3("préparer une suite stable", "assimiler une étape", "réduire ce qui surcharge")
        }
    } else {
        if start == "00:00"@ {
            uses3("reprendre l'initiative personnelle", "poser un repère simple", "préparer le rythme du jour")
        } else if start == "06:00"@ {
            uses3("clarifier le cap visible", "organiser la prochaine étape", "rendre une priorité lisible")
        } else if start == "12:00"@ {
            uses3("stabiliser une décision utile", "trier les options concrètes", "réduire la dispersion")
        } else {
            uses3("retrouver une impulsion créative", "assouplir une décision", "préserver un élan durable")
        }
    }
}

/// What a best window is good for, by theme and starting hour: three uses.
pub fn period_best_window_best_for(theme: &str, start_label: &str) -> (r: Vec<&'static str>)
    ensures
        views(r@) == best_window_best_for(theme@, start_label@),
{
    let s0 = str_equal(start_label, "00:00");
    let s6 = str_equal(start_label, "06:00");
    let s12 = str_equal(start_label, "12:00");
    if str_equal(theme, "relationship") {
        if s0 {
            three("apaiser une attente personnelle", "préparer un échange sensible", "retrouver une disponibilité affective")
        } else if s6 {
            three("ouvrir un échange utile", "clarifier une attente", "réparer un malentendu simple")
        } else if s12 {
            three("poser un accord concret", "nommer un besoin relationnel", "ajuster une attente partagée")
        } else {
            three("fluidifier une relation", "répondre avec nuance", "consolider un lien utile")
        }
    } else if str_equal(theme, "energy") {
        if s0 {
            three("préparer l'élan du jour", "choisir une action courte", "éviter de démarrer trop vite")
        } else if s6 {
            three("lancer une action courte", "débloquer une décision pratique", "poser une limite concrète")
        } else if s12 {
            three("canaliser l'effort utile", "traiter un point actif", "agir sans disperser l'énergie")
        } else {
            three("transformer l'élan en décision", "conclure une action simple", "récupérer après l'effort")
        }
    } else if str_equal(theme, "communication") {
        if s0 {
            three("préparer une formulation", "ordonner les arguments", "clarifier l'intention du message")
        } else if s6 {
            three("envoyer un message clair", "préparer une réponse", "nommer une priorité")
        } else if s12 {
            three("ajuster une réponse", "tenir un échange précis", "réduire les explications inutiles")
        } else {
            three("répondre avec précision", "clore une discussion utile", "poser un cadre verbal")
        }
    } else if str_equal(theme, "clarity") {
        if s0 {
            three("reprendre l'initiative personnelle", "poser un repère simple", "préparer le rythme du jour")
        } else if s6 {
            three("clarifier le cap visible", "organiser la prochaine étape", "rendre une priorité lisible")
        } else if s12 {
            three("trier les options", "choisir une suite simple", "mettre à jour une priorité")
        } else {
            three("retrouver une impulsion créative", "assouplir une décision", "préserver un élan durable")
        }
    } else if str_equal(theme, "integration") {
        if s0 {
            three("stabiliser une base intérieure", "préparer une consolidation", "faire le point avant d'élargir")
        } else if s6 {
            three("consolider une avancée", "revenir à l'essentiel", "stabiliser une décision")
        } else if s12 {
            three("relier une décision au cadre", "vérifier la tenue d'un engagement", "ordonner ce qui doit durer")
        } else {
            three("préparer une suite stable", "assimiler une étape", "réduire ce qui surcharge")
        }
    } else {
        if s0 {
            three("reprendre l'initiative personnelle", "poser un repère simple", "préparer le rythme du jour")
        } else if s6 {
            three("clarifier le cap visible", "organiser la prochaine étape", "rendre une priorité lisible")
        } else if s12 {
            three("stabiliser une décision utile", "trier les options concrètes", "réduire la dispersion")
        } else {
            three("retrouver une impulsion créative", "assouplir une décision", "préserver un élan durable")
        }
    }
}

// ---------------------------------------------------------------------------------------------
// Events
// ---------------------------------------------------------------------------------------------

/// The tone of an event: by its aspect where it has a known one, else by its theme.
pub open spec fn internal_tone(theme: Seq<char>, aspect: Option<Seq<char>>) -> Seq<char> {
    match aspect {
        Some(a) if a == "square"@ || a == "opposition"@ => "careful"@,
        Some(a) if a == "trine"@ || a == "sextile"@ => "supportive"@,
        Some(a) if a == "conjunction"@ => "active"@,
        _ => if theme == "relationship"@ {
            "supportive"@
        } else if theme == "energy"@ || theme == "communication"@ {
            "active"@
        } else if theme == "integration"@ {
            "mixed"@
        } else {
            "focused"@
        },
    }
}

/// The tone of an event: by its aspect where it has a known one, else by its theme. The kind
/// of fact plays no part.
pub fn period_internal_tone(theme: &str, fact_type: &str, aspect: Option<&str>) -> (r: &'static str)
    ensures
        r@ == internal_tone(
            theme@,
            match aspect {
                Some(a) => Some(a@),
                None => None,
            },
        ),
{
    let _ = fact_type;
    match aspect {
        Some(a) => {
            if str_equal(a, "square") || str_equal(a, "opposition") {
                return "careful";
            }
            if str_equal(a, "trine") || str_equal(a, "sextile") {
                return "supportive";
            }
            if str_equal(a, "conjunction") {
                return "active";
            }
        },
        None => {},
    }
    if str_equal(theme, "relationship") {
        "supportive"
    } else if str_equal(theme, "energy") || str_equal(theme, "communication") {
        "active"
    } else if str_equal(theme, "integration") {
        "mixed"
    } else {
        "focused"
    }
}

/// An event that calls for vigilance: a careful tone, or a square or an opposition.
pub open spec fn watch_event(event: JsonValue) -> bool {
    ||| field_str(event, "tone"@) == Some("careful"@)
    ||| field_str(event, "aspect"@) == Some("square"@)
    ||| field_str(event, "aspect"@) == Some("opposition"@)
}

/// Whether an event calls for vigilance.
pub fn is_period_watch_event(event: &JsonValue) -> (r: bool)
    ensures
        r == watch_event(*event),
{
    let tone_careful = match event.field_str("tone") {
        Some(t) => str_equal(t, "careful"),
        None => false,
    };
    let tense_aspect = match event.field_str("aspect") {
        Some(a) => str_equal(a, "square") || str_equal(a, "opposition"),
        None => false,
    };
    tone_careful || tense_aspect
}

/// An event that can carry a best day: no watch event, and not set in the eighth or twelfth
/// natal house.
pub open spec fn best_candidate(event: JsonValue) -> bool {
    &&& !watch_event(event)
    &&& json_int(json_at(event, "natal_house"@)) != Some(8i64)
    &&& json_int(json_at(event, "natal_house"@)) != Some(12i64)
}

/// Whether an event can carry a best day.
pub fn is_period_best_candidate(event: &JsonValue) -> (r: bool)
    ensures
        r == best_candidate(*event),
{
    if is_period_watch_event(event) {
        return false;
    }
    let house = match event.get("natal_house") {
        Some(h) => h.as_i64(),
        None => None,
    };
    match house {
        Some(h) => h != 8 && h != 12,
        None => true,
    }
}

// ---------------------------------------------------------------------------------------------
// Days of the week's arc
// ---------------------------------------------------------------------------------------------

/// The role of the day at `index` in the week.
pub open spec fn role_hint(index: nat) -> Seq<char> {
    if index == 0 {
        "entry"@
    } else if index == 1 || index == 2 {
        "development"@
    } else if index == 3 {
        "pivot"@
    } else if index == 4 || index == 5 {
        "integration"@
    } else {
        "closure"@
    }
}

/// The role of the day at `index` in the week.
pub fn period_role_hint(index: usize) -> (r: &'static str)
    ensures
        r@ == role_hint(index as nat),
{
    if index == 0 {
        "entry"
    } else if index == 1 || index == 2 {
        "development"
    } else if index == 3 {
        "pivot"
    } else if index == 4 || index == 5 {
        "integration"
    } else {
        "closure"
    }
}

/// The phase of the day at `index` in the editorial arc.
pub open spec fn arc_phase(index: nat) -> Seq<char> {
    if index == 0 {
        "ouverture"@
    } else if index == 1 || index == 2 {
        "mise_en_mouvement"@
    } else if index == 3 {
        "pivot"@
    } else if index == 4 || index == 5 {
        "consolidation"@
    } else {
        "cloture"@
    }
}

/// What the day at `index` does in the editorial arc.
pub open spec fn arc_function(index: nat) -> Seq<char> {
    if index == 0 {
        "installer le cadre de la semaine sans tout décider"@
    } else if index == 1 || index == 2 {
        "mettre les premiers choix en pratique"@
    } else if index == 3 {
        "changer de rythme et trier ce qui mérite d'être gardé"@
    } else if index == 4 || index == 5 {
        "intégrer les apprentissages et alléger les promesses"@
    } else {
        "rendre visible ce qui est prêt et préparer la suite"@
    }
}

fn arc_day(date: &str, index: usize) -> (r: JsonValue)
    ensures
        field_str(r, "date"@) == Some(date@),
        field_str(r, "phase"@) == Some(arc_phase(index as nat)),
        field_str(r, "editorial_function"@) == Some(arc_function(index as nat)),
{
    let phase = if index == 0 {
        "ouverture"
    } else if index == 1 || index == 2 {
        "mise_en_mouvement"
    } else if index == 3 {
        "pivot"
    } else if index == 4 || index == 5 {
        "consolidation"
    } else {
        "cloture"
    };
    let function = if index == 0 {
        "installer le cadre de la semaine sans tout décider"
    } else if index == 1 || index == 2 {
        "mettre les premiers choix en pratique"
    } else if index == 3 {
        "changer de rythme et trier ce qui mérite d'être gardé"
    } else if index == 4 || index == 5 {
        "intégrer les apprentissages et alléger les promesses"
    } else {
        "rendre visible ce qui est prêt et préparer la suite"
    };
    let mut es: Vec<JsonEntry> = Vec::new();
    es.push(JsonEntry { key: "date".to_owned(), value: JsonValue::Str(date.to_owned()) });
    es.push(JsonEntry { key: "phase".to_owned(), value: JsonValue::Str(phase.to_owned()) });
    es.push(JsonEntry { key: "editorial_function".to_owned(), value: JsonValue::Str(function.to_owned()) });
    proof {
        reveal_strlit("date");
        reveal_strlit("phase");
        reveal_strlit("editorial_function");
        assert(es@[1].key@[0] != "date"@[0]);
        assert(es@[2].key@[0] != "date"@[0]);
        assert(es@[2].key@[0] != "phase"@[0]);
        crate::json::lemma_lookup_first(es@, 0, "date"@);
        crate::json::lemma_lookup_first(es@, 1, "phase"@);
        crate::json::lemma_lookup_first(es@, 2, "editorial_function"@);
    }
    JsonValue::Object(es)
}

/// The purpose stated at the head of the editorial arc.
pub open spec fn arc_purpose() -> Seq<char> {
    "Donner une trajectoire lisible: ouverture, pivot, consolidation, clôture."@
}

/// The editorial arc of the week: its purpose, and for each date in order its phase and what
/// the day does.
pub fn build_period_editorial_arc_v2(included_dates: &[&str]) -> (r: JsonValue)
    ensures
        field_str(r, "purpose"@) == Some(arc_purpose()),
        crate::json::field_arr(r, "days"@) matches Some(days) && days.len() == included_dates@.len() && forall|i: int|
            0 <= i < days.len() ==> {
                &&& field_str(#[trigger] days[i], "date"@) == Some(included_dates@[i]@)
                &&& field_str(days[i], "phase"@) == Some(arc_phase(i as nat))
                &&& field_str(days[i], "editorial_function"@) == Some(arc_function(i as nat))
            },
{
    let n = included_dates.len();
    let mut days: Vec<JsonValue> = Vec::new();
    let mut i: usize = 0;
    while i < n
        invariant
            n == included_dates@.len(),
            i <= n,
            days@.len() == i,
            forall|j: int|
                0 <= j < i ==> {
                    &&& field_str(#[trigger] days@[j], "date"@) == Some(included_dates@[j]@)
                    &&& field_str(days@[j], "phase"@) == Some(arc_phase(j as nat))
                    &&& field_str(days@[j], "editorial_function"@) == Some(arc_function(j as nat))
                },
        decreases n - i,
    {
        days.push(arc_day(included_dates[i], i));
        i = i + 1;
    }
    let mut es: Vec<JsonEntry> = Vec::new();
    es.push(JsonEntry {
        key: "purpose".to_owned(),
        value: JsonValue::Str("Donner une trajectoire lisible: ouverture, pivot, consolidation, clôture.".to_owned()),
    });
    es.push(JsonEntry { key: "days".to_owned(), value: JsonValue::Array(days) });
    proof {
        reveal_strlit("purpose");
        reveal_strlit("days");
        assert(es@[1].key@[0] != "purpose"@[0]);
        crate::json::lemma_lookup_first(es@, 0, "purpose"@);
        crate::json::lemma_lookup_first(es@, 1, "days"@);
    }
    JsonValue::Object(es)
}

// ---------------------------------------------------------------------------------------------
// Editorial angles
// ---------------------------------------------------------------------------------------------

/// The angle that a theme calls for: a code and a hint.
pub open spec fn preferred_angle(theme: Seq<char>) -> (Seq<char>, Seq<char>) {
    let key = editorial_theme_key(theme);
    if key == "relationship"@ {
        ("relation"@, "pacifier un lien ou formuler une attente sans mise en scène"@)
    } else if key == "communication"@ {
        ("clarification"@, "dire moins mais mieux, avec une demande ou une preuve précise"@)
    } else if key == "energy"@ {
        ("action"@, "transformer l'élan en geste court et réversible"@)
    } else if key == "integration"@ {
        ("consolidation"@, "laisser mûrir avant d'élargir le mouvement"@)
    } else if key == "clarity"@ {
        ("nomination"@, "nommer ce qui compte avant de choisir"@)
    } else {
        ("organisation"@, "mettre de l'ordre dans une priorité observable"@)
    }
}

/// The angle of the day at `index` when its theme's angle is already taken.
pub open spec fn fallback_angle(index: nat) -> (Seq<char>, Seq<char>) {
    if index == 0 {
        ("ouverture"@, "installer le cadre sans fermer trop vite les options"@)
    } else if index == 1 || index == 2 {
        ("mise_en_pratique"@, "tester une décision dans un geste limité"@)
    } else if index == 3 {
        ("pivot"@, "changer de rythme et sélectionner l'essentiel"@)
    } else if index == 4 || index == 5 {
        ("integration"@, "relier ce qui a été compris à une action réaliste"@)
    } else {
        ("finalisation"@, "conclure ce qui est prêt et préparer la suite"@)
    }
}

/// `used` with `code` added, unless it holds it already.
pub open spec fn with_code(used: Seq<Seq<char>>, code: Seq<char>) -> Seq<Seq<char>> {
    if used.contains(code) {
        used
    } else {
        used.push(code)
    }
}

fn angle_of(code: &'static str, hint: &'static str) -> (r: (&'static str, &'static str))
    ensures
        r.0 == code,
        r.1 == hint,
{
    (code, hint)
}

/// The editorial angle of a day: its theme's angle while no earlier day took it, else the
/// angle of its place in the week. The angle's code joins the used codes.
pub fn period_editorial_angle_v2(theme: &str, index: usize, used_angles: &mut Vec<String>) -> (r: (
    &'static str,
    &'static str,
))
    ensures
        (r.0@, r.1@) == if string_views(old(used_angles)@).contains(preferred_angle(theme@).0) {
            fallback_angle(index as nat)
        } else {
            preferred_angle(theme@)
        },
        string_views(final(used_angles)@) == with_code(string_views(old(used_angles)@), r.0@),
{
    let key = period_editorial_theme_key(theme);
    let preferred = if str_equal(key, "relationship") {
        angle_of("relation", "pacifier un lien ou formuler une attente sans mise en scène")
    } else if str_equal(key, "communication") {
        angle_of("clarification", "dire moins mais mieux, avec une demande ou une preuve précise")
    } else if str_equal(key, "energy") {
        angle_of("action", "transformer l'élan en geste court et réversible")
    } else if str_equal(key, "integration") {
        angle_of("consolidation", "laisser mûrir avant d'élargir le mouvement")
    } else if str_equal(key, "clarity") {
        angle_of("nomination", "nommer ce qui compte avant de choisir")
    } else {
        angle_of("organisation", "mettre de l'ordre dans une priorité observable")
    };
    if !crate::text::string_list_contains(used_angles, preferred.0) {
        let ghost before = string_views(used_angles@);
        used_angles.push(preferred.0.to_owned());
        assert(string_views(used_angles@) =~= before.push(preferred.0@));
        return preferred;
    }
    let fallback = if index == 0 {
        angle_of("ouverture", "installer le cadre sans fermer trop vite les options")
    } else if index == 1 || index == 2 {
        angle_of("mise_en_pratique", "tester une décision dans un geste limité")
    } else if index == 3 {
        angle_of("pivot", "changer de rythme et sélectionner l'essentiel")
    } else if index == 4 || index == 5 {
        angle_of("integration", "relier ce qui a été compris à une action réaliste")
    } else {
        angle_of("finalisation", "conclure ce qui est prêt et préparer la suite")
    };
    if !crate::text::string_list_contains(used_angles, fallback.0) {
        let ghost before = string_views(used_angles@);
        used_angles.push(fallback.0.to_owned());
        assert(string_views(used_angles@) =~= before.push(fallback.0@));
    }
    fallback
}

/// How to vary a theme from one day to the next.
pub open spec fn repetition_hint(theme: Seq<char>) -> Seq<char> {
    let key = editorial_theme_key(theme);
    if key == "relationship"@ {
        "Varier lien: écoute, réparation, limite douce, geste concret."@
    } else if key == "communication"@ {
        "Varier parole: message ciblé, négociation, reformulation, vérification."@
    } else if key == "energy"@ {
        "Varier action: lancement, canalisation, rythme, récupération."@
    } else if key == "integration"@ {
        "Varier intégration: tri, consolidation, patience, décision proportionnée."@
    } else if key == "clarity"@ {
        "Varier clarté: désir nommé, choix assumé, visibilité, simplification."@
    } else {
        "Varier organisation: cadre, ressource, routine, service, visibilité."@
    }
}

/// How to vary a theme from one day to the next.
pub fn period_editorial_repetition_hint_v2(theme: &str) -> (r: &'static str)
    ensures
        r@ == repetition_hint(theme@),
{
    let key = period_editorial_theme_key(theme);
    if str_equal(key, "relationship") {
        "Varier lien: écoute, réparation, limite douce, geste concret."
    } else if str_equal(key, "communication") {
        "Varier parole: message ciblé, négociation, reformulation, vérification."
    } else if str_equal(key, "energy") {
        "Varier action: lancement, canalisation, rythme, récupération."
    } else if str_equal(key, "integration") {
        "Varier intégration: tri, consolidation, patience, décision proportionnée."
    } else if str_equal(key, "clarity") {
        "Varier clarté: désir nommé, choix assumé, visibilité, simplification."
    } else {
        "Varier organisation: cadre, ressource, routine, service, visibilité."
    }
}

/// Events set in the eighth or twelfth natal house never carry a best day nor open a best
/// window.
pub proof fn law_eighth_and_twelfth_houses_are_never_best(event: JsonValue)
    requires
        json_int(json_at(event, "natal_house"@)) == Some(8i64) || json_int(json_at(event, "natal_house"@)) == Some(12i64),
    ensures
        !best_candidate(event),
{
}

} // verus!
