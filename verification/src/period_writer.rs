//! Pieces of a seven-day reading that the writer builds from its request: day markers from
//! candidates, the evidence summary, and the compact reading of the free offer.
use vstd::prelude::*;

use crate::error::{GenerationError, err_code, horoscope_error};
use crate::json::{JsonValue, field_arr, field_str, json_arr, json_at, json_clone, json_get, json_same, set_member};
use crate::period_labels::{day_label, period_theme_public_label, period_tone_public_label, public_day_label, theme_field, tone_label};
use crate::period_windows::text_or;
use crate::text::{is_blank, str_is_blank};

verus! {

/// A text where it is not blank.
pub open spec fn nonblank_text(o: Option<Seq<char>>) -> Option<Seq<char>> {
    match o {
        Some(t) => if is_blank(t) {
            None
        } else {
            Some(t)
        },
        None => None,
    }
}

fn nonblank_str(o: Option<&str>) -> (r: Option<&str>)
    ensures
        crate::json::opt_view(r) == nonblank_text(crate::json::opt_view(o)),
{
    match o {
        Some(t) => if str_is_blank(t) {
            None
        } else {
            Some(t)
        },
        None => None,
    }
}

/// A copy of `v[key]` (`null` where it is missing).
fn member_copy(v: &JsonValue, key: &str) -> (r: JsonValue)
    ensures
        json_same(r, json_at(*v, key@)),
{
    match v.get(key) {
        Some(x) => json_clone(x),
        None => JsonValue::Null,
    }
}

/// `r[to]` is a copy of `src[from]` (`null` where it is missing).
pub open spec fn copied(r: JsonValue, to: Seq<char>, src: JsonValue, from: Seq<char>) -> bool {
    json_get(r, to) matches Some(x) && json_same(x, json_at(src, from))
}

// ---------------------------------------------------------------------------------------------
// Day markers
// ---------------------------------------------------------------------------------------------

/// The reason a marker gives where its candidate gives none.
pub open spec fn default_marker_reason() -> Seq<char> {
    "Repère utile pour lire la suite de la période."@
}

/// The title of a marker: its candidate's title where it is not blank, else the label of its
/// date, else `Repère`.
pub open spec fn marker_title(c: JsonValue) -> Seq<char> {
    match nonblank_text(field_str(c, "title"@)) {
        Some(t) => t,
        None => match field_str(c, "date"@) {
            Some(d) => day_label(d),
            None => "Repère"@,
        },
    }
}

/// The marker of a candidate day: its date, title, reason (the default one where its own is
/// blank) and evidence, with no fallback reason.
pub open spec fn candidate_marker(c: JsonValue, m: JsonValue) -> bool {
    &&& m is Object
    &&& copied(m, "date"@, c, "date"@)
    &&& field_str(m, "title"@) == Some(marker_title(c))
    &&& field_str(m, "reason"@) == Some(text_or(nonblank_text(field_str(c, "reason"@)), default_marker_reason()))
    &&& copied(m, "evidence_keys"@, c, "evidence_keys"@)
    &&& json_get(m, "fallback_reason"@) == Some(JsonValue::Null)
}

/// The marker of a date where there is no candidate: the label of the date, the default
/// reason and the one evidence key given.
pub open spec fn fallback_marker(date: Seq<char>, key: JsonValue, m: JsonValue) -> bool {
    &&& m is Object
    &&& field_str(m, "date"@) == Some(date)
    &&& field_str(m, "title"@) == Some(day_label(date))
    &&& field_str(m, "reason"@) == Some(default_marker_reason())
    &&& field_arr(m, "evidence_keys"@) matches Some(a) && a.len() == 1 && json_same(a[0], key)
    &&& json_get(m, "fallback_reason"@) == Some(JsonValue::Null)
}

proof fn lemma_marker_keys()
    ensures
        "date"@.len() == 4,
        "title"@.len() == 5,
        "reason"@.len() == 6,
        "evidence_keys"@.len() == 13,
        "fallback_reason"@.len() == 15,
{
    reveal_strlit("date");
    reveal_strlit("title");
    reveal_strlit("reason");
    reveal_strlit("evidence_keys");
    reveal_strlit("fallback_reason");
}

fn candidate_marker_of(c: &JsonValue) -> (m: JsonValue)
    ensures
        candidate_marker(*c, m),
{
    let title = match nonblank_str(c.field_str("title")) {
        Some(t) => t.to_owned(),
        None => match c.field_str("date") {
            Some(d) => public_day_label(d),
            None => "Repère".to_owned(),
        },
    };
    let reason = match nonblank_str(c.field_str("reason")) {
        Some(t) => t.to_owned(),
        None => "Repère utile pour lire la suite de la période.".to_owned(),
    };
    let mut m = JsonValue::Null;
    set_member(&mut m, "date", member_copy(c, "date"));
    set_member(&mut m, "title", JsonValue::Str(title));
    set_member(&mut m, "reason", JsonValue::Str(reason));
    set_member(&mut m, "evidence_keys", member_copy(c, "evidence_keys"));
    set_member(&mut m, "fallback_reason", JsonValue::Null);
    proof {
        lemma_marker_keys();
    }
    m
}

/// The marker of a date with one evidence key (see `fallback_marker`).
fn fallback_marker_of(date: &str, key: &JsonValue) -> (m: JsonValue)
    ensures
        fallback_marker(date@, *key, m),
{
    let mut keys: Vec<JsonValue> = Vec::new();
    keys.push(json_clone(key));
    let mut m = JsonValue::Null;
    set_member(&mut m, "date", JsonValue::Str(date.to_owned()));
    set_member(&mut m, "title", JsonValue::Str(public_day_label(date)));
    set_member(&mut m, "reason", JsonValue::Str("Repère utile pour lire la suite de la période.".to_owned()));
    set_member(&mut m, "evidence_keys", JsonValue::Array(keys));
    set_member(&mut m, "fallback_reason", JsonValue::Null);
    proof {
        lemma_marker_keys();
    }
    m
}

/// The items of an optional list (none where there is no list).
pub open spec fn opt_items(o: Option<&Vec<JsonValue>>) -> Seq<JsonValue> {
    match o {
        Some(v) => v@,
        None => seq![],
    }
}

/// Markers of candidates, at most `limit` of them: one per candidate in order, or, where there
/// is no candidate, one marker of the fallback date citing the fallback key.
pub open spec fn markers_upto(cs: Seq<JsonValue>, date: Seq<char>, key: JsonValue, limit: nat, r: Seq<JsonValue>) -> bool {
    if cs.len() > 0 {
        &&& r.len() == if cs.len() < limit { cs.len() } else { limit }
        &&& forall|k: int| 0 <= k < r.len() ==> candidate_marker(cs[k], #[trigger] r[k])
    } else {
        r.len() == 1 && fallback_marker(date, key, r[0])
    }
}

/// The day markers of candidates: a marker for each of the first four (see
/// `candidate_marker`), or, where there is none, one marker of the fallback date citing the
/// fallback evidence key (see `fallback_marker`).
pub fn day_markers_from_candidates_v2(
    candidates: Option<&Vec<JsonValue>>,
    fallback_date: &str,
    fallback_evidence_key: &JsonValue,
) -> (r: Vec<JsonValue>)
    ensures
        markers_upto(opt_items(candidates), fallback_date@, *fallback_evidence_key, 4, r@),
{
    let mut out: Vec<JsonValue> = Vec::new();
    match candidates {
        Some(cs) => {
            let n = cs.len();
            let mut i: usize = 0;
            while i < n && i < 4
                invariant
                    n == cs@.len(),
                    i <= n,
                    i <= 4,
                    out@.len() == i,
                    forall|k: int| 0 <= k < i ==> candidate_marker(cs@[k], #[trigger] out@[k]),
                decreases n - i,
            {
                out.push(candidate_marker_of(&cs[i]));
                i = i + 1;
            }
        },
        None => {},
    }
    if out.len() == 0 {
        out.push(fallback_marker_of(fallback_date, fallback_evidence_key));
    }
    out
}

// ---------------------------------------------------------------------------------------------
// Evidence summary
// ---------------------------------------------------------------------------------------------

/// The tone of an evidence item: its tone code, else its tone, else `focused`.
pub open spec fn item_tone(item: JsonValue) -> Seq<char> {
    match field_str(item, "tone_code"@) {
        Some(t) => t,
        None => text_or(field_str(item, "tone"@), "focused"@),
    }
}

/// The label of an evidence item: its human label where it is not blank, else the public
/// label of its theme (`organization` by default) and that of its tone, joined by ` / `.
pub open spec fn item_label(item: JsonValue, themes: Seq<JsonValue>, tones: Seq<JsonValue>) -> Seq<char> {
    match nonblank_text(field_str(item, "human_label"@)) {
        Some(t) => t,
        None => {
            let theme = text_or(field_str(item, "theme_code"@), "organization"@);
            theme_field(themes, theme, "public_label"@, theme) + " / "@ + tone_label(tones, item_tone(item))
        },
    }
}

/// An entry of the evidence summary: the item's key, date and label.
pub open spec fn summary_entry(item: JsonValue, themes: Seq<JsonValue>, tones: Seq<JsonValue>, s: JsonValue) -> bool {
    &&& s is Object
    &&& copied(s, "evidence_key"@, item, "evidence_key"@)
    &&& copied(s, "date"@, item, "date"@)
    &&& field_str(s, "label"@) == Some(item_label(item, themes, tones))
}

fn summary_entry_of(item: &JsonValue, themes: &Vec<JsonValue>, tones: &Vec<JsonValue>) -> (s: JsonValue)
    ensures
        summary_entry(*item, themes@, tones@, s),
{
    let label = match nonblank_str(item.field_str("human_label")) {
        Some(t) => t.to_owned(),
        None => {
            let theme = match item.field_str("theme_code") {
                Some(t) => t,
                None => "organization",
            };
            let tone = match item.field_str("tone_code") {
                Some(t) => t,
                None => match item.field_str("tone") {
                    Some(t) => t,
                    None => "focused",
                },
            };
            let mut out = period_theme_public_label(theme, themes);
            out.append(" / ");
            let tone_text = period_tone_public_label(tone, tones);
            out.append(tone_text.as_str());
            out
        },
    };
    let mut s = JsonValue::Null;
    set_member(&mut s, "evidence_key", member_copy(item, "evidence_key"));
    set_member(&mut s, "date", member_copy(item, "date"));
    set_member(&mut s, "label", JsonValue::Str(label));
    proof {
        reveal_strlit("evidence_key");
        reveal_strlit("date");
        reveal_strlit("label");
        assert("evidence_key"@.len() != "date"@.len() && "date"@.len() != "label"@.len());
        assert("evidence_key"@.len() != "label"@.len());
    }
    s
}

/// The evidence summary: an entry for each of the first `limit` items (see `summary_entry`).
pub fn evidence_summary_v2(evidence: &Vec<JsonValue>, limit: usize, themes: &Vec<JsonValue>, tones: &Vec<JsonValue>) -> (r: Vec<
    JsonValue,
>)
    ensures
        r@.len() == if evidence@.len() < limit { evidence@.len() } else { limit as nat },
        forall|k: int| 0 <= k < r@.len() ==> summary_entry(evidence@[k], themes@, tones@, #[trigger] r@[k]),
{
    let n = evidence.len();
    let mut out: Vec<JsonValue> = Vec::new();
    let mut i: usize = 0;
    while i < n && i < limit
        invariant
            n == evidence@.len(),
            i <= n,
            i <= limit,
            out@.len() == i,
            forall|k: int| 0 <= k < i ==> summary_entry(evidence@[k], themes@, tones@, #[trigger] out@[k]),
        decreases n - i,
    {
        out.push(summary_entry_of(&evidence[i], themes, tones));
        i = i + 1;
    }
    out
}

// ---------------------------------------------------------------------------------------------
// The compact reading of the free offer
// ---------------------------------------------------------------------------------------------

/// The first included date of the request's period, where it is a string.
pub open spec fn first_included(request: JsonValue) -> Option<Seq<char>> {
    match field_arr(json_at(request, "period_resolution"@), "included_dates"@) {
        Some(a) => if a.len() > 0 {
            crate::json::json_str(a[0])
        } else {
            None
        },
        None => None,
    }
}

/// The date a reading starts from: its primary evidence's date, else the first included
/// date, else a fixed date.
pub open spec fn primary_date(request: JsonValue, primary: JsonValue) -> Seq<char> {
    match field_str(primary, "date"@) {
        Some(d) => d,
        None => text_or(first_included(request), "2026-06-07"@),
    }
}

/// The public label of the primary evidence's theme (`organization` by default).
pub open spec fn primary_theme(primary: JsonValue, themes: Seq<JsonValue>) -> Seq<char> {
    let code = text_or(field_str(primary, "theme_code"@), "organization"@);
    theme_field(themes, code, "public_label"@, code)
}

/// The summary of the free reading, around a date and a theme.
pub open spec fn free_summary_text(date: Seq<char>, theme: Seq<char>) -> Seq<char> {
    "Les prochains jours donnent surtout une tendance à comprendre plutôt qu'un planning à suivre. Autour du "@ + date
        + ", le climat met l'accent sur "@ + theme
        + " : une priorité simple, un échange à clarifier ou une routine à stabiliser peut devenir le fil conducteur. L'intérêt est de repérer ce qui demande de l'attention sans découper chaque journée ni chercher une fenêtre idéale. Gardez une marge pour ajuster votre rythme, observez les moments où les émotions accélèrent les décisions, puis revenez à une action concrète. Cette lecture reste volontairement compacte : elle sert de boussole générale pour choisir ce qui mérite d'être traité maintenant et ce qui peut attendre."@
}

/// The text on the dominant theme of the free reading.
pub open spec fn dominant_theme_text(theme: Seq<char>) -> Seq<char> {
    "Le thème dominant est "@ + theme
        + ". Il invite à privilégier une décision simple, reliée à vos priorités concrètes, plutôt qu'une dispersion sur plusieurs sujets."@
}

/// The reason of the key day the free reading makes up where the request gives none.
pub open spec fn free_key_day_reason(theme: Seq<char>) -> Seq<char> {
    "Le thème "@ + theme + " ressort plus nettement et donne un repère utile sans en faire un verdict."@
}

/// The key days of the free reading: the request's first two, or else one on the primary
/// date citing the primary evidence.
pub open spec fn free_key_days(request: JsonValue, date: Seq<char>, theme: Seq<char>, key: JsonValue, k: Seq<JsonValue>) -> bool {
    let given = match field_arr(request, "key_days"@) {
        Some(a) => a,
        None => seq![],
    };
    if given.len() > 0 {
        &&& k.len() == if given.len() < 2 { given.len() } else { 2 }
        &&& forall|i: int| 0 <= i < k.len() ==> json_same(#[trigger] k[i], given[i])
    } else {
        &&& k.len() == 1
        &&& k[0] is Object
        &&& field_str(k[0], "date"@) == Some(date)
        &&& field_str(k[0], "title"@) == Some(day_label(date))
        &&& field_str(k[0], "reason"@) == Some(free_key_day_reason(theme))
        &&& field_arr(k[0], "evidence_keys"@) matches Some(a) && a.len() == 1 && json_same(a[0], key)
        &&& json_get(k[0], "fallback_reason"@) == Some(JsonValue::Null)
    }
}

/// The free reading a fake writer gives: the free offer's contract on the request's period, a
/// summary and a dominant theme around the primary evidence, its key days, one advice, a light
/// watch summary citing the primary evidence, the first three evidence items with their human
/// labels, and the quality block of the fake provider.
pub open spec fn free_reading(request: JsonValue, themes: Seq<JsonValue>, r: JsonValue) -> bool {
    let evidence = field_arr(request, "evidence"@)->0;
    let primary = evidence[0];
    let key = json_at(primary, "evidence_key"@);
    let date = primary_date(request, primary);
    let theme = primary_theme(primary, themes);
    &&& r is Object
    &&& field_str(r, "contract_version"@) == Some("horoscope_period_response"@)
    &&& field_str(r, "service_code"@) == Some(crate::service_codes::HOROSCOPE_FREE_NEXT_7_DAYS_NATAL_SERVICE_CODE@)
    &&& copied(r, "period_resolution"@, request, "period_resolution"@)
    &&& json_get(r, "summary"@) matches Some(s) && field_str(s, "title"@) == Some("Vos 7 prochains jours"@) && field_str(s, "text"@)
        == Some(free_summary_text(date, theme))
    &&& json_get(r, "dominant_theme"@) matches Some(d) && field_str(d, "theme"@) == Some(theme) && field_str(d, "text"@) == Some(
        dominant_theme_text(theme),
    )
    &&& field_arr(r, "key_days"@) matches Some(k) && free_key_days(request, date, theme, key, k)
    &&& field_str(r, "advice"@) == Some(
        "Choisissez une seule priorité observable et gardez assez de souplesse pour l'ajuster. Notez ce qui se répète avant de conclure."@,
    )
    &&& json_get(r, "watch_summary"@) matches Some(w) && field_str(w, "status"@) == Some("low"@) && field_str(w, "text"@) == Some(
        "Une vigilance légère suffit : ralentir si une réaction paraît plus forte que la situation."@,
    ) && (field_arr(w, "evidence_keys"@) matches Some(a) && a.len() == 1 && json_same(a[0], key))
    &&& field_arr(r, "evidence_summary"@) matches Some(es) && es.len() == (if evidence.len() < 3 { evidence.len() } else { 3 })
        && forall|i: int|
        0 <= i < es.len() ==> {
            &&& (#[trigger] es[i]) is Object
            &&& copied(es[i], "evidence_key"@, evidence[i], "evidence_key"@)
            &&& copied(es[i], "date"@, evidence[i], "date"@)
            &&& copied(es[i], "label"@, evidence[i], "human_label"@)
        }
    &&& json_get(r, "quality"@) matches Some(q) && crate::period_repair::fake_quality(
        q,
        crate::service_codes::HOROSCOPE_FREE_NEXT_7_DAYS_NATAL_SERVICE_CODE@,
        0,
    )
    &&& forall|k: Seq<char>| !is_free_reading_field(k) ==> #[trigger] json_get(r, k) is None
}

/// The members of a free reading: no daily timeline, day lists or windows.
pub open spec fn is_free_reading_field(k: Seq<char>) -> bool {
    ||| k == "contract_version"@
    ||| k == "service_code"@
    ||| k == "period_resolution"@
    ||| k == "summary"@
    ||| k == "dominant_theme"@
    ||| k == "key_days"@
    ||| k == "advice"@
    ||| k == "watch_summary"@
    ||| k == "evidence_summary"@
    ||| k == "quality"@
}

proof fn lemma_free_keys()
    ensures
        "contract_version"@.len() == 16,
        "service_code"@.len() == 12 && "service_code"@[0] == 's',
        "period_resolution"@.len() == 17,
        "summary"@.len() == 7 && "summary"@[0] == 's',
        "dominant_theme"@.len() == 14,
        "key_days"@.len() == 8,
        "advice"@.len() == 6 && "advice"@[0] == 'a',
        "watch_summary"@.len() == 13,
        "evidence_summary"@.len() == 16 && "evidence_summary"@[0] == 'e',
        "quality"@.len() == 7 && "quality"@[0] == 'q',
        "title"@.len() == 5 && "title"@[0] == 't',
        "text"@.len() == 4 && "text"@[0] == 't' && "theme"@.len() == 5 && "theme"@[1] == 'h' && "title"@[1] == 'i',
        "status"@.len() == 6,
        "evidence_keys"@.len() == 13,
        "evidence_key"@.len() == 12,
        "date"@.len() == 4 && "date"@[0] == 'd',
        "label"@.len() == 5,
        "reason"@.len() == 6 && "reason"@[0] == 'r',
        "fallback_reason"@.len() == 15,
        "contract_version"@[0] == 'c' && "period_resolution"@[0] == 'p',
{
    reveal_strlit("contract_version");
    reveal_strlit("service_code");
    reveal_strlit("period_resolution");
    reveal_strlit("summary");
    reveal_strlit("dominant_theme");
    reveal_strlit("key_days");
    reveal_strlit("advice");
    reveal_strlit("watch_summary");
    reveal_strlit("evidence_summary");
    reveal_strlit("quality");
    reveal_strlit("title");
    reveal_strlit("text");
    reveal_strlit("theme");
    reveal_strlit("status");
    reveal_strlit("evidence_keys");
    reveal_strlit("evidence_key");
    reveal_strlit("date");
    reveal_strlit("label");
    reveal_strlit("reason");
    reveal_strlit("fallback_reason");
}

fn two_member_text(k1: &str, v1: String, k2: &str, v2: String) -> (r: JsonValue)
    requires
        k1@ != k2@,
    ensures
        r is Object,
        field_str(r, k1@) == Some(v1@),
        field_str(r, k2@) == Some(v2@),
{
    let mut r = JsonValue::Null;
    set_member(&mut r, k1, JsonValue::Str(v1));
    set_member(&mut r, k2, JsonValue::Str(v2));
    r
}

fn concat3(a: &str, b: &str, c: &str) -> (r: String)
    ensures
        r@ == a@ + b@ + c@,
{
    let mut out = a.to_owned();
    out.append(b);
    out.append(c);
    out
}

/// The compact reading a fake writer gives for the free offer (see `free_reading`); refused
/// where the request has no evidence.
pub fn fake_free_period_writer_response(request: &JsonValue, themes: &Vec<JsonValue>) -> (r: Result<JsonValue, GenerationError>)
    ensures
        match r {
            Ok(v) => field_arr(*request, "evidence"@) matches Some(e) && e.len() > 0 && free_reading(*request, themes@, v),
            Err(e) => err_code(e) == "HOROSCOPE_PERIOD_FREE_EVIDENCE_MISSING"@ && !(field_arr(*request, "evidence"@) matches Some(
                e,
            ) && e.len() > 0),
        },
{
    let evidence = match request.field_arr("evidence") {
        Some(e) => e,
        None => {
            return Err(horoscope_error("HOROSCOPE_PERIOD_FREE_EVIDENCE_MISSING"));
        },
    };
    if evidence.len() == 0 {
        return Err(horoscope_error("HOROSCOPE_PERIOD_FREE_EVIDENCE_MISSING"));
    }
    let primary = &evidence[0];
    let first = match request.get("period_resolution") {
        Some(pr) => match pr.field_arr("included_dates") {
            Some(a) => if a.len() > 0 {
                a[0].as_str()
            } else {
                None
            },
            None => None,
        },
        None => None,
    };
    let date = match primary.field_str("date") {
        Some(d) => d,
        None => match first {
            Some(d) => d,
            None => "2026-06-07",
        },
    };
    let theme_code = match primary.field_str("theme_code") {
        Some(t) => t,
        None => "organization",
    };
    let theme = period_theme_public_label(theme_code, themes);
    // Key days.
    let mut key_days: Vec<JsonValue> = Vec::new();
    match request.field_arr("key_days") {
        Some(given) => {
            let n = given.len();
            let mut i: usize = 0;
            while i < n && i < 2
                invariant
                    n == given@.len(),
                    i <= n,
                    i <= 2,
                    key_days@.len() == i,
                    forall|k: int| 0 <= k < i ==> json_same(#[trigger] key_days@[k], given@[k]),
                decreases n - i,
            {
                key_days.push(json_clone(&given[i]));
                i = i + 1;
            }
        },
        None => {},
    }
    if key_days.len() == 0 {
        let mut keys: Vec<JsonValue> = Vec::new();
        keys.push(member_copy(primary, "evidence_key"));
        let mut m = JsonValue::Null;
        set_member(&mut m, "date", JsonValue::Str(date.to_owned()));
        set_member(&mut m, "title", JsonValue::Str(public_day_label(date)));
        set_member(
            &mut m,
            "reason",
            JsonValue::Str(concat3("Le thème ", theme.as_str(), " ressort plus nettement et donne un repère utile sans en faire un verdict.")),
        );
        set_member(&mut m, "evidence_keys", JsonValue::Array(keys));
        set_member(&mut m, "fallback_reason", JsonValue::Null);
        proof {
            lemma_free_keys();
        }
        key_days.push(m);
    }
    // Evidence summary.
    let n = evidence.len();
    let mut summary_items: Vec<JsonValue> = Vec::new();
    let mut i: usize = 0;
    while i < n && i < 3
        invariant
            n == evidence@.len(),
            i <= n,
            i <= 3,
            summary_items@.len() == i,
            forall|k: int|
                0 <= k < i ==> {
                    &&& (#[trigger] summary_items@[k]) is Object
                    &&& copied(summary_items@[k], "evidence_key"@, evidence@[k], "evidence_key"@)
                    &&& copied(summary_items@[k], "date"@, evidence@[k], "date"@)
                    &&& copied(summary_items@[k], "label"@, evidence@[k], "human_label"@)
                },
        decreases n - i,
    {
        let item = &evidence[i];
        let mut e = JsonValue::Null;
        set_member(&mut e, "evidence_key", member_copy(item, "evidence_key"));
        set_member(&mut e, "date", member_copy(item, "date"));
        set_member(&mut e, "label", member_copy(item, "human_label"));
        proof {
            lemma_free_keys();
        }
        summary_items.push(e);
        i = i + 1;
    }
    // Watch summary.
    let mut watch_keys: Vec<JsonValue> = Vec::new();
    watch_keys.push(member_copy(primary, "evidence_key"));
    let mut watch = JsonValue::Null;
    set_member(&mut watch, "status", JsonValue::Str("low".to_owned()));
    set_member(
        &mut watch,
        "text",
        JsonValue::Str("Une vigilance légère suffit : ralentir si une réaction paraît plus forte que la situation.".to_owned()),
    );
    set_member(&mut watch, "evidence_keys", JsonValue::Array(watch_keys));
    proof {
        lemma_free_keys();
    }
    let summary_text = concat3(
        "Les prochains jours donnent surtout une tendance à comprendre plutôt qu'un planning à suivre. Autour du ",
        date,
        ", le climat met l'accent sur ",
    );
    let summary_text = concat3(
        summary_text.as_str(),
        theme.as_str(),
        " : une priorité simple, un échange à clarifier ou une routine à stabiliser peut devenir le fil conducteur. L'intérêt est de repérer ce qui demande de l'attention sans découper chaque journée ni chercher une fenêtre idéale. Gardez une marge pour ajuster votre rythme, observez les moments où les émotions accélèrent les décisions, puis revenez à une action concrète. Cette lecture reste volontairement compacte : elle sert de boussole générale pour choisir ce qui mérite d'être traité maintenant et ce qui peut attendre.",
    );
    proof {
        lemma_free_keys();
    }
    let summary = two_member_text("title", "Vos 7 prochains jours".to_owned(), "text", summary_text);
    let dominant_text = concat3(
        "Le thème dominant est ",
        theme.as_str(),
        ". Il invite à privilégier une décision simple, reliée à vos priorités concrètes, plutôt qu'une dispersion sur plusieurs sujets.",
    );
    let dominant = two_member_text("theme", theme.clone(), "text", dominant_text);
    let quality = crate::period_repair::quality_v2(crate::service_codes::HOROSCOPE_FREE_NEXT_7_DAYS_NATAL_SERVICE_CODE, request, 0);
    let mut r = JsonValue::Null;
    let ghost r0 = r;
    set_member(&mut r, "contract_version", JsonValue::Str("horoscope_period_response".to_owned()));
    set_member(&mut r, "service_code", JsonValue::Str(crate::service_codes::HOROSCOPE_FREE_NEXT_7_DAYS_NATAL_SERVICE_CODE.to_owned()));
    set_member(&mut r, "period_resolution", member_copy(request, "period_resolution"));
    set_member(&mut r, "summary", summary);
    set_member(&mut r, "dominant_theme", dominant);
    set_member(&mut r, "key_days", JsonValue::Array(key_days));
    set_member(
        &mut r,
        "advice",
        JsonValue::Str(
            "Choisissez une seule priorité observable et gardez assez de souplesse pour l'ajuster. Notez ce qui se répète avant de conclure.".to_owned(),
        ),
    );
    set_member(&mut r, "watch_summary", watch);
    set_member(&mut r, "evidence_summary", JsonValue::Array(summary_items));
    set_member(&mut r, "quality", quality);
    proof {
        lemma_free_keys();
        assert forall|k: Seq<char>| !is_free_reading_field(k) implies #[trigger] json_get(r, k) is None by {
            assert(json_get(r0, k) is None);
        }
        let ev = evidence@;
        let pr = ev[0];
        assert(date@ == primary_date(*request, pr));
        assert(theme@ == primary_theme(pr, themes@));
        assert(field_str(r, "contract_version"@) == Some("horoscope_period_response"@));
        assert(copied(r, "period_resolution"@, *request, "period_resolution"@));
        assert(json_get(r, "summary"@) matches Some(s) && field_str(s, "title"@) == Some("Vos 7 prochains jours"@) && field_str(s, "text"@)
            == Some(free_summary_text(date@, theme@)));
        assert(json_get(r, "dominant_theme"@) matches Some(d) && field_str(d, "theme"@) == Some(theme@));
        assert(field_arr(r, "key_days"@) matches Some(k) && free_key_days(*request, date@, theme@, json_at(pr, "evidence_key"@), k));
        assert(json_get(r, "quality"@) matches Some(q) && crate::period_repair::fake_quality(
            q,
            crate::service_codes::HOROSCOPE_FREE_NEXT_7_DAYS_NATAL_SERVICE_CODE@,
            0,
        ));
    }
    Ok(r)
}

// ---------------------------------------------------------------------------------------------
// The reading a fake writer gives for a writer request
// ---------------------------------------------------------------------------------------------

/// The first text of the list `key` of a value, else the default.
pub open spec fn first_code(v: JsonValue, key: Seq<char>, default: Seq<char>) -> Seq<char> {
    match field_arr(v, key) {
        Some(a) => if a.len() > 0 {
            text_or(crate::json::json_str(a[0]), default)
        } else {
            default
        },
        None => default,
    }
}

fn first_code_of<'a>(v: &'a JsonValue, key: &str, default: &'a str) -> (r: &'a str)
    ensures
        r@ == first_code(*v, key@, default@),
{
    match v.field_arr(key) {
        Some(a) => if a.len() > 0 {
            match a[0].as_str() {
                Some(t) => t,
                None => default,
            }
        } else {
            default
        },
        None => default,
    }
}

/// The text of a day of the timeline, after its label.
pub open spec fn timeline_text(label: Seq<char>) -> Seq<char> {
    label + " sert de repère pour utiliser le signal sans le rigidifier."@
}

/// A day of the timeline made from a daily signal summary: its date (the fallback date where it
/// has none), the label of that date, the public labels of its first theme and tone
/// (`organization` and `focused` by default), a text and an advice, and its evidence keys (else
/// the fallback key).
pub open spec fn writer_timeline_item(
    day: JsonValue,
    fallback_date: Seq<char>,
    key: JsonValue,
    themes: Seq<JsonValue>,
    tones: Seq<JsonValue>,
    item: JsonValue,
) -> bool {
    let date = text_or(field_str(day, "date"@), fallback_date);
    let theme = first_code(day, "theme_codes"@, "organization"@);
    let tone = first_code(day, "tone_codes"@, "focused"@);
    &&& item is Object
    &&& field_str(item, "date"@) == Some(date)
    &&& field_str(item, "day_label"@) == Some(day_label(date))
    &&& field_str(item, "theme"@) == Some(theme_field(themes, theme, "public_label"@, theme))
    &&& field_str(item, "tone"@) == Some(tone_label(tones, tone))
    &&& field_str(item, "text"@) == Some(timeline_text(day_label(date)))
    &&& field_str(item, "advice"@) == Some("Choisissez un geste court, vérifiable et relié au contexte réel."@)
    &&& field_arr(item, "evidence_keys"@) matches Some(b) && match field_arr(day, "evidence_keys"@) {
        Some(a) => b.len() == a.len() && forall|i: int| 0 <= i < a.len() ==> json_same(#[trigger] b[i], a[i]),
        None => b.len() == 1 && json_same(b[0], key),
    }
}

proof fn lemma_timeline_keys()
    ensures
        "date"@.len() == 4 && "date"@[0] == 'd' && "date"@[1] == 'a',
        "day_label"@.len() == 9 && "day_label"@[0] == 'd' && "day_label"@[1] == 'a',
        "theme"@.len() == 5 && "theme"@[0] == 't' && "theme"@[1] == 'h',
        "tone"@.len() == 4 && "tone"@[0] == 't' && "tone"@[1] == 'o',
        "text"@.len() == 4 && "text"@[0] == 't' && "text"@[1] == 'e',
        "advice"@.len() == 6 && "advice"@[0] == 'a',
        "evidence_keys"@.len() == 13 && "evidence_keys"@[0] == 'e',
        "domain"@.len() == 6 && "domain"@[0] == 'd' && "domain"@[1] == 'o',
        "title"@.len() == 5 && "title"@[0] == 't' && "title"@[1] == 'i',
{
    reveal_strlit("date");
    reveal_strlit("day_label");
    reveal_strlit("theme");
    reveal_strlit("tone");
    reveal_strlit("text");
    reveal_strlit("advice");
    reveal_strlit("evidence_keys");
    reveal_strlit("domain");
    reveal_strlit("title");
}

fn writer_timeline_item_of(
    day: &JsonValue,
    fallback_date: &str,
    key: &JsonValue,
    themes: &Vec<JsonValue>,
    tones: &Vec<JsonValue>,
) -> (r: JsonValue)
    ensures
        writer_timeline_item(*day, fallback_date@, *key, themes@, tones@, r),
{
    let date = match day.field_str("date") {
        Some(d) => d,
        None => fallback_date,
    };
    let theme = first_code_of(day, "theme_codes", "organization");
    let tone = first_code_of(day, "tone_codes", "focused");
    let keys = match day.field_arr("evidence_keys") {
        Some(a) => {
            let mut out: Vec<JsonValue> = Vec::new();
            let n = a.len();
            let mut i: usize = 0;
            while i < n
                invariant
                    n == a@.len(),
                    i <= n,
                    out@.len() == i,
                    forall|k: int| 0 <= k < i ==> json_same(#[trigger] out@[k], a@[k]),
                decreases n - i,
            {
                out.push(json_clone(&a[i]));
                i = i + 1;
            }
            out
        },
        None => {
            let mut out: Vec<JsonValue> = Vec::new();
            out.push(json_clone(key));
            out
        },
    };
    let label = public_day_label(date);
    let mut text = label.clone();
    text.append(" sert de repère pour utiliser le signal sans le rigidifier.");
    let mut item = JsonValue::Null;
    set_member(&mut item, "date", JsonValue::Str(date.to_owned()));
    set_member(&mut item, "day_label", JsonValue::Str(label));
    set_member(&mut item, "theme", JsonValue::Str(period_theme_public_label(theme, themes)));
    set_member(&mut item, "tone", JsonValue::Str(period_tone_public_label(tone, tones)));
    set_member(&mut item, "text", JsonValue::Str(text));
    set_member(&mut item, "advice", JsonValue::Str("Choisissez un geste court, vérifiable et relié au contexte réel.".to_owned()));
    set_member(&mut item, "evidence_keys", JsonValue::Array(keys));
    proof {
        lemma_timeline_keys();
    }
    item
}

/// A domain section made from a domain candidate: the public label and domain title of its
/// code (`organization` by default), its text (else the theme's domain focus), and its
/// evidence keys.
pub open spec fn writer_domain_section(dom: JsonValue, themes: Seq<JsonValue>, s: JsonValue) -> bool {
    let code = text_or(field_str(dom, "domain_code"@), "organization"@);
    &&& s is Object
    &&& field_str(s, "domain"@) == Some(theme_field(themes, code, "public_label"@, code))
    &&& field_str(s, "title"@) == Some(theme_field(themes, code, "domain_title"@, code))
    &&& field_str(s, "text"@) == Some(text_or(field_str(dom, "text"@), theme_field(themes, code, "domain_focus"@, code)))
    &&& copied(s, "evidence_keys"@, dom, "evidence_keys"@)
}

fn writer_domain_section_of(dom: &JsonValue, themes: &Vec<JsonValue>) -> (r: JsonValue)
    ensures
        writer_domain_section(*dom, themes@, r),
{
    let code = match dom.field_str("domain_code") {
        Some(c) => c,
        None => "organization",
    };
    let text = match dom.field_str("text") {
        Some(t) => t.to_owned(),
        None => crate::period_labels::period_public_theme_field(code, "domain_focus", code, themes),
    };
    let mut s = JsonValue::Null;
    set_member(&mut s, "domain", JsonValue::Str(period_theme_public_label(code, themes)));
    set_member(&mut s, "title", JsonValue::Str(crate::period_labels::period_domain_title(code, themes)));
    set_member(&mut s, "text", JsonValue::Str(text));
    set_member(&mut s, "evidence_keys", member_copy(dom, "evidence_keys"));
    proof {
        lemma_timeline_keys();
    }
    s
}

fn writer_timeline_of(
    days: &Vec<JsonValue>,
    fallback_date: &str,
    key: &JsonValue,
    themes: &Vec<JsonValue>,
    tones: &Vec<JsonValue>,
) -> (r: Vec<JsonValue>)
    ensures
        r@.len() == days@.len(),
        forall|i: int| 0 <= i < r@.len() ==> writer_timeline_item(days@[i], fallback_date@, *key, themes@, tones@, #[trigger] r@[i]),
{
    let n = days.len();
    let mut out: Vec<JsonValue> = Vec::new();
    let mut i: usize = 0;
    while i < n
        invariant
            n == days@.len(),
            i <= n,
            out@.len() == i,
            forall|k: int| 0 <= k < i ==> writer_timeline_item(days@[k], fallback_date@, *key, themes@, tones@, #[trigger] out@[k]),
        decreases n - i,
    {
        out.push(writer_timeline_item_of(&days[i], fallback_date, key, themes, tones));
        i = i + 1;
    }
    out
}

fn writer_domains_of(doms: Option<&Vec<JsonValue>>, limit: usize, themes: &Vec<JsonValue>) -> (r: Vec<JsonValue>)
    ensures
        r@.len() == if opt_items(doms).len() < limit { opt_items(doms).len() } else { limit as nat },
        forall|i: int| 0 <= i < r@.len() ==> writer_domain_section(opt_items(doms)[i], themes@, #[trigger] r@[i]),
{
    let mut out: Vec<JsonValue> = Vec::new();
    match doms {
        Some(ds) => {
            let n = ds.len();
            let mut i: usize = 0;
            while i < n && i < limit
                invariant
                    n == ds@.len(),
                    i <= n,
                    i <= limit,
                    out@.len() == i,
                    forall|k: int| 0 <= k < i ==> writer_domain_section(ds@[k], themes@, #[trigger] out@[k]),
                decreases n - i,
            {
                out.push(writer_domain_section_of(&ds[i], themes));
                i = i + 1;
            }
        },
        None => {},
    }
    out
}

fn three_member_text(k1: &str, v1: &str, k2: &str, v2: &str, k3: &str, v3: &str) -> (r: JsonValue)
    requires
        k1@ != k2@,
        k1@ != k3@,
        k2@ != k3@,
    ensures
        r is Object,
        field_str(r, k1@) == Some(v1@),
        field_str(r, k2@) == Some(v2@),
        field_str(r, k3@) == Some(v3@),
{
    let mut r = JsonValue::Null;
    set_member(&mut r, k1, JsonValue::Str(v1.to_owned()));
    set_member(&mut r, k2, JsonValue::Str(v2.to_owned()));
    set_member(&mut r, k3, JsonValue::Str(v3.to_owned()));
    r
}

fn keyed_watch(status: &str, text: &str, key: &JsonValue) -> (r: JsonValue)
    ensures
        r is Object,
        field_str(r, "status"@) == Some(status@),
        field_str(r, "text"@) == Some(text@),
        field_arr(r, "evidence_keys"@) matches Some(a) && a.len() == 1 && json_same(a[0], *key),
{
    let mut keys: Vec<JsonValue> = Vec::new();
    keys.push(json_clone(key));
    let mut w = JsonValue::Null;
    set_member(&mut w, "status", JsonValue::Str(status.to_owned()));
    set_member(&mut w, "text", JsonValue::Str(text.to_owned()));
    set_member(&mut w, "evidence_keys", JsonValue::Array(keys));
    proof {
        lemma_free_keys();
    }
    w
}

/// The primary evidence of a writer request: its first evidence item, where it lists any.
pub open spec fn writer_primary(request: JsonValue) -> Option<JsonValue> {
    match field_arr(request, "evidence"@) {
        Some(e) => if e.len() > 0 {
            Some(e[0])
        } else {
            None
        },
        None => None,
    }
}

/// The semantic brief's list `key` of a writer request.
pub open spec fn brief_list(request: JsonValue, key: Seq<char>) -> Option<Seq<JsonValue>> {
    field_arr(json_at(request, "semantic_brief"@), key)
}

/// The items of an optional list.
pub open spec fn items_or_none(o: Option<Seq<JsonValue>>) -> Seq<JsonValue> {
    match o {
        Some(a) => a,
        None => seq![],
    }
}

/// The members of the reading a fake writer gives a writer request of a paid offer.
pub open spec fn is_writer_reading_field(k: Seq<char>, premium: bool) -> bool {
    ||| k == "contract_version"@
    ||| k == "service_code"@
    ||| k == "period_resolution"@
    ||| k == "week_overview"@
    ||| k == "key_days"@
    ||| k == "best_days"@
    ||| k == "watch_days"@
    ||| k == "watch_summary"@
    ||| k == "daily_timeline"@
    ||| k == "domain_sections"@
    ||| k == "advice"@
    ||| k == "evidence_summary"@
    ||| k == "quality"@
    ||| (premium && (k == "best_windows"@ || k == "watch_windows"@ || k == "strategy"@))
}

/// The members of the reading a fake writer gives a writer request of the free offer.
pub open spec fn is_writer_free_field(k: Seq<char>) -> bool {
    ||| k == "contract_version"@
    ||| k == "service_code"@
    ||| k == "period_resolution"@
    ||| k == "summary"@
    ||| k == "dominant_theme"@
    ||| k == "key_days"@
    ||| k == "advice"@
    ||| k == "watch_summary"@
    ||| k == "evidence_summary"@
    ||| k == "quality"@
}

/// The summary text of the free reading made from a writer request.
pub open spec fn writer_free_summary_text(theme: Seq<char>) -> Seq<char> {
    "Cette période donne une boussole générale plutôt qu'un planning détaillé. Le thème "@ + theme
        + " ressort comme fil conducteur et aide à repérer une priorité simple sans figer chaque signal."@
}

/// The reading (before its shape is repaired) a fake writer gives a writer request of the free
/// offer whose primary evidence is `primary`.
pub open spec fn writer_free_reading(request: JsonValue, themes: Seq<JsonValue>, tones: Seq<JsonValue>, primary: JsonValue, r: JsonValue) -> bool {
    let svc = crate::period_repair::request_service(request);
    let evidence = field_arr(request, "evidence"@)->0;
    let key = json_at(primary, "evidence_key"@);
    let date = primary_date(request, primary);
    let theme = primary_theme(primary, themes);
    &&& r is Object
    &&& field_str(r, "contract_version"@) == Some("horoscope_period_response"@)
    &&& field_str(r, "service_code"@) == Some(svc)
    &&& copied(r, "period_resolution"@, request, "period_resolution"@)
    &&& json_get(r, "summary"@) matches Some(m) && field_str(m, "title"@) == Some("Vos 7 prochains jours"@) && field_str(m, "text"@)
        == Some(writer_free_summary_text(theme))
    &&& json_get(r, "dominant_theme"@) matches Some(d) && field_str(d, "theme"@) == Some(theme) && field_str(d, "text"@) == Some(
        "Le thème dominant sert de repère pour hiérarchiser les décisions sans rigidifier la lecture."@,
    )
    &&& field_arr(r, "key_days"@) matches Some(k) && markers_upto(items_or_none(brief_list(request, "key_day_candidates"@)), date, key, 2, k)
    &&& field_str(r, "advice"@) == Some("Gardez une seule priorité observable, puis ajustez-la si le même signal revient dans la semaine."@)
    &&& json_get(r, "watch_summary"@) matches Some(w) && field_str(w, "status"@) == Some("low"@) && field_str(w, "text"@) == Some(
        "Une vigilance légère suffit : ralentir si une réaction paraît plus forte que la situation."@,
    ) && (field_arr(w, "evidence_keys"@) matches Some(a) && a.len() == 1 && json_same(a[0], key))
    &&& field_arr(r, "evidence_summary"@) matches Some(es) && es.len() == (if evidence.len() < 3 { evidence.len() } else { 3 })
        && forall|i: int| 0 <= i < es.len() ==> summary_entry(evidence[i], themes, tones, #[trigger] es[i])
    &&& json_get(r, "quality"@) matches Some(q) && crate::period_repair::fake_quality(q, svc, 0)
    &&& forall|k: Seq<char>| !is_writer_free_field(k) ==> #[trigger] json_get(r, k) is None
}

/// The reading (before its shape is repaired) a fake writer gives a writer request of a paid
/// offer whose primary evidence is `primary`: a fixed overview, the key, best and watch days
/// from the brief's candidates, a light watch summary, one timeline day per daily signal
/// summary, the first domain candidates (five for premium, four else), a fixed advice, the
/// first five evidence items, the quality block of the fake provider with seven days, and for
/// the premium offer the given windows and a strategy.
pub open spec fn writer_paid_reading(
    request: JsonValue,
    themes: Seq<JsonValue>,
    tones: Seq<JsonValue>,
    best_windows: JsonValue,
    watch_windows: JsonValue,
    primary: JsonValue,
    r: JsonValue,
) -> bool {
    let svc = crate::period_repair::request_service(request);
    let premium = crate::service_codes::premium_period_service(svc);
    let evidence = field_arr(request, "evidence"@)->0;
    let key = json_at(primary, "evidence_key"@);
    let date = primary_date(request, primary);
    let days = items_or_none(brief_list(request, "daily_signal_summary"@));
    let doms = items_or_none(brief_list(request, "domain_candidates"@));
    let limit: nat = if premium { 5 } else { 4 };
    &&& r is Object
    &&& field_str(r, "contract_version"@) == Some("horoscope_period_response"@)
    &&& field_str(r, "service_code"@) == Some(svc)
    &&& copied(r, "period_resolution"@, request, "period_resolution"@)
    &&& json_get(r, "week_overview"@) matches Some(w) && field_str(w, "title"@) == Some("Vos 7 prochains jours"@) && field_str(w, "text"@)
        == Some(
        "La période se lit comme une progression: observer les premiers signaux, choisir une priorité concrète, puis ajuster le rythme si une tension ou une opportunité se répète."@,
    ) && field_str(w, "trajectory"@) == Some("Le fil conducteur consiste à relier les priorités à des décisions simples et vérifiables."@)
    &&& field_arr(r, "key_days"@) matches Some(k) && markers_upto(items_or_none(brief_list(request, "key_day_candidates"@)), date, key, 4, k)
    &&& field_arr(r, "best_days"@) matches Some(k) && markers_upto(items_or_none(brief_list(request, "best_day_candidates"@)), date, key, 4, k)
    &&& field_arr(r, "watch_days"@) matches Some(k) && markers_upto(items_or_none(brief_list(request, "watch_day_candidates"@)), date, key, 4, k)
    &&& json_get(r, "watch_summary"@) matches Some(w) && field_str(w, "status"@) == Some("low"@) && field_str(w, "text"@) == Some(
        "Les moments de prudence demandent surtout de vérifier les limites avant de promettre davantage."@,
    ) && (field_arr(w, "evidence_keys"@) matches Some(a) && a.len() == 1 && json_same(a[0], key))
    &&& field_arr(r, "daily_timeline"@) matches Some(t) && t.len() == days.len() && forall|i: int|
        0 <= i < t.len() ==> writer_timeline_item(days[i], date, key, themes, tones, #[trigger] t[i])
    &&& field_arr(r, "domain_sections"@) matches Some(ds) && ds.len() == (if doms.len() < limit { doms.len() } else { limit })
        && forall|i: int| 0 <= i < ds.len() ==> writer_domain_section(doms[i], themes, #[trigger] ds[i])
    &&& json_get(r, "advice"@) matches Some(a) && field_str(a, "main"@) == Some(
        "Avancez par étapes courtes et gardez une trace de ce qui évolue d'un jour à l'autre."@,
    ) && field_str(a, "best_use"@) == Some("Utilisez les appuis pour confirmer une décision ou finaliser une tâche concrète."@)
        && field_str(a, "avoid"@) == Some("Transformer un signal quotidien en certitude définitive."@)
    &&& field_arr(r, "evidence_summary"@) matches Some(es) && es.len() == (if evidence.len() < 5 { evidence.len() } else { 5 })
        && forall|i: int| 0 <= i < es.len() ==> summary_entry(evidence[i], themes, tones, #[trigger] es[i])
    &&& json_get(r, "quality"@) matches Some(q) && crate::period_repair::fake_quality(q, svc, 7)
    &&& premium ==> {
        &&& json_get(r, "best_windows"@) == Some(best_windows)
        &&& json_get(r, "watch_windows"@) == Some(watch_windows)
        &&& json_get(r, "strategy"@) matches Some(st) && field_str(st, "title"@) == Some("Stratégie de semaine"@) && field_str(st, "text"@)
            == Some("Utilisez les créneaux utiles pour agir court et gardez de l'air dans les moments plus sensibles."@) && field_str(
            st,
            "best_use"@,
        ) == Some("Réserver les appuis aux échanges utiles, aux preuves concrètes et aux décisions réversibles."@) && field_str(
            st,
            "recovery"@,
        ) == Some("Préserver des temps de recul après les moments plus réactifs."@) && (field_arr(st, "evidence_keys"@) matches Some(
            a,
        ) && a.len() == 1 && json_same(a[0], key))
    }
    &&& forall|k: Seq<char>| !is_writer_reading_field(k, premium) ==> #[trigger] json_get(r, k) is None
}

fn primary_date_of<'a>(request: &'a JsonValue, primary: &'a JsonValue) -> (r: &'a str)
    ensures
        r@ == primary_date(*request, *primary),
{
    match primary.field_str("date") {
        Some(d) => d,
        None => {
            let first = match request.get("period_resolution") {
                Some(pr) => match pr.field_arr("included_dates") {
                    Some(a) => if a.len() > 0 {
                        a[0].as_str()
                    } else {
                        None
                    },
                    None => None,
                },
                None => None,
            };
            match first {
                Some(d) => d,
                None => "2026-06-07",
            }
        },
    }
}

fn keep_first(v: &mut Vec<JsonValue>, n: usize)
    ensures
        final(v)@ == old(v)@.take(if old(v)@.len() < n { old(v)@.len() as int } else { n as int }),
{
    let ghost start = v@;
    while v.len() > n
        invariant
            v@.len() >= (if start.len() < n { start.len() } else { n as nat }),
            v@ == start.take(v@.len() as int),
            v@.len() <= start.len(),
        decreases v@.len(),
    {
        v.pop();
    }
    assert(start.take(start.len() as int) =~= start);
}

fn brief_list_of<'a>(request: &'a JsonValue, key: &str) -> (r: Option<&'a Vec<JsonValue>>)
    ensures
        match r {
            Some(v) => brief_list(*request, key@) == Some(v@),
            None => brief_list(*request, key@) is None,
        },
{
    match request.get("semantic_brief") {
        Some(b) => b.field_arr(key),
        None => None,
    }
}

proof fn lemma_reading_keys()
    ensures
        "summary"@.len() == 7 && "summary"@[0] == 's' && "summary"@[1] == 'u',
        "strategy"@.len() == 8 && "strategy"@[0] == 's' && "strategy"@[1] == 't',
        "service_code"@.len() == 12 && "service_code"@[0] == 's' && "service_code"@[1] == 'e',
        "week_overview"@.len() == 13 && "week_overview"@[0] == 'w' && "week_overview"@[1] == 'e',
        "watch_summary"@.len() == 13 && "watch_summary"@[0] == 'w' && "watch_summary"@[1] == 'a' && "watch_summary"@[6] == 's',
        "watch_days"@.len() == 10 && "watch_days"@[0] == 'w' && "watch_days"@[1] == 'a' && "watch_days"@[6] == 'd',
        "watch_windows"@.len() == 13 && "watch_windows"@[0] == 'w' && "watch_windows"@[1] == 'a' && "watch_windows"@[6] == 'w',
        "best_days"@.len() == 9 && "best_days"@[0] == 'b' && "best_days"@[5] == 'd',
        "best_windows"@.len() == 12 && "best_windows"@[0] == 'b' && "best_windows"@[5] == 'w',
        "daily_timeline"@.len() == 14 && "daily_timeline"@[0] == 'd' && "daily_timeline"@[1] == 'a',
        "domain_sections"@.len() == 15 && "domain_sections"@[0] == 'd' && "domain_sections"@[1] == 'o' && "domain_sections"@[3] == 'a',
        "dominant_theme"@.len() == 14 && "dominant_theme"@[0] == 'd' && "dominant_theme"@[1] == 'o' && "dominant_theme"@[3] == 'i',
        "key_days"@.len() == 8 && "key_days"@[0] == 'k',
        "advice"@.len() == 6 && "advice"@[0] == 'a',
        "evidence_summary"@.len() == 16 && "evidence_summary"@[0] == 'e',
        "quality"@.len() == 7 && "quality"@[0] == 'q',
        "contract_version"@.len() == 16 && "contract_version"@[0] == 'c',
        "period_resolution"@.len() == 17 && "period_resolution"@[0] == 'p',
        "title"@.len() == 5 && "text"@.len() == 4 && "trajectory"@.len() == 10 && "title"@[1] == 'i' && "text"@[1] == 'e',
        "main"@.len() == 4 && "best_use"@.len() == 8 && "avoid"@.len() == 5 && "main"@[0] == 'm',
        "recovery"@.len() == 8 && "best_use"@[0] == 'b' && "recovery"@[0] == 'r',
        "theme"@.len() == 5 && "theme"@[1] == 'h',
{
    reveal_strlit("summary");
    reveal_strlit("strategy");
    reveal_strlit("service_code");
    reveal_strlit("week_overview");
    reveal_strlit("watch_summary");
    reveal_strlit("watch_days");
    reveal_strlit("watch_windows");
    reveal_strlit("best_days");
    reveal_strlit("best_windows");
    reveal_strlit("daily_timeline");
    reveal_strlit("domain_sections");
    reveal_strlit("dominant_theme");
    reveal_strlit("key_days");
    reveal_strlit("advice");
    reveal_strlit("evidence_summary");
    reveal_strlit("quality");
    reveal_strlit("contract_version");
    reveal_strlit("period_resolution");
    reveal_strlit("title");
    reveal_strlit("text");
    reveal_strlit("trajectory");
    reveal_strlit("main");
    reveal_strlit("best_use");
    reveal_strlit("avoid");
    reveal_strlit("recovery");
    reveal_strlit("theme");
}

fn writer_free_reading_of(
    request: &JsonValue,
    themes: &Vec<JsonValue>,
    tones: &Vec<JsonValue>,
    primary: &JsonValue,
    evidence: &Vec<JsonValue>,
    service: &str,
) -> (r: JsonValue)
    requires
        field_arr(*request, "evidence"@) == Some(evidence@),
        service@ == crate::period_repair::request_service(*request),
    ensures
        writer_free_reading(*request, themes@, tones@, *primary, r),
{
    proof {
        lemma_reading_keys();
        lemma_free_keys();
    }
    let null = JsonValue::Null;
    let key: &JsonValue = match primary.get("evidence_key") {
        Some(k) => k,
        None => &null,
    };
    let date = primary_date_of(request, primary);
    let theme_code = match primary.field_str("theme_code") {
        Some(t) => t,
        None => "organization",
    };
    let theme = period_theme_public_label(theme_code, themes);
    let cands = brief_list_of(request, "key_day_candidates");
    let mut key_days = day_markers_from_candidates_v2(cands, date, key);
    let ghost full = key_days@;
    keep_first(&mut key_days, 2);
    proof {
        let cs = opt_items(cands);
        assert(cs == items_or_none(brief_list(*request, "key_day_candidates"@)));
        if cs.len() > 0 {
            assert forall|k: int| 0 <= k < key_days@.len() implies candidate_marker(cs[k], #[trigger] key_days@[k]) by {
                assert(key_days@[k] == full[k]);
            }
        }
    }
    let summary = two_member_text(
        "title",
        "Vos 7 prochains jours".to_owned(),
        "text",
        concat3(
            "Cette période donne une boussole générale plutôt qu'un planning détaillé. Le thème ",
            theme.as_str(),
            " ressort comme fil conducteur et aide à repérer une priorité simple sans figer chaque signal.",
        ),
    );
    let dominant = two_member_text(
        "theme",
        theme.clone(),
        "text",
        "Le thème dominant sert de repère pour hiérarchiser les décisions sans rigidifier la lecture.".to_owned(),
    );
    let watch = keyed_watch("low", "Une vigilance légère suffit : ralentir si une réaction paraît plus forte que la situation.", key);
    let summary_items = evidence_summary_v2(evidence, 3, themes, tones);
    let quality = crate::period_repair::quality_v2(service, request, 0);
    let mut r = JsonValue::Null;
    let ghost r0 = r;
    set_member(&mut r, "contract_version", JsonValue::Str("horoscope_period_response".to_owned()));
    set_member(&mut r, "service_code", JsonValue::Str(service.to_owned()));
    set_member(&mut r, "period_resolution", member_copy(request, "period_resolution"));
    set_member(&mut r, "summary", summary);
    set_member(&mut r, "dominant_theme", dominant);
    set_member(&mut r, "key_days", JsonValue::Array(key_days));
    set_member(
        &mut r,
        "advice",
        JsonValue::Str("Gardez une seule priorité observable, puis ajustez-la si le même signal revient dans la semaine.".to_owned()),
    );
    set_member(&mut r, "watch_summary", watch);
    set_member(&mut r, "evidence_summary", JsonValue::Array(summary_items));
    set_member(&mut r, "quality", quality);
    proof {
        lemma_reading_keys();
        lemma_free_keys();
        assert forall|k: Seq<char>| !is_writer_free_field(k) implies #[trigger] json_get(r, k) is None by {
            assert(json_get(r0, k) is None);
        }
        assert(copied(r, "period_resolution"@, *request, "period_resolution"@));
        assert(json_get(r, "summary"@) matches Some(m) && field_str(m, "title"@) == Some("Vos 7 prochains jours"@));
        assert(json_get(r, "dominant_theme"@) matches Some(d) && field_str(d, "theme"@) == Some(primary_theme(*primary, themes@)));
        assert(field_arr(r, "key_days"@) matches Some(k) && markers_upto(
            items_or_none(brief_list(*request, "key_day_candidates"@)),
            primary_date(*request, *primary),
            json_at(*primary, "evidence_key"@),
            2,
            k,
        ));
        assert(json_get(r, "watch_summary"@) matches Some(w) && field_str(w, "status"@) == Some("low"@));
        assert(field_arr(r, "evidence_summary"@) is Some);
        assert(json_get(r, "quality"@) matches Some(q) && crate::period_repair::fake_quality(q, service@, 0));
    }
    r
}

fn writer_paid_reading_of(
    request: &JsonValue,
    themes: &Vec<JsonValue>,
    tones: &Vec<JsonValue>,
    best_windows: JsonValue,
    watch_windows: JsonValue,
    primary: &JsonValue,
    evidence: &Vec<JsonValue>,
    days: &Vec<JsonValue>,
    service: &str,
) -> (r: JsonValue)
    requires
        field_arr(*request, "evidence"@) == Some(evidence@),
        brief_list(*request, "daily_signal_summary"@) == Some(days@),
        service@ == crate::period_repair::request_service(*request),
    ensures
        writer_paid_reading(*request, themes@, tones@, best_windows, watch_windows, *primary, r),
{
    proof {
        lemma_reading_keys();
        lemma_free_keys();
    }
    let premium = crate::service_codes::is_premium_period_service(service);
    let null = JsonValue::Null;
    let key: &JsonValue = match primary.get("evidence_key") {
        Some(k) => k,
        None => &null,
    };
    let date = primary_date_of(request, primary);
    let key_days = day_markers_from_candidates_v2(brief_list_of(request, "key_day_candidates"), date, key);
    let best_days = day_markers_from_candidates_v2(brief_list_of(request, "best_day_candidates"), date, key);
    let watch_days = day_markers_from_candidates_v2(brief_list_of(request, "watch_day_candidates"), date, key);
    let timeline = writer_timeline_of(days, date, key, themes, tones);
    let limit: usize = if premium {
        5
    } else {
        4
    };
    let domains = writer_domains_of(brief_list_of(request, "domain_candidates"), limit, themes);
    let overview = three_member_text(
        "title",
        "Vos 7 prochains jours",
        "text",
        "La période se lit comme une progression: observer les premiers signaux, choisir une priorité concrète, puis ajuster le rythme si une tension ou une opportunité se répète.",
        "trajectory",
        "Le fil conducteur consiste à relier les priorités à des décisions simples et vérifiables.",
    );
    let watch = keyed_watch(
        "low",
        "Les moments de prudence demandent surtout de vérifier les limites avant de promettre davantage.",
        key,
    );
    let advice = three_member_text(
        "main",
        "Avancez par étapes courtes et gardez une trace de ce qui évolue d'un jour à l'autre.",
        "best_use",
        "Utilisez les appuis pour confirmer une décision ou finaliser une tâche concrète.",
        "avoid",
        "Transformer un signal quotidien en certitude définitive.",
    );
    let summary_items = evidence_summary_v2(evidence, 5, themes, tones);
    let quality = crate::period_repair::quality_v2(service, request, 7);
    let mut r = JsonValue::Null;
    let ghost r0 = r;
    set_member(&mut r, "contract_version", JsonValue::Str("horoscope_period_response".to_owned()));
    set_member(&mut r, "service_code", JsonValue::Str(service.to_owned()));
    set_member(&mut r, "period_resolution", member_copy(request, "period_resolution"));
    set_member(&mut r, "week_overview", overview);
    set_member(&mut r, "key_days", JsonValue::Array(key_days));
    set_member(&mut r, "best_days", JsonValue::Array(best_days));
    set_member(&mut r, "watch_days", JsonValue::Array(watch_days));
    set_member(&mut r, "watch_summary", watch);
    set_member(&mut r, "daily_timeline", JsonValue::Array(timeline));
    set_member(&mut r, "domain_sections", JsonValue::Array(domains));
    set_member(&mut r, "advice", advice);
    set_member(&mut r, "evidence_summary", JsonValue::Array(summary_items));
    set_member(&mut r, "quality", quality);
    let ghost r1 = r;
    if premium {
        let mut strategy = three_member_text(
            "title",
            "Stratégie de semaine",
            "text",
            "Utilisez les créneaux utiles pour agir court et gardez de l'air dans les moments plus sensibles.",
            "best_use",
            "Réserver les appuis aux échanges utiles, aux preuves concrètes et aux décisions réversibles.",
        );
        let mut keys: Vec<JsonValue> = Vec::new();
        keys.push(json_clone(key));
        set_member(&mut strategy, "recovery", JsonValue::Str("Préserver des temps de recul après les moments plus réactifs.".to_owned()));
        set_member(&mut strategy, "evidence_keys", JsonValue::Array(keys));
        set_member(&mut r, "best_windows", best_windows);
        set_member(&mut r, "watch_windows", watch_windows);
        set_member(&mut r, "strategy", strategy);
    }
    proof {
        assert forall|k: Seq<char>| !is_writer_reading_field(k, premium) implies #[trigger] json_get(r, k) is None by {
            assert(json_get(r0, k) is None);
            assert(json_get(r1, k) is None);
        }
    }
    r
}

/// The reading a fake writer gives a writer request, its shape repaired: refused where the
/// request lists no evidence (`HOROSCOPE_PERIOD_EVIDENCE_MISSING`); for the free offer, the
/// compact reading of `writer_free_reading`; for the paid offers, refused where the semantic
/// brief has no daily signal summary (`HOROSCOPE_PERIOD_TIMELINE_MISSING`), else the reading of
/// `writer_paid_reading`. The premium windows are given, as the window markers build them.
pub fn fake_period_writer_response_from_writer_request(
    request: &JsonValue,
    themes: &Vec<JsonValue>,
    tones: &Vec<JsonValue>,
    best_windows: JsonValue,
    watch_windows: JsonValue,
) -> (r: Result<JsonValue, GenerationError>)
    ensures
        writer_primary(*request) is None ==> (r matches Err(e) && err_code(e) == "HOROSCOPE_PERIOD_EVIDENCE_MISSING"@),
        writer_primary(*request) matches Some(primary) ==> {
            let svc = crate::period_repair::request_service(*request);
            if crate::service_codes::free_period_service(svc) {
                r matches Ok(v) && exists|pre: JsonValue|
                    writer_free_reading(*request, themes@, tones@, primary, pre) && #[trigger] crate::period_repair::repaired(
                        *request,
                        pre,
                        v,
                    )
            } else if brief_list(*request, "daily_signal_summary"@) is None {
                r matches Err(e) && err_code(e) == "HOROSCOPE_PERIOD_TIMELINE_MISSING"@
            } else {
                r matches Ok(v) && exists|pre: JsonValue|
                    writer_paid_reading(*request, themes@, tones@, best_windows, watch_windows, primary, pre)
                        && #[trigger] crate::period_repair::repaired(*request, pre, v)
            }
        },
{
    let service = match request.field_str("service_code") {
        Some(s) => s,
        None => crate::service_codes::HOROSCOPE_BASIC_NEXT_7_DAYS_NATAL_SERVICE_CODE,
    };
    let evidence = match request.field_arr("evidence") {
        Some(e) => e,
        None => {
            return Err(horoscope_error("HOROSCOPE_PERIOD_EVIDENCE_MISSING"));
        },
    };
    if evidence.len() == 0 {
        return Err(horoscope_error("HOROSCOPE_PERIOD_EVIDENCE_MISSING"));
    }
    let primary = &evidence[0];
    if crate::service_codes::is_free_period_service(service) {
        let mut response = writer_free_reading_of(request, themes, tones, primary, evidence, service);
        let ghost pre = response;
        crate::period_repair::repair_period_response_shape_v2(request, &mut response);
        return Ok(response);
    }
    let days = match brief_list_of(request, "daily_signal_summary") {
        Some(d) => d,
        None => {
            return Err(horoscope_error("HOROSCOPE_PERIOD_TIMELINE_MISSING"));
        },
    };
    let mut response = writer_paid_reading_of(request, themes, tones, best_windows, watch_windows, primary, evidence, days, service);
    let ghost pre = response;
    crate::period_repair::repair_period_response_shape_v2(request, &mut response);
    Ok(response)
}

// ---------------------------------------------------------------------------------------------
// The reading a fake writer gives for a request with daily plans
// ---------------------------------------------------------------------------------------------

/// A day of the timeline made from a daily plan: its date, its day label (else the label of
/// its date), its theme label (else the public label of its theme code, `organization` by
/// default), the public label of its tone (`focused` by default), its text where not blank
/// (else a text on its day label), its advice (else a fixed one), and its evidence keys.
pub open spec fn plan_timeline_item(day: JsonValue, themes: Seq<JsonValue>, tones: Seq<JsonValue>, item: JsonValue) -> bool {
    let date = text_or(field_str(day, "date"@), seq![]);
    let label = text_or(field_str(day, "day_label"@), day_label(date));
    let theme = text_or(field_str(day, "theme_code"@), "organization"@);
    &&& item is Object
    &&& copied(item, "date"@, day, "date"@)
    &&& field_str(item, "day_label"@) == Some(label)
    &&& field_str(item, "theme"@) == Some(text_or(field_str(day, "theme_label"@), theme_field(themes, theme, "public_label"@, theme)))
    &&& field_str(item, "tone"@) == Some(tone_label(tones, text_or(field_str(day, "tone"@), "focused"@)))
    &&& field_str(item, "text"@) == Some(
        text_or(nonblank_text(field_str(day, "text"@)), label + " sert de repère pour avancer sans surcharger la journée."@),
    )
    &&& field_str(item, "advice"@) == Some(text_or(field_str(day, "advice"@), "Gardez un geste simple et vérifiable."@))
    &&& copied(item, "evidence_keys"@, day, "evidence_keys"@)
}

fn plan_timeline_item_of(day: &JsonValue, themes: &Vec<JsonValue>, tones: &Vec<JsonValue>) -> (r: JsonValue)
    ensures
        plan_timeline_item(*day, themes@, tones@, r),
{
    proof {
        lemma_timeline_keys();
    }
    let date = match day.field_str("date") {
        Some(d) => d,
        None => "",
    };
    proof {
        reveal_strlit("");
    }
    let label = match day.field_str("day_label") {
        Some(l) => l.to_owned(),
        None => public_day_label(date),
    };
    let theme = match day.field_str("theme_code") {
        Some(t) => t,
        None => "organization",
    };
    let theme_label = match day.field_str("theme_label") {
        Some(t) => t.to_owned(),
        None => period_theme_public_label(theme, themes),
    };
    let tone = match day.field_str("tone") {
        Some(t) => t,
        None => "focused",
    };
    let text = match nonblank_str(day.field_str("text")) {
        Some(t) => t.to_owned(),
        None => {
            let mut t = label.clone();
            t.append(" sert de repère pour avancer sans surcharger la journée.");
            t
        },
    };
    let advice = match day.field_str("advice") {
        Some(a) => a.to_owned(),
        None => "Gardez un geste simple et vérifiable.".to_owned(),
    };
    let mut item = JsonValue::Null;
    set_member(&mut item, "date", member_copy(day, "date"));
    set_member(&mut item, "day_label", JsonValue::Str(label));
    set_member(&mut item, "theme", JsonValue::Str(theme_label));
    set_member(&mut item, "tone", JsonValue::Str(period_tone_public_label(tone, tones)));
    set_member(&mut item, "text", JsonValue::Str(text));
    set_member(&mut item, "advice", JsonValue::Str(advice));
    set_member(&mut item, "evidence_keys", member_copy(day, "evidence_keys"));
    proof {
        let d = text_or(field_str(*day, "date"@), seq![]);
        assert(date@ == d);
        let l = text_or(field_str(*day, "day_label"@), day_label(d));
        assert(field_str(item, "day_label"@) == Some(l));
        assert(field_str(item, "theme"@) == Some(text_or(field_str(*day, "theme_label"@), theme_field(themes@, theme@, "public_label"@, theme@))));
        assert(field_str(item, "tone"@) == Some(tone_label(tones@, text_or(field_str(*day, "tone"@), "focused"@))));
        assert(field_str(item, "text"@) == Some(text_or(nonblank_text(field_str(*day, "text"@)), l + " sert de repère pour avancer sans surcharger la journée."@)));
        assert(copied(item, "evidence_keys"@, *day, "evidence_keys"@));
        assert(copied(item, "date"@, *day, "date"@));
    }
    item
}

/// A domain section made from a planned section: the public label of its domain
/// (`organization` by default), its title (else the domain title), its text (else the domain
/// focus), and its evidence keys.
pub open spec fn plan_domain_section(sec: JsonValue, themes: Seq<JsonValue>, s: JsonValue) -> bool {
    let code = text_or(field_str(sec, "domain"@), "organization"@);
    &&& s is Object
    &&& field_str(s, "domain"@) == Some(theme_field(themes, code, "public_label"@, code))
    &&& field_str(s, "title"@) == Some(text_or(field_str(sec, "title"@), theme_field(themes, code, "domain_title"@, code)))
    &&& field_str(s, "text"@) == Some(text_or(field_str(sec, "text"@), theme_field(themes, code, "domain_focus"@, code)))
    &&& copied(s, "evidence_keys"@, sec, "evidence_keys"@)
}

fn plan_domain_section_of(sec: &JsonValue, themes: &Vec<JsonValue>) -> (r: JsonValue)
    ensures
        plan_domain_section(*sec, themes@, r),
{
    proof {
        lemma_timeline_keys();
    }
    let code = match sec.field_str("domain") {
        Some(c) => c,
        None => "organization",
    };
    let title = match sec.field_str("title") {
        Some(t) => t.to_owned(),
        None => crate::period_labels::period_domain_title(code, themes),
    };
    let text = match sec.field_str("text") {
        Some(t) => t.to_owned(),
        None => crate::period_labels::period_public_theme_field(code, "domain_focus", code, themes),
    };
    let mut s = JsonValue::Null;
    set_member(&mut s, "domain", JsonValue::Str(period_theme_public_label(code, themes)));
    set_member(&mut s, "title", JsonValue::Str(title));
    set_member(&mut s, "text", JsonValue::Str(text));
    set_member(&mut s, "evidence_keys", member_copy(sec, "evidence_keys"));
    s
}

/// An evidence summary entry copied from a request's evidence item: its key, date and human
/// label as they stand.
pub open spec fn plan_summary_entry(item: JsonValue, s: JsonValue) -> bool {
    &&& s is Object
    &&& copied(s, "evidence_key"@, item, "evidence_key"@)
    &&& copied(s, "date"@, item, "date"@)
    &&& copied(s, "label"@, item, "human_label"@)
}

fn plan_lists(
    request: &JsonValue,
    days: &Vec<JsonValue>,
    themes: &Vec<JsonValue>,
    tones: &Vec<JsonValue>,
) -> (r: (Vec<JsonValue>, Vec<JsonValue>, Vec<JsonValue>))
    ensures
        r.0@.len() == days@.len(),
        forall|i: int| 0 <= i < r.0@.len() ==> plan_timeline_item(days@[i], themes@, tones@, #[trigger] r.0@[i]),
        r.1@.len() == items_or_none(field_arr(*request, "domain_sections"@)).len(),
        forall|i: int| 0 <= i < r.1@.len() ==> plan_domain_section(
            items_or_none(field_arr(*request, "domain_sections"@))[i],
            themes@,
            #[trigger] r.1@[i],
        ),
        r.2@.len() == (if items_or_none(field_arr(*request, "evidence"@)).len() < 5 {
            items_or_none(field_arr(*request, "evidence"@)).len()
        } else {
            5
        }),
        forall|i: int| 0 <= i < r.2@.len() ==> plan_summary_entry(items_or_none(field_arr(*request, "evidence"@))[i], #[trigger] r.2@[i]),
{
    let mut timeline: Vec<JsonValue> = Vec::new();
    let n = days.len();
    let mut i: usize = 0;
    while i < n
        invariant
            n == days@.len(),
            i <= n,
            timeline@.len() == i,
            forall|k: int| 0 <= k < i ==> plan_timeline_item(days@[k], themes@, tones@, #[trigger] timeline@[k]),
        decreases n - i,
    {
        timeline.push(plan_timeline_item_of(&days[i], themes, tones));
        i = i + 1;
    }
    let mut sections: Vec<JsonValue> = Vec::new();
    match request.field_arr("domain_sections") {
        Some(ds) => {
            let m = ds.len();
            let mut j: usize = 0;
            while j < m
                invariant
                    m == ds@.len(),
                    j <= m,
                    sections@.len() == j,
                    forall|k: int| 0 <= k < j ==> plan_domain_section(ds@[k], themes@, #[trigger] sections@[k]),
                decreases m - j,
            {
                sections.push(plan_domain_section_of(&ds[j], themes));
                j = j + 1;
            }
        },
        None => {},
    }
    let mut summary: Vec<JsonValue> = Vec::new();
    match request.field_arr("evidence") {
        Some(es) => {
            let m = es.len();
            let mut j: usize = 0;
            while j < m && j < 5
                invariant
                    m == es@.len(),
                    j <= m,
                    j <= 5,
                    summary@.len() == j,
                    forall|k: int| 0 <= k < j ==> plan_summary_entry(es@[k], #[trigger] summary@[k]),
                decreases m - j,
            {
                let item = &es[j];
                let mut e = JsonValue::Null;
                set_member(&mut e, "evidence_key", member_copy(item, "evidence_key"));
                set_member(&mut e, "date", member_copy(item, "date"));
                set_member(&mut e, "label", member_copy(item, "human_label"));
                proof {
                    lemma_free_keys();
                }
                summary.push(e);
                j = j + 1;
            }
        },
        None => {},
    }
    (timeline, sections, summary)
}

/// A text member of the request's strategy, else a default.
pub open spec fn strategy_text(request: JsonValue, key: Seq<char>, default: Seq<char>) -> Seq<char> {
    text_or(field_str(json_at(request, "strategy"@), key), default)
}

/// The reading (before its shape is repaired) a fake writer gives a request with daily plans:
/// a fixed overview, the request's key, best and watch days and watch summary plan as they
/// stand, one timeline day per daily plan, one section per planned domain section, a fixed
/// advice, the first five evidence items, the quality block of the fake provider with seven
/// days, and, for the premium offer, the request's windows and a strategy drawn from its own.
pub open spec fn plan_reading(request: JsonValue, themes: Seq<JsonValue>, tones: Seq<JsonValue>, r: JsonValue) -> bool {
    let svc = crate::period_repair::request_service(request);
    let premium = crate::service_codes::premium_period_service(svc);
    let days = items_or_none(field_arr(request, "daily_plans"@));
    let secs = items_or_none(field_arr(request, "domain_sections"@));
    let evidence = items_or_none(field_arr(request, "evidence"@));
    &&& r is Object
    &&& field_str(r, "contract_version"@) == Some("horoscope_period_response"@)
    &&& field_str(r, "service_code"@) == Some(svc)
    &&& copied(r, "period_resolution"@, request, "period_resolution"@)
    &&& json_get(r, "week_overview"@) matches Some(w) && field_str(w, "title"@) == Some("Vos 7 prochains jours"@) && field_str(w, "text"@)
        == Some(
        "La période se lit comme une progression continue, avec des repères quotidiens à utiliser sans rigidifier la semaine."@,
    ) && field_str(w, "trajectory"@) == Some("Une trajectoire globale relie les jours, les appuis et les moments de prudence."@)
    &&& copied(r, "key_days"@, request, "key_days"@)
    &&& copied(r, "best_days"@, request, "best_days"@)
    &&& copied(r, "watch_days"@, request, "watch_days"@)
    &&& copied(r, "watch_summary"@, request, "watch_summary_plan"@)
    &&& field_arr(r, "daily_timeline"@) matches Some(t) && t.len() == days.len() && forall|i: int|
        0 <= i < t.len() ==> plan_timeline_item(days[i], themes, tones, #[trigger] t[i])
    &&& field_arr(r, "domain_sections"@) matches Some(ds) && ds.len() == secs.len() && forall|i: int|
        0 <= i < ds.len() ==> plan_domain_section(secs[i], themes, #[trigger] ds[i])
    &&& json_get(r, "advice"@) matches Some(a) && field_str(a, "main"@) == Some(
        "Avancez par étapes courtes et gardez une trace de ce qui évolue d'un jour à l'autre."@,
    ) && field_str(a, "best_use"@) == Some("Réserver les appuis aux échanges utiles et aux décisions réversibles."@) && field_str(
        a,
        "avoid"@,
    ) == Some("Transformer un signal quotidien en certitude définitive."@)
    &&& field_arr(r, "evidence_summary"@) matches Some(es) && es.len() == (if evidence.len() < 5 { evidence.len() } else { 5 })
        && forall|i: int| 0 <= i < es.len() ==> plan_summary_entry(evidence[i], #[trigger] es[i])
    &&& json_get(r, "quality"@) matches Some(q) && crate::period_repair::fake_quality(q, svc, 7)
    &&& premium ==> {
        &&& copied(r, "best_windows"@, request, "best_windows"@)
        &&& copied(r, "watch_windows"@, request, "watch_windows"@)
        &&& json_get(r, "strategy"@) matches Some(st) && field_str(st, "title"@) == Some(
            strategy_text(request, "title"@, "Stratégie de semaine"@),
        ) && field_str(st, "text"@) == Some(
            "Utilisez les créneaux utiles pour agir court et gardez de l'air dans les moments plus sensibles."@,
        ) && field_str(st, "best_use"@) == Some(strategy_text(request, "best_use"@, "Réserver les appuis aux échanges utiles."@))
            && field_str(st, "recovery"@) == Some(
            strategy_text(request, "recovery"@, "Préserver des temps de recul après les moments plus réactifs."@),
        ) && copied(st, "evidence_keys"@, json_at(request, "strategy"@), "evidence_keys"@)
    }
    &&& forall|k: Seq<char>| !is_writer_reading_field(k, premium) ==> #[trigger] json_get(r, k) is None
}

fn strategy_text_of(request: &JsonValue, key: &str, default: &str) -> (r: String)
    ensures
        r@ == strategy_text(*request, key@, default@),
{
    match request.get("strategy") {
        Some(st) => match st.field_str(key) {
            Some(t) => t.to_owned(),
            None => default.to_owned(),
        },
        None => default.to_owned(),
    }
}

fn plan_reading_of(request: &JsonValue, days: &Vec<JsonValue>, themes: &Vec<JsonValue>, tones: &Vec<JsonValue>, service: &str) -> (r:
    JsonValue)
    requires
        field_arr(*request, "daily_plans"@) == Some(days@),
        service@ == crate::period_repair::request_service(*request),
    ensures
        plan_reading(*request, themes@, tones@, r),
{
    proof {
        lemma_reading_keys();
        lemma_free_keys();
    }
    let premium = crate::service_codes::is_premium_period_service(service);
    let (timeline, sections, summary) = plan_lists(request, days, themes, tones);
    let overview = three_member_text(
        "title",
        "Vos 7 prochains jours",
        "text",
        "La période se lit comme une progression continue, avec des repères quotidiens à utiliser sans rigidifier la semaine.",
        "trajectory",
        "Une trajectoire globale relie les jours, les appuis et les moments de prudence.",
    );
    let advice = three_member_text(
        "main",
        "Avancez par étapes courtes et gardez une trace de ce qui évolue d'un jour à l'autre.",
        "best_use",
        "Réserver les appuis aux échanges utiles et aux décisions réversibles.",
        "avoid",
        "Transformer un signal quotidien en certitude définitive.",
    );
    let quality = crate::period_repair::quality_v2(service, request, 7);
    let mut r = JsonValue::Null;
    let ghost r0 = r;
    set_member(&mut r, "contract_version", JsonValue::Str("horoscope_period_response".to_owned()));
    set_member(&mut r, "service_code", JsonValue::Str(service.to_owned()));
    set_member(&mut r, "period_resolution", member_copy(request, "period_resolution"));
    set_member(&mut r, "week_overview", overview);
    set_member(&mut r, "key_days", member_copy(request, "key_days"));
    set_member(&mut r, "best_days", member_copy(request, "best_days"));
    set_member(&mut r, "watch_days", member_copy(request, "watch_days"));
    set_member(&mut r, "watch_summary", member_copy(request, "watch_summary_plan"));
    set_member(&mut r, "daily_timeline", JsonValue::Array(timeline));
    set_member(&mut r, "domain_sections", JsonValue::Array(sections));
    set_member(&mut r, "advice", advice);
    set_member(&mut r, "evidence_summary", JsonValue::Array(summary));
    set_member(&mut r, "quality", quality);
    let ghost r1 = r;
    if premium {
        let title = strategy_text_of(request, "title", "Stratégie de semaine");
        let best_use = strategy_text_of(request, "best_use", "Réserver les appuis aux échanges utiles.");
        let recovery = strategy_text_of(request, "recovery", "Préserver des temps de recul après les moments plus réactifs.");
        let keys = match request.get("strategy") {
            Some(st) => member_copy(st, "evidence_keys"),
            None => JsonValue::Null,
        };
        let mut strategy = JsonValue::Null;
        set_member(&mut strategy, "title", JsonValue::Str(title));
        set_member(
            &mut strategy,
            "text",
            JsonValue::Str("Utilisez les créneaux utiles pour agir court et gardez de l'air dans les moments plus sensibles.".to_owned()),
        );
        set_member(&mut strategy, "best_use", JsonValue::Str(best_use));
        set_member(&mut strategy, "recovery", JsonValue::Str(recovery));
        set_member(&mut strategy, "evidence_keys", keys);
        set_member(&mut r, "best_windows", member_copy(request, "best_windows"));
        set_member(&mut r, "watch_windows", member_copy(request, "watch_windows"));
        set_member(&mut r, "strategy", strategy);
    }
    proof {
        assert forall|k: Seq<char>| !is_writer_reading_field(k, premium) implies #[trigger] json_get(r, k) is None by {
            assert(json_get(r0, k) is None);
            assert(json_get(r1, k) is None);
        }
    }
    r
}

/// The reading a fake writer gives a request: for a writer request, that of
/// `fake_period_writer_response_from_writer_request`; for the free offer, that of
/// `fake_free_period_writer_response`; else, refused where the request has no daily plans
/// (`HOROSCOPE_PERIOD_TIMELINE_MISSING`), and otherwise the reading of `plan_reading`, its
/// shape repaired.
pub fn fake_period_writer_response(
    request: &JsonValue,
    themes: &Vec<JsonValue>,
    tones: &Vec<JsonValue>,
    best_windows: JsonValue,
    watch_windows: JsonValue,
) -> (r: Result<JsonValue, GenerationError>)
    ensures
        crate::period_metadata::writer_request(*request) ==> {
            &&& writer_primary(*request) is None ==> (r matches Err(e) && err_code(e) == "HOROSCOPE_PERIOD_EVIDENCE_MISSING"@)
            &&& writer_primary(*request) matches Some(primary) ==> {
                let svc = crate::period_repair::request_service(*request);
                if crate::service_codes::free_period_service(svc) {
                    r matches Ok(v) && exists|pre: JsonValue|
                        writer_free_reading(*request, themes@, tones@, primary, pre) && #[trigger] crate::period_repair::repaired(
                            *request,
                            pre,
                            v,
                        )
                } else if brief_list(*request, "daily_signal_summary"@) is None {
                    r matches Err(e) && err_code(e) == "HOROSCOPE_PERIOD_TIMELINE_MISSING"@
                } else {
                    r matches Ok(v) && exists|pre: JsonValue|
                        writer_paid_reading(*request, themes@, tones@, best_windows, watch_windows, primary, pre)
                            && #[trigger] crate::period_repair::repaired(*request, pre, v)
                }
            }
        },
        !crate::period_metadata::writer_request(*request) && crate::period_metadata::free_period_request(*request) ==> match r {
            Ok(v) => field_arr(*request, "evidence"@) matches Some(e) && e.len() > 0 && free_reading(*request, themes@, v),
            Err(e) => err_code(e) == "HOROSCOPE_PERIOD_FREE_EVIDENCE_MISSING"@ && !(field_arr(*request, "evidence"@) matches Some(
                e,
            ) && e.len() > 0),
        },
        !crate::period_metadata::writer_request(*request) && !crate::period_metadata::free_period_request(*request) ==> {
            &&& field_arr(*request, "daily_plans"@) is None ==> (r matches Err(e) && err_code(e) == "HOROSCOPE_PERIOD_TIMELINE_MISSING"@)
            &&& field_arr(*request, "daily_plans"@) is Some ==> (r matches Ok(v) && exists|pre: JsonValue|
                plan_reading(*request, themes@, tones@, pre) && #[trigger] crate::period_repair::repaired(*request, pre, v))
        },
{
    if crate::period_metadata::is_period_writer_request(request) {
        return fake_period_writer_response_from_writer_request(request, themes, tones, best_windows, watch_windows);
    }
    if crate::period_metadata::is_free_period_request(request) {
        return fake_free_period_writer_response(request, themes);
    }
    let days = match request.field_arr("daily_plans") {
        Some(d) => d,
        None => {
            return Err(horoscope_error("HOROSCOPE_PERIOD_TIMELINE_MISSING"));
        },
    };
    let service = match request.field_str("service_code") {
        Some(s) => s,
        None => crate::service_codes::HOROSCOPE_BASIC_NEXT_7_DAYS_NATAL_SERVICE_CODE,
    };
    let mut response = plan_reading_of(request, days, themes, tones, service);
    let ghost pre = response;
    crate::period_repair::repair_period_response_shape(request, &mut response);
    Ok(response)
}

} // verus!
