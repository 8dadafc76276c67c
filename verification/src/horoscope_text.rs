//! Text rules of the daily horoscope slots: normalised comparison of texts, the evidence a slot
//! may cite, technical codes that may not leak, and slots that repeat each other.
use vstd::prelude::*;

use crate::error::{GenerationError, detail_strs, fail_if, first_failure, horoscope_error, outcome, quality_error};
use crate::json::{JsonEntry, JsonValue, field_arr, field_str, json_at, json_str};
use crate::keywords::{first_n, first_seen, first_seen_upto};
use crate::period_payload::{join, join_strings, str_or_empty, views};
use crate::period_quality::{lines, path_texts};
use crate::period_validators::{collect_path_texts, find_phrase, path_views};
use crate::public_request::{utf8_len, utf8_len_exceeds};
use crate::quality::{contains_any, holds_any};
use crate::semantic_brief::{collect_strings, items_or_empty, strings_in};
use crate::text::{
    chars_of, contains, is_alphanumeric, is_blank, is_whitespace, is_ws, lowercase_of, split_words_chars,
    str_contains, str_equal, str_is_blank, string_list_contains, string_views, to_lowercase, trim, trim_str,
    unicode_alphanumeric, words,
};

verus! {

// ---------------------------------------------------------------------------------------------
// Normalised text
// ---------------------------------------------------------------------------------------------

/// A character kept by normalisation, or a space in its place.
pub open spec fn keep_or_space(c: char) -> char {
    if unicode_alphanumeric(c) || is_ws(c) {
        c
    } else {
        ' '
    }
}

/// Every character kept by normalisation, or a space in its place.
pub open spec fn keep_chars(s: Seq<char>) -> Seq<char> {
    s.map_values(|c: char| keep_or_space(c))
}

/// The normalised words of a text: the words of the lower-cased text once every character
/// that is neither alphanumeric nor whitespace is turned into a space.
pub open spec fn normalized_words(text: Seq<char>) -> Seq<Seq<char>> {
    words(keep_chars(lowercase_of(text)))
}

/// The normalised form of a text: its normalised words joined by single spaces.
pub open spec fn normalized(text: Seq<char>) -> Seq<char> {
    join(normalized_words(text), " "@)
}

fn normalized_word_list(text: &str) -> (r: Vec<String>)
    ensures
        string_views(r@) == normalized_words(text@),
{
    let lower = to_lowercase(text);
    let cs = chars_of(lower.as_str());
    let n = cs.len();
    let mut mapped: Vec<char> = Vec::new();
    let mut i: usize = 0;
    while i < n
        invariant
            n == cs@.len(),
            cs@ == lowercase_of(text@),
            i <= n,
            mapped@ == keep_chars(cs@.take(i as int)),
        decreases n - i,
    {
        let c = cs[i];
        let kept = if is_alphanumeric(c) || is_whitespace(c) {
            c
        } else {
            ' '
        };
        let ghost prev = mapped@;
        mapped.push(kept);
        assert(cs@.take(i + 1) =~= cs@.take(i as int).push(c));
        assert(keep_chars(cs@.take(i + 1)) =~= keep_chars(cs@.take(i as int)).push(keep_or_space(c)));
        assert(mapped@ =~= prev.push(kept));
        i = i + 1;
    }
    assert(cs@.take(n as int) =~= cs@);
    assert(mapped@ == keep_chars(lowercase_of(text@)));
    split_words_chars(&mapped)
}

/// The normalised form of a text.
pub fn normalized_text(text: &str) -> (r: String)
    ensures
        r@ == normalized(text@),
{
    let ws = normalized_word_list(text);
    join_strings(&ws, " ")
}

/// The first `count` normalised words of a text.
pub fn first_words(text: &str, count: usize) -> (r: Vec<String>)
    ensures
        string_views(r@) == first_n(normalized_words(text@), count as nat),
{
    let ws = normalized_word_list(text);
    let n = ws.len();
    let mut out: Vec<String> = Vec::new();
    let mut i: usize = 0;
    while i < n && i < count
        invariant
            n == ws@.len(),
            i <= n,
            i <= count,
            string_views(out@) == string_views(ws@).take(i as int),
        decreases n - i,
    {
        let ghost prev = string_views(out@);
        out.push(ws[i].clone());
        assert(string_views(out@) =~= prev.push(ws@[i as int]@));
        assert(string_views(ws@).take(i + 1) =~= string_views(ws@).take(i as int).push(ws@[i as int]@));
        i = i + 1;
    }
    if i == n {
        assert(string_views(ws@).take(n as int) =~= string_views(ws@));
    }
    out
}

/// The short French words that carry no meaning of their own.
pub open spec fn stopwords() -> Seq<Seq<char>> {
    seq![
        "le"@, "la"@, "les"@, "un"@, "une"@, "des"@, "de"@, "du"@, "et"@, "ou"@, "a"@, "à"@, "ce"@,
        "c"@, "est"@, "sur"@, "pour"@, "plus"@, "dans"@, "avec"@, "sans"@, "du"@, "au"@, "aux"@, "en"@,
    ]
}

/// A word that carries meaning: longer than two bytes and no stopword.
pub open spec fn meaningful(w: Seq<char>) -> bool {
    utf8_len(w) > 2 && !stopwords().contains(w)
}

/// The meaningful words of a list, in order.
pub open spec fn meaningful_of(ws: Seq<Seq<char>>) -> Seq<Seq<char>>
    decreases ws.len(),
{
    if ws.len() == 0 {
        seq![]
    } else if meaningful(ws.last()) {
        meaningful_of(ws.drop_last()).push(ws.last())
    } else {
        meaningful_of(ws.drop_last())
    }
}

/// The set of meaningful normalised words of a text, each once in the order first met.
pub open spec fn meaningful_set(text: Seq<char>) -> Seq<Seq<char>> {
    first_seen(meaningful_of(normalized_words(text)), false)
}

/// The meaningful normalised words of a text, each once in the order first met.
pub fn meaningful_words(text: &str) -> (r: Vec<String>)
    ensures
        string_views(r@) == meaningful_set(text@),
{
    let ws = normalized_word_list(text);
    let stop = [
        "le", "la", "les", "un", "une", "des", "de", "du", "et", "ou", "a", "à", "ce", "c", "est", "sur",
        "pour", "plus", "dans", "avec", "sans", "du", "au", "aux", "en",
    ];
    assert(views(stop@) =~= stopwords());
    let n = ws.len();
    let mut kept: Vec<String> = Vec::new();
    let mut i: usize = 0;
    while i < n
        invariant
            n == ws@.len(),
            i <= n,
            views(stop@) == stopwords(),
            string_views(kept@) == meaningful_of(string_views(ws@).take(i as int)),
        decreases n - i,
    {
        proof {
            assert(string_views(ws@).take(i + 1).drop_last() =~= string_views(ws@).take(i as int));
            assert(string_views(ws@).take(i + 1).last() == ws@[i as int]@);
        }
        let w = ws[i].as_str();
        if utf8_len_exceeds(w, 2) && !is_stopword(w, &stop) {
            let ghost prev = string_views(kept@);
            kept.push(ws[i].clone());
            assert(string_views(kept@) =~= prev.push(ws@[i as int]@));
        }
        i = i + 1;
    }
    assert(string_views(ws@).take(n as int) =~= string_views(ws@));
    proof {
        crate::keywords::lemma_first_seen_len(string_views(kept@), false);
    }
    first_seen_upto(&kept, false, kept.len())
}

fn is_stopword(w: &str, stop: &[&str]) -> (r: bool)
    ensures
        r == views(stop@).contains(w@),
{
    let n = stop.len();
    let mut k: usize = 0;
    while k < n
        invariant
            n == stop@.len(),
            k <= n,
            forall|j: int| 0 <= j < k ==> views(stop@)[j] != w@,
        decreases n - k,
    {
        if str_equal(w, stop[k]) {
            assert(views(stop@)[k as int] == w@);
            return true;
        }
        k = k + 1;
    }
    false
}

// ---------------------------------------------------------------------------------------------
// Slots
// ---------------------------------------------------------------------------------------------

/// A shared slot that still sets itself apart: a tone, an intensity, an advice axis, a watch
/// point, or a non-empty list of uses.
pub open spec fn has_differentiator(slot: JsonValue) -> bool {
    ||| field_str(slot, "tone"@) is Some
    ||| field_str(slot, "intensity"@) is Some
    ||| field_str(slot, "advice_axis"@) is Some
    ||| field_str(slot, "watch_point"@) is Some
    ||| (field_arr(slot, "best_for"@) matches Some(items) && items.len() > 0)
}

/// The check of a slot's specificity against the evidence it requires.
pub open spec fn slot_specificity_check(slot: JsonValue) -> Option<Seq<char>> {
    match field_str(slot, "specificity"@) {
        None => Some("HOROSCOPE_RESPONSE_INVALID"@),
        Some(sp) => match field_arr(slot, "required_evidence_keys"@) {
            None => Some("HOROSCOPE_RESPONSE_INVALID"@),
            Some(required) => if sp == "specific"@ {
                fail_if(required.len() == 0, "HOROSCOPE_SLOT_EVIDENCE_MISSING"@)
            } else if sp == "shared"@ {
                if required.len() == 0 {
                    Some("HOROSCOPE_SLOT_EVIDENCE_MISSING"@)
                } else {
                    fail_if(!has_differentiator(slot), "HOROSCOPE_SLOT_THEME_DUPLICATED"@)
                }
            } else if sp == "fallback"@ {
                fail_if(
                    required.len() > 0 || is_blank(str_or_empty(field_str(slot, "fallback_reason"@))),
                    "HOROSCOPE_SLOT_FALLBACK_INVALID"@,
                )
            } else {
                Some("HOROSCOPE_RESPONSE_INVALID"@)
            },
        },
    }
}

/// Refuses a slot whose specificity is unknown or does not fit the evidence it requires: a
/// specific or shared slot needs evidence, a shared one something that sets it apart, and a
/// fallback slot no evidence but a reason.
pub fn validate_slot_specificity(slot: &JsonValue) -> (r: Result<(), GenerationError>)
    ensures
        outcome(r) == slot_specificity_check(*slot),
{
    let specificity = match slot.field_str("specificity") {
        Some(s) => s,
        None => {
            return Err(horoscope_error("HOROSCOPE_RESPONSE_INVALID"));
        },
    };
    let required = match slot.field_arr("required_evidence_keys") {
        Some(r) => r,
        None => {
            return Err(horoscope_error("HOROSCOPE_RESPONSE_INVALID"));
        },
    };
    if str_equal(specificity, "specific") {
        if required.len() == 0 {
            return Err(quality_error(
                "HOROSCOPE_SLOT_EVIDENCE_MISSING",
                detail_strs(&[("reason", "specific_without_required_evidence")]),
            ));
        }
    } else if str_equal(specificity, "shared") {
        if required.len() == 0 {
            return Err(quality_error(
                "HOROSCOPE_SLOT_EVIDENCE_MISSING",
                detail_strs(&[("reason", "shared_without_required_evidence")]),
            ));
        }
        let has_best_for = match slot.field_arr("best_for") {
            Some(items) => items.len() > 0,
            None => false,
        };
        let differentiated = slot.field_str("tone").is_some() || slot.field_str("intensity").is_some()
            || slot.field_str("advice_axis").is_some() || slot.field_str("watch_point").is_some() || has_best_for;
        if !differentiated {
            return Err(quality_error(
                "HOROSCOPE_SLOT_THEME_DUPLICATED",
                detail_strs(&[("reason", "shared_without_differentiator")]),
            ));
        }
    } else if str_equal(specificity, "fallback") {
        let reason_blank = match slot.field_str("fallback_reason") {
            Some(t) => str_is_blank(t),
            None => {
                proof {
                    reveal_strlit("");
                    assert(is_blank(Seq::<char>::empty()));
                }
                true
            },
        };
        if required.len() > 0 || reason_blank {
            return Err(quality_error(
                "HOROSCOPE_SLOT_FALLBACK_INVALID",
                detail_strs(&[("reason", "fallback_requires_empty_evidence_and_reason")]),
            ));
        }
    } else {
        return Err(horoscope_error("HOROSCOPE_RESPONSE_INVALID"));
    }
    Ok(())
}

/// A slot that cites a string key its plan does not require (a fallback slot cites freely).
pub open spec fn slot_evidence_misaligned(request_slot: JsonValue, response_keys: Seq<JsonValue>) -> bool {
    let required = strings_in(items_or_empty(field_arr(request_slot, "required_evidence_keys"@)));
    &&& field_str(request_slot, "specificity"@) != Some("fallback"@)
    &&& exists|i: int|
        0 <= i < response_keys.len() && (json_str(#[trigger] response_keys[i]) matches Some(k) && !required.contains(k))
}

/// Refuses a slot that cites evidence its plan does not require, unless the plan marks it as a
/// fallback.
pub fn validate_slot_evidence_alignment(request_slot: &JsonValue, response_keys: &Vec<JsonValue>) -> (r: Result<
    (),
    GenerationError,
>)
    ensures
        outcome(r) == fail_if(slot_evidence_misaligned(*request_slot, response_keys@), "HOROSCOPE_EVIDENCE_MISMATCH"@),
{
    let required = collect_strings(request_slot.field_arr("required_evidence_keys"));
    let fallback = match request_slot.field_str("specificity") {
        Some(s) => str_equal(s, "fallback"),
        None => false,
    };
    if fallback {
        return Ok(());
    }
    let n = response_keys.len();
    let mut i: usize = 0;
    while i < n
        invariant
            n == response_keys@.len(),
            i <= n,
            string_views(required@) == strings_in(items_or_empty(field_arr(*request_slot, "required_evidence_keys"@))),
            field_str(*request_slot, "specificity"@) != Some("fallback"@),
            forall|j: int|
                0 <= j < i ==> !(json_str(#[trigger] response_keys@[j]) matches Some(k) && !string_views(required@).contains(k)),
        decreases n - i,
    {
        match response_keys[i].as_str() {
            Some(k) => {
                if !string_list_contains(&required, k) {
                    assert(json_str(response_keys@[i as int]) == Some(k@));
                    assert(slot_evidence_misaligned(*request_slot, response_keys@));
                    return Err(quality_error(
                        "HOROSCOPE_EVIDENCE_MISMATCH",
                        detail_strs(&[("reason", "slot_uses_unplanned_evidence"), ("evidence_key", k)]),
                    ));
                }
            },
            None => {},
        }
        i = i + 1;
    }
    Ok(())
}

// ---------------------------------------------------------------------------------------------
// Public text
// ---------------------------------------------------------------------------------------------

/// The slot codes and technical markers that the public text may not show.
pub open spec fn technical_code_terms() -> Seq<Seq<char>> {
    seq![
        "[morning]"@, "[afternoon]"@, "[evening]"@, "[day]"@, "slot:morning"@, "slot:afternoon"@,
        "slot:evening"@, "slot:day"@, "slot technique"@, "slot_code"@, "slot_"@, "avoid_"@,
    ]
}

/// The check of a public text for technical codes: first the markers in the lower-cased text,
/// then the bare word `day` among its normalised words.
pub open spec fn technical_codes_check(public_text: Seq<char>) -> Option<Seq<char>> {
    fail_if(
        holds_any(lowercase_of(public_text), technical_code_terms()) || normalized_words(public_text).contains("day"@),
        "HOROSCOPE_PUBLIC_SLOT_CODE_LEAK"@,
    )
}

/// Refuses a public text that shows a slot code or a technical marker.
pub fn validate_public_text_no_technical_codes(public_text: &str) -> (r: Result<(), GenerationError>)
    ensures
        outcome(r) == technical_codes_check(public_text@),
{
    let lower = to_lowercase(public_text);
    let terms = [
        "[morning]", "[afternoon]", "[evening]", "[day]", "slot:morning", "slot:afternoon", "slot:evening",
        "slot:day", "slot technique", "slot_code", "slot_", "avoid_",
    ];
    assert(views(terms@) =~= technical_code_terms());
    match find_phrase(lower.as_str(), &terms) {
        Some(k) => {
            assert(contains(lowercase_of(public_text@), technical_code_terms()[k as int]));
            return Err(quality_error("HOROSCOPE_PUBLIC_SLOT_CODE_LEAK", detail_strs(&[("forbidden", terms[k])])));
        },
        None => {},
    }
    let ws = normalized_word_list(public_text);
    if string_list_contains(&ws, "day") {
        return Err(quality_error("HOROSCOPE_PUBLIC_SLOT_CODE_LEAK", detail_strs(&[("forbidden", "day")])));
    }
    Ok(())
}

/// The words that show a text speaks of the sky.
pub open spec fn astro_terms() -> Seq<Seq<char>> {
    seq![
        "lune"@, "mars"@, "vénus"@, "venus"@, "mercure"@, "aspect"@, "maison"@, "transit"@,
        "astrologique"@, "natal"@,
    ]
}

/// A slot text that names nothing of the sky, unless its plan marks it as a fallback.
pub open spec fn astro_reference_missing(text: Seq<char>, request_slot: JsonValue) -> bool {
    field_str(request_slot, "specificity"@) != Some("fallback"@) && !holds_any(lowercase_of(text), astro_terms())
}

/// Refuses a slot text that names nothing of the sky, unless its plan marks it as a fallback;
/// the detail names the slot.
pub fn validate_astrological_reference(slot_code: &str, text: &str, request_slot: &JsonValue) -> (r: Result<
    (),
    GenerationError,
>)
    ensures
        outcome(r) == fail_if(astro_reference_missing(text@, *request_slot), "HOROSCOPE_SLOT_ASTRO_REFERENCE_MISSING"@),
{
    let fallback = match request_slot.field_str("specificity") {
        Some(s) => str_equal(s, "fallback"),
        None => false,
    };
    if fallback {
        return Ok(());
    }
    let lower = to_lowercase(text);
    let terms = [
        "lune", "mars", "vénus", "venus", "mercure", "aspect", "maison", "transit", "astrologique", "natal",
    ];
    assert(views(terms@) =~= astro_terms());
    if contains_any(lower.as_str(), &terms) {
        Ok(())
    } else {
        Err(quality_error("HOROSCOPE_SLOT_ASTRO_REFERENCE_MISSING", detail_strs(&[("slot_code", slot_code)])))
    }
}

/// The overview hint of a daily request, trimmed (empty where there is none).
pub open spec fn overview_hint(request: JsonValue) -> Seq<char> {
    trim(str_or_empty(field_str(json_at(request, "day_overview"@), "summary_hint"@)))
}

/// A slot whose normalised text holds the normalised overview hint of the day.
pub open spec fn overview_copied(request: JsonValue, slots: Seq<JsonValue>) -> bool {
    &&& overview_hint(request).len() > 0
    &&& exists|i: int|
        0 <= i < slots.len() && contains(
            normalized(str_or_empty(field_str(#[trigger] slots[i], "text"@))),
            normalized(overview_hint(request)),
        )
}

/// Refuses slots that copy the day's overview hint.
pub fn validate_day_overview_not_copied(request: &JsonValue, response_slots: &Vec<JsonValue>) -> (r: Result<
    (),
    GenerationError,
>)
    ensures
        outcome(r) == fail_if(overview_copied(*request, response_slots@), "HOROSCOPE_SLOT_REPETITION_FAILED"@),
{
    proof {
        reveal_strlit("");
    }
    let hint = match request.get("day_overview") {
        Some(o) => match o.field_str("summary_hint") {
            Some(h) => h,
            None => "",
        },
        None => "",
    };
    assert(hint@ == str_or_empty(field_str(json_at(*request, "day_overview"@), "summary_hint"@)));
    let overview = trim_str(hint);
    if chars_of(overview.as_str()).len() == 0 {
        return Ok(());
    }
    let target = normalized_text(overview.as_str());
    let n = response_slots.len();
    let mut i: usize = 0;
    while i < n
        invariant
            n == response_slots@.len(),
            i <= n,
            overview@ == overview_hint(*request),
            overview@.len() > 0,
            target@ == normalized(overview@),
            forall|j: int|
                0 <= j < i ==> !contains(
                    normalized(str_or_empty(field_str(#[trigger] response_slots@[j], "text"@))),
                    normalized(overview_hint(*request)),
                ),
        decreases n - i,
    {
        proof {
            reveal_strlit("");
        }
        let text = match response_slots[i].field_str("text") {
            Some(t) => t,
            None => "",
        };
        assert(text@ == str_or_empty(field_str(response_slots@[i as int], "text"@)));
        let normal = normalized_text(text);
        if str_contains(normal.as_str(), target.as_str()) {
            return Err(quality_error(
                "HOROSCOPE_SLOT_REPETITION_FAILED",
                detail_strs(&[("reason", "day_overview_copied_into_slot")]),
            ));
        }
        i = i + 1;
    }
    Ok(())
}

// ---------------------------------------------------------------------------------------------
// Slots that repeat each other
// ---------------------------------------------------------------------------------------------

/// The number of texts of `a` that `b` holds.
pub open spec fn shared_count(a: Seq<Seq<char>>, b: Seq<Seq<char>>) -> nat
    decreases a.len(),
{
    if a.len() == 0 {
        0
    } else {
        shared_count(a.drop_last(), b) + if b.contains(a.last()) { 1nat } else { 0nat }
    }
}

/// Two texts whose meaningful words overlap by more than three fifths of the smaller set (of
/// at least one).
pub open spec fn overlap_too_high(a: Seq<char>, b: Seq<char>) -> bool {
    let x = meaningful_set(a);
    let y = meaningful_set(b);
    let smaller = if x.len() < y.len() { x.len() } else { y.len() };
    let denom = if smaller < 1 { 1 } else { smaller };
    5 * shared_count(x, y) > 3 * denom
}

/// Two texts that open on the same three normalised words.
pub open spec fn same_opening(a: Seq<char>, b: Seq<char>) -> bool {
    first_n(normalized_words(a), 3) == first_n(normalized_words(b), 3)
}

/// The check of one pair of slot texts.
pub open spec fn pair_check(a: Seq<char>, b: Seq<char>) -> Option<Seq<char>> {
    fail_if(overlap_too_high(a, b) || same_opening(a, b), "HOROSCOPE_SLOT_REPETITION_FAILED"@)
}

/// Some pair of distinct slots repeats itself.
pub open spec fn slots_repeat(texts: Seq<Seq<char>>) -> bool {
    exists|i: int, j: int| 0 <= i < j < texts.len() && pair_check(#[trigger] texts[i], #[trigger] texts[j]) is Some
}

fn count_shared(a: &Vec<String>, b: &Vec<String>) -> (r: usize)
    ensures
        r as nat == shared_count(string_views(a@), string_views(b@)),
        r <= a@.len(),
{
    let n = a.len();
    let mut count: usize = 0;
    let mut i: usize = 0;
    while i < n
        invariant
            n == a@.len(),
            i <= n,
            count <= i,
            count as nat == shared_count(string_views(a@).take(i as int), string_views(b@)),
        decreases n - i,
    {
        proof {
            assert(string_views(a@).take(i + 1).drop_last() =~= string_views(a@).take(i as int));
            assert(string_views(a@).take(i + 1).last() == a@[i as int]@);
        }
        if string_list_contains(b, a[i].as_str()) {
            count = count + 1;
        }
        i = i + 1;
    }
    assert(string_views(a@).take(n as int) =~= string_views(a@));
    count
}

fn same_string_lists(a: &Vec<String>, b: &Vec<String>) -> (r: bool)
    ensures
        r == (string_views(a@) == string_views(b@)),
{
    if a.len() != b.len() {
        assert(string_views(a@).len() != string_views(b@).len());
        return false;
    }
    let n = a.len();
    let mut i: usize = 0;
    while i < n
        invariant
            n == a@.len(),
            n == b@.len(),
            i <= n,
            forall|j: int| 0 <= j < i ==> a@[j]@ == b@[j]@,
        decreases n - i,
    {
        if !str_equal(a[i].as_str(), b[i].as_str()) {
            assert(string_views(a@)[i as int] != string_views(b@)[i as int]);
            return false;
        }
        i = i + 1;
    }
    assert(string_views(a@) =~= string_views(b@));
    true
}

fn pair_repeats(a: &str, b: &str) -> (r: bool)
    ensures
        r == (pair_check(a@, b@) is Some),
        r ==> (overlap_too_high(a@, b@) || same_opening(a@, b@)),
{
    let x = meaningful_words(a);
    let y = meaningful_words(b);
    let shared = count_shared(&x, &y);
    let smaller = if x.len() < y.len() {
        x.len()
    } else {
        y.len()
    };
    let denom = if smaller < 1 {
        1
    } else {
        smaller
    };
    if (shared as u128) * 5 > (denom as u128) * 3 {
        return true;
    }
    let fa = first_words(a, 3);
    let fb = first_words(b, 3);
    same_string_lists(&fa, &fb)
}

/// Refuses slot texts of which two share too many meaningful words, or open on the same three
/// words.
pub fn validate_slot_diversity(texts: &Vec<String>) -> (r: Result<(), GenerationError>)
    ensures
        outcome(r) == fail_if(slots_repeat(string_views(texts@)), "HOROSCOPE_SLOT_REPETITION_FAILED"@),
{
    let ghost ts = string_views(texts@);
    let n = texts.len();
    let mut i: usize = 0;
    while i < n
        invariant
            n == texts@.len(),
            ts == string_views(texts@),
            i <= n,
            forall|p: int, q: int| 0 <= p < i && p < q < n ==> pair_check(#[trigger] ts[p], #[trigger] ts[q]) is None,
        decreases n - i,
    {
        let mut j: usize = i + 1;
        while j < n
            invariant
                n == texts@.len(),
                ts == string_views(texts@),
                i < n,
                i + 1 <= j <= n,
                forall|p: int, q: int| 0 <= p < i && p < q < n ==> pair_check(#[trigger] ts[p], #[trigger] ts[q]) is None,
                forall|q: int| i < q < j ==> pair_check(ts[i as int], #[trigger] ts[q]) is None,
            decreases n - j,
        {
            if pair_repeats(texts[i].as_str(), texts[j].as_str()) {
                assert(pair_check(ts[i as int], ts[j as int]) is Some);
                let reason = if overlap_words_too_high(texts[i].as_str(), texts[j].as_str()) {
                    "slot_word_overlap_too_high"
                } else {
                    "same_opening_trigram"
                };
                return Err(quality_error("HOROSCOPE_SLOT_REPETITION_FAILED", detail_strs(&[("reason", reason)])));
            }
            j = j + 1;
        }
        i = i + 1;
    }
    Ok(())
}

fn overlap_words_too_high(a: &str, b: &str) -> (r: bool)
    ensures
        r == overlap_too_high(a@, b@),
{
    let x = meaningful_words(a);
    let y = meaningful_words(b);
    let shared = count_shared(&x, &y);
    let smaller = if x.len() < y.len() {
        x.len()
    } else {
        y.len()
    };
    let denom = if smaller < 1 {
        1
    } else {
        smaller
    };
    (shared as u128) * 5 > (denom as u128) * 3
}

/// Some two items share one non-empty normalised form.
pub open spec fn has_duplicate_text(items: Seq<Seq<char>>) -> bool {
    exists|i: int, j: int|
        0 <= i < j < items.len() && normalized(#[trigger] items[i]).len() > 0 && normalized(items[i]) == normalized(
            #[trigger] items[j],
        )
}

/// Refuses a list in which two items read the same once normalised (empty ones aside); the
/// error carries the given code.
pub fn validate_distinct_strings(items: &Vec<String>, code: &str) -> (r: Result<(), GenerationError>)
    ensures
        outcome(r) == fail_if(has_duplicate_text(string_views(items@)), code@),
{
    let ghost its = string_views(items@);
    let n = items.len();
    let mut seen: Vec<String> = Vec::new();
    let mut i: usize = 0;
    while i < n
        invariant
            n == items@.len(),
            its == string_views(items@),
            i <= n,
            forall|p: int, q: int|
                0 <= p < q < i ==> !(normalized(#[trigger] its[p]).len() > 0 && normalized(its[p]) == normalized(
                    #[trigger] its[q],
                )),
            forall|y: Seq<char>|
                #[trigger] string_views(seen@).contains(y) <==> exists|p: int|
                    0 <= p < i && normalized(#[trigger] its[p]).len() > 0 && normalized(its[p]) == y,
        decreases n - i,
    {
        let form = normalized_text(items[i].as_str());
        if chars_of(form.as_str()).len() > 0 {
            if string_list_contains(&seen, form.as_str()) {
                proof {
                    let p = choose|p: int| 0 <= p < i && normalized(its[p]).len() > 0 && normalized(its[p]) == form@;
                    assert(normalized(its[p]) == normalized(its[i as int]));
                }
                return Err(quality_error(code, detail_strs(&[("reason", "duplicate_text")])));
            }
            let ghost prev = string_views(seen@);
            seen.push(form);
            proof {
                assert(string_views(seen@) =~= prev.push(normalized(its[i as int])));
                assert forall|y: Seq<char>|
                    #[trigger] string_views(seen@).contains(y) <==> exists|p: int|
                        0 <= p < i + 1 && normalized(#[trigger] its[p]).len() > 0 && normalized(its[p]) == y by {
                    if y == normalized(its[i as int]) {
                        assert(string_views(seen@)[i as int - i as int + prev.len()] == y);
                    }
                    if prev.contains(y) {
                        let k = choose|k: int| 0 <= k < prev.len() && prev[k] == y;
                        assert(string_views(seen@)[k] == y);
                    }
                    if string_views(seen@).contains(y) {
                        let k = choose|k: int| 0 <= k < string_views(seen@).len() && string_views(seen@)[k] == y;
                        if k < prev.len() {
                            assert(prev[k] == y);
                        }
                    }
                }
            }
        } else {
            proof {
                if form@.len() > 0 {
                    assert(false);
                }
            }
        }
        i = i + 1;
    }
    Ok(())
}

// ---------------------------------------------------------------------------------------------
// The free daily text
// ---------------------------------------------------------------------------------------------

/// Where the public texts of a free daily response stand.
pub open spec fn free_text_paths() -> Seq<Seq<Seq<char>>> {
    seq![seq!["summary"@, "title"@], seq!["summary"@, "text"@], seq!["advice"@], seq!["watch_point"@]]
}

/// The public text of a free daily response: the summary's title and text, the advice and the
/// watch point, each followed by a newline.
pub fn free_public_text(response: &JsonValue) -> (r: String)
    ensures
        r@ == lines(path_texts(*response, free_text_paths())),
{
    let p0 = ["summary", "title"];
    let p1 = ["summary", "text"];
    let p2 = ["advice"];
    let p3 = ["watch_point"];
    let paths: [&[&str]; 4] = [&p0, &p1, &p2, &p3];
    proof {
        assert(path_views(paths@) =~= free_text_paths()) by {
            assert(views(p0@) =~= seq!["summary"@, "title"@]);
            assert(views(p1@) =~= seq!["summary"@, "text"@]);
            assert(views(p2@) =~= seq!["advice"@]);
            assert(views(p3@) =~= seq!["watch_point"@]);
        }
    }
    let texts = collect_path_texts(response, &paths);
    let n = texts.len();
    let mut out = String::new();
    let mut i: usize = 0;
    proof {
        assert(string_views(texts@).take(0) =~= Seq::<Seq<char>>::empty());
        assert(out@ =~= lines(Seq::<Seq<char>>::empty()));
    }
    while i < n
        invariant
            n == texts@.len(),
            i <= n,
            out@ == lines(string_views(texts@).take(i as int)),
        decreases n - i,
    {
        out.append(texts[i].as_str());
        out.append("\n");
        proof {
            reveal_strlit("\n");
            assert(string_views(texts@).take(i + 1).drop_last() =~= string_views(texts@).take(i as int));
            assert(string_views(texts@).take(i + 1).last() == texts@[i as int]@);
            assert(out@ =~= lines(string_views(texts@).take(i + 1)));
        }
        i = i + 1;
    }
    assert(string_views(texts@).take(n as int) =~= string_views(texts@));
    out
}

// ---------------------------------------------------------------------------------------------
// Uses of the best windows
// ---------------------------------------------------------------------------------------------

/// A text placed after every text not above it (an insertion into a sorted list).
pub open spec fn insert_text(s: Seq<Seq<char>>, x: Seq<char>) -> Seq<Seq<char>>
    decreases s.len(),
{
    if s.len() == 0 {
        seq![x]
    } else if crate::keywords::text_lt(x, s.last()) {
        insert_text(s.drop_last(), x).push(s.last())
    } else {
        s.push(x)
    }
}

/// The texts in increasing order, repeats kept (`sort`).
pub open spec fn sort_texts(s: Seq<Seq<char>>) -> Seq<Seq<char>>
    decreases s.len(),
{
    if s.len() == 0 {
        seq![]
    } else {
        insert_text(sort_texts(s.drop_last()), s.last())
    }
}

/// The normalised forms of a list of uses, sorted and joined by `|`.
pub open spec fn uses_key(set: Seq<Seq<char>>) -> Seq<char> {
    crate::period_payload::join(sort_texts(set.map_values(|v: Seq<char>| normalized(v))), "|"@)
}

/// The keys of the lists of uses that are not empty, in order.
pub open spec fn uses_keys(sets: Seq<Seq<Seq<char>>>) -> Seq<Seq<char>>
    decreases sets.len(),
{
    if sets.len() == 0 {
        seq![]
    } else {
        let prev = uses_keys(sets.drop_last());
        if uses_key(sets.last()).len() == 0 {
            prev
        } else {
            prev.push(uses_key(sets.last()))
        }
    }
}

/// Some text occurs twice in a list.
pub open spec fn has_repeat(s: Seq<Seq<char>>) -> bool {
    exists|i: int, j: int| 0 <= i < j < s.len() && #[trigger] s[i] == #[trigger] s[j]
}

fn insert_text_into(out: &mut Vec<String>, x: String)
    ensures
        string_views(final(out)@) == insert_text(string_views(old(out)@), x@),
{
    let ghost xv = x@;
    let ghost orig = string_views(out@);
    let mut k: usize = out.len();
    proof {
        assert(orig.take(k as int) =~= orig);
        assert(orig.skip(k as int) =~= Seq::<Seq<char>>::empty());
    }
    while k > 0
        invariant
            k <= out@.len(),
            string_views(out@) == orig,
            xv == x@,
            insert_text(orig, xv) == insert_text(orig.take(k as int), xv) + orig.skip(k as int),
        ensures
            k <= out@.len(),
            string_views(out@) == orig,
            insert_text(orig, xv) == insert_text(orig.take(k as int), xv) + orig.skip(k as int),
            k > 0 ==> !crate::keywords::text_lt(xv, orig[k - 1]),
        decreases k,
    {
        if !crate::keywords::text_less(x.as_str(), out[k - 1].as_str()) {
            break;
        }
        proof {
            let t = orig.take(k as int);
            assert(t.last() == orig[k - 1]);
            assert(t.drop_last() =~= orig.take(k - 1));
            assert(orig.skip(k - 1) =~= seq![orig[k - 1]] + orig.skip(k as int));
            assert(insert_text(orig.take(k - 1), xv).push(orig[k - 1]) + orig.skip(k as int) =~= insert_text(
                orig.take(k - 1),
                xv,
            ) + orig.skip(k - 1));
        }
        k = k - 1;
    }
    proof {
        let t = orig.take(k as int);
        if k > 0 {
            assert(t.last() == orig[k - 1]);
        } else {
            assert(t.push(xv) =~= seq![xv]);
        }
    }
    out.insert(k, x);
    proof {
        assert(string_views(out@) =~= orig.take(k as int).push(xv) + orig.skip(k as int));
    }
}

fn uses_key_of(set: &Vec<String>) -> (r: String)
    ensures
        r@ == uses_key(string_views(set@)),
{
    let n = set.len();
    let mut sorted: Vec<String> = Vec::new();
    let mut i: usize = 0;
    while i < n
        invariant
            n == set@.len(),
            i <= n,
            string_views(sorted@) == sort_texts(string_views(set@).take(i as int).map_values(|v: Seq<char>| normalized(v))),
        decreases n - i,
    {
        let ghost prev = string_views(set@).take(i as int).map_values(|v: Seq<char>| normalized(v));
        let form = normalized_text(set[i].as_str());
        proof {
            let next = string_views(set@).take(i + 1).map_values(|v: Seq<char>| normalized(v));
            assert(next =~= prev.push(normalized(set@[i as int]@)));
            assert(next.drop_last() =~= prev);
        }
        insert_text_into(&mut sorted, form);
        i = i + 1;
    }
    assert(string_views(set@).take(n as int) =~= string_views(set@));
    crate::period_payload::join_strings(&sorted, "|")
}

/// Refuses uses of best windows of which two non-empty lists hold the same uses once
/// normalised, whatever their order.
pub fn validate_distinct_best_for(items: &[Vec<String>]) -> (r: Result<(), GenerationError>)
    ensures
        outcome(r) == fail_if(
            has_repeat(uses_keys(items@.map_values(|v: Vec<String>| string_views(v@)))),
            "HOROSCOPE_SLOT_THEME_DUPLICATED"@,
        ),
{
    let ghost sets = items@.map_values(|v: Vec<String>| string_views(v@));
    let n = items.len();
    let mut keys: Vec<String> = Vec::new();
    let mut i: usize = 0;
    while i < n
        invariant
            n == items@.len(),
            i <= n,
            sets == items@.map_values(|v: Vec<String>| string_views(v@)),
            string_views(keys@) == uses_keys(sets.take(i as int)),
        decreases n - i,
    {
        let key = uses_key_of(&items[i]);
        proof {
            assert(sets.take(i + 1).drop_last() =~= sets.take(i as int));
            assert(sets.take(i + 1).last() == string_views(items@[i as int]@));
        }
        if chars_of(key.as_str()).len() > 0 {
            let ghost prev = string_views(keys@);
            keys.push(key);
            assert(string_views(keys@) =~= prev.push(uses_key(string_views(items@[i as int]@))));
        }
        i = i + 1;
    }
    assert(sets.take(n as int) =~= sets);
    let ghost ks = string_views(keys@);
    let m = keys.len();
    let mut p: usize = 0;
    while p < m
        invariant
            m == keys@.len(),
            ks == string_views(keys@),
            ks == uses_keys(items@.map_values(|v: Vec<String>| string_views(v@))),
            p <= m,
            forall|a: int, b: int| 0 <= a < p && a < b < m ==> ks[a] != ks[b],
        decreases m - p,
    {
        let mut q: usize = p + 1;
        while q < m
            invariant
                m == keys@.len(),
                ks == string_views(keys@),
                ks == uses_keys(items@.map_values(|v: Vec<String>| string_views(v@))),
                p < m,
                p + 1 <= q <= m,
                forall|a: int, b: int| 0 <= a < p && a < b < m ==> ks[a] != ks[b],
                forall|b: int| p < b < q ==> ks[p as int] != ks[b],
            decreases m - q,
        {
            if str_equal(keys[p].as_str(), keys[q].as_str()) {
                proof {
                    assert(ks[p as int] == ks[q as int]);
                }
                return Err(quality_error("HOROSCOPE_SLOT_THEME_DUPLICATED", detail_strs(&[("reason", "best_for_duplicated")])));
            }
            q = q + 1;
        }
        p = p + 1;
    }
    proof {
        assert forall|a: int, b: int| 0 <= a < b < ks.len() implies !(#[trigger] ks[a] == #[trigger] ks[b]) by {}
    }
    Ok(())
}

// ---------------------------------------------------------------------------------------------
// Evidence keys cited anywhere in a value
// ---------------------------------------------------------------------------------------------

/// The strings of an object's own `evidence_keys` array.
pub open spec fn own_evidence_keys(entries: Seq<JsonEntry>) -> Seq<Seq<char>> {
    match crate::json::entries_lookup(entries, "evidence_keys"@) {
        Some(JsonValue::Array(items)) => crate::semantic_brief::strings_in(items@),
        _ => seq![],
    }
}

/// The evidence keys a value cites: for an object, the strings of its own `evidence_keys`
/// array, then those its members cite, member after member; for an array, those its items
/// cite, item after item.
pub open spec fn cited_evidence_keys(v: JsonValue) -> Seq<Seq<char>>
    decreases v,
{
    match v {
        JsonValue::Object(entries) => own_evidence_keys(entries@) + cited_in_entries(entries@),
        JsonValue::Array(items) => cited_in_items(items@),
        _ => seq![],
    }
}

/// The evidence keys the members cite, member after member.
pub open spec fn cited_in_entries(entries: Seq<JsonEntry>) -> Seq<Seq<char>>
    decreases entries,
{
    if entries.len() == 0 {
        seq![]
    } else {
        cited_evidence_keys(entries[0].value) + cited_in_entries(entries.drop_first())
    }
}

/// The evidence keys the items cite, item after item.
pub open spec fn cited_in_items(items: Seq<JsonValue>) -> Seq<Seq<char>>
    decreases items,
{
    if items.len() == 0 {
        seq![]
    } else {
        cited_evidence_keys(items[0]) + cited_in_items(items.drop_first())
    }
}

/// Appends the evidence keys a value cites (see `cited_evidence_keys`).
pub fn collect_evidence_keys(value: &JsonValue, out: &mut Vec<String>)
    ensures
        string_views(final(out)@) == string_views(old(out)@) + cited_evidence_keys(*value),
    decreases value,
{
    match value {
        JsonValue::Object(entries) => {
            let ghost start = string_views(out@);
            match crate::json::lookup_entry(entries, "evidence_keys") {
                Some(found) => match found {
                    JsonValue::Array(items) => {
                        let m = items.len();
                        let mut j: usize = 0;
                        let ghost before = string_views(out@);
                        while j < m
                            invariant
                                m == items@.len(),
                                j <= m,
                                string_views(out@) == before + crate::semantic_brief::strings_in(items@.take(j as int)),
                            decreases m - j,
                        {
                            proof {
                                assert(items@.take(j + 1).drop_last() =~= items@.take(j as int));
                                assert(items@.take(j + 1).last() == items@[j as int]);
                            }
                            match items[j].as_str() {
                                Some(t) => {
                                    let ghost b2 = string_views(out@);
                                    out.push(t.to_owned());
                                    assert(string_views(out@) =~= b2.push(t@));
                                },
                                None => {},
                            }
                            j = j + 1;
                        }
                        assert(items@.take(m as int) =~= items@);
                    },
                    _ => {},
                },
                None => {},
            }
            assert(string_views(out@) == start + own_evidence_keys(entries@));
            let ghost mid = string_views(out@);
            let n = entries.len();
            let mut i: usize = 0;
            proof {
                assert(entries@.skip(0) =~= entries@);
            }
            while i < n
                invariant
                    *value == JsonValue::Object(*entries),
                    n == entries@.len(),
                    i <= n,
                    string_views(out@) + cited_in_entries(entries@.skip(i as int)) == mid + cited_in_entries(entries@),
                decreases n - i,
            {
                proof {
                    assert(decreases_to!(*value => (*value)->Object_0));
                    assert(decreases_to!(*entries => entries@));
                    assert(decreases_to!(entries@ => entries@[i as int]));
                    assert(decreases_to!(entries@[i as int] => entries@[i as int].value));
                    assert(entries@.skip(i as int)[0] == entries@[i as int]);
                    assert(entries@.skip(i as int).drop_first() =~= entries@.skip(i + 1));
                }
                let ghost before = string_views(out@);
                collect_evidence_keys(&entries[i].value, out);
                proof {
                    assert(before + cited_in_entries(entries@.skip(i as int)) == before + (cited_evidence_keys(entries@[i as int].value)
                        + cited_in_entries(entries@.skip(i + 1))));
                    assert(before + (cited_evidence_keys(entries@[i as int].value) + cited_in_entries(entries@.skip(i + 1))) =~= (before
                        + cited_evidence_keys(entries@[i as int].value)) + cited_in_entries(entries@.skip(i + 1)));
                }
                i = i + 1;
            }
            proof {
                assert(entries@.skip(n as int) =~= Seq::<JsonEntry>::empty());
                assert(string_views(out@) + Seq::<Seq<char>>::empty() =~= string_views(out@));
                assert(start + own_evidence_keys(entries@) + cited_in_entries(entries@) =~= start + (own_evidence_keys(entries@)
                    + cited_in_entries(entries@)));
            }
        },
        JsonValue::Array(items) => {
            let ghost start = string_views(out@);
            let n = items.len();
            let mut i: usize = 0;
            proof {
                assert(items@.skip(0) =~= items@);
            }
            while i < n
                invariant
                    *value == JsonValue::Array(*items),
                    n == items@.len(),
                    i <= n,
                    string_views(out@) + cited_in_items(items@.skip(i as int)) == start + cited_in_items(items@),
                decreases n - i,
            {
                proof {
                    assert(decreases_to!(*value => (*value)->Array_0));
                    assert(decreases_to!(*items => items@));
                    assert(decreases_to!(items@ => items@[i as int]));
                    assert(items@.skip(i as int)[0] == items@[i as int]);
                    assert(items@.skip(i as int).drop_first() =~= items@.skip(i + 1));
                }
                let ghost before = string_views(out@);
                collect_evidence_keys(&items[i], out);
                proof {
                    assert(before + (cited_evidence_keys(items@[i as int]) + cited_in_items(items@.skip(i + 1))) =~= (before
                        + cited_evidence_keys(items@[i as int])) + cited_in_items(items@.skip(i + 1)));
                }
                i = i + 1;
            }
            proof {
                assert(items@.skip(n as int) =~= Seq::<JsonValue>::empty());
                assert(string_views(out@) + Seq::<Seq<char>>::empty() =~= string_views(out@));
            }
        },
        _ => {
            assert(string_views(out@) + Seq::<Seq<char>>::empty() =~= string_views(out@));
        },
    }
}

} // verus!
