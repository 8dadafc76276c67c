//! Checks of a seven-day reading that go beyond its contract: the day markers, the free
//! reading's anchors, the premium detail and the editorial vocabulary that may not leak.
use vstd::prelude::*;

use crate::error::{GenerationError, detail_strs, fail_if, first_failure, horoscope_error, outcome, quality_error};
use crate::json::{JsonValue, field_arr, field_str, json_at, json_str};
use crate::period_contract::{
    distinct, evidence_keys_ok, evidence_keys_valid, evidence_summary_contract_check, lemma_member_strings_step,
    lemma_prefix_all, lemma_prefix_failure_persists, lemma_prefix_step, period_included_dates_from_request,
    prefix_check, request_evidence_keys, validate_period_evidence_keys, validate_period_evidence_summary,
};
use crate::period_metadata::{find_profile_row, from_fake_provider, period_word_limits_for_request, request_word_limits};
use crate::period_payload::{
    free_payload_check, join, join_strings, str_or_empty, validate_free_period_provider_public_payload, views,
};
use crate::period_quality::{array_items, array_len, key_texts, path_texts, walk_path};
use crate::quality::{contains_any, holds_any};
use crate::semantic_brief::{collect_member_strings, member_strings, request_dates};
use crate::text::{
    contains, count_words, is_blank, lowercase_of, str_contains, str_equal, str_is_blank, string_list_contains,
    string_views, to_lowercase, word_count,
};

verus! {

// ---------------------------------------------------------------------------------------------
// Day markers
// ---------------------------------------------------------------------------------------------

/// A best-day marker whose reason borrows the wording of a watch day.
pub open spec fn mechanical_best_day(marker: JsonValue, field: Seq<char>) -> bool {
    &&& field == "best_days"@
    &&& match field_str(marker, "reason"@) {
        Some(reason) => contains(lowercase_of(reason), "avant de promettre davantage"@),
        None => false,
    }
}

/// A marker that gives a fallback reason made of whitespace only.
pub open spec fn blank_fallback_reason(marker: JsonValue) -> bool {
    match field_str(marker, "fallback_reason"@) {
        Some(reason) => is_blank(reason),
        None => false,
    }
}

/// The check of a marker of `field`, given the markers before it.
pub open spec fn day_marker_check(
    marker: JsonValue,
    earlier: Seq<JsonValue>,
    field: Seq<char>,
    included: Seq<Seq<char>>,
    evidence: Seq<Seq<char>>,
) -> Option<Seq<char>> {
    match field_str(marker, "date"@) {
        None => Some("HOROSCOPE_PERIOD_KEY_DAYS_MISSING"@),
        Some(d) => if member_strings(earlier, "date"@).contains(d) {
            Some("HOROSCOPE_PERIOD_DUPLICATE_DAY_MARKER"@)
        } else if !included.contains(d) {
            Some("HOROSCOPE_PERIOD_DATE_RANGE_MISMATCH"@)
        } else if blank_fallback_reason(marker) {
            Some("HOROSCOPE_PERIOD_EVIDENCE_MISSING"@)
        } else if mechanical_best_day(marker, field) {
            Some("HOROSCOPE_PERIOD_MECHANICAL_PUBLIC_TEXT"@)
        } else {
            fail_if(!evidence_keys_ok(evidence, field_arr(marker, "evidence_keys"@)), "HOROSCOPE_PERIOD_EVIDENCE_MISSING"@)
        },
    }
}

/// The first failure among the markers of `field` (a missing array holds no marker).
pub open spec fn day_markers_check(
    response: JsonValue,
    field: Seq<char>,
    included: Seq<Seq<char>>,
    evidence: Seq<Seq<char>>,
) -> Option<Seq<char>> {
    prefix_check(
        array_items(response, field),
        |m: JsonValue, e: Seq<JsonValue>| day_marker_check(m, e, field, included, evidence),
    )
}

fn reason_is_mechanical(marker: &JsonValue, field: &str) -> (r: bool)
    ensures
        r == mechanical_best_day(*marker, field@),
{
    if !str_equal(field, "best_days") {
        return false;
    }
    match marker.field_str("reason") {
        Some(reason) => {
            let lower = to_lowercase(reason);
            str_contains(lower.as_str(), "avant de promettre davantage")
        },
        None => false,
    }
}

/// Refuses a marker of `field` without a date, two markers on one date, a date outside the
/// period, a blank fallback reason, a best day worded as a watch day, or a marker that does not
/// cite known evidence.
pub fn validate_period_day_markers(
    response: &JsonValue,
    field: &str,
    included: &Vec<String>,
    evidence: &Vec<String>,
) -> (r: Result<(), GenerationError>)
    ensures
        outcome(r) == day_markers_check(*response, field@, string_views(included@), string_views(evidence@)),
{
    let ghost inc = string_views(included@);
    let ghost ev = string_views(evidence@);
    let ghost fld = field@;
    let ghost f = |m: JsonValue, e: Seq<JsonValue>| day_marker_check(m, e, fld, inc, ev);
    let empty: Vec<JsonValue> = Vec::new();
    let markers = match response.field_arr(field) {
        Some(m) => m,
        None => &empty,
    };
    assert(markers@ == array_items(*response, field@));
    let n = markers.len();
    let mut seen: Vec<String> = Vec::new();
    let mut i: usize = 0;
    proof {
        assert(markers@.take(0).len() == 0);
        assert(string_views(seen@) =~= member_strings(markers@.take(0), "date"@));
    }
    while i < n
        invariant
            n == markers@.len(),
            i <= n,
            inc == string_views(included@),
            ev == string_views(evidence@),
            fld == field@,
            f == (|m: JsonValue, e: Seq<JsonValue>| day_marker_check(m, e, fld, inc, ev)),
            markers@ == array_items(*response, field@),
            prefix_check(markers@.take(i as int), f) is None,
            string_views(seen@) == member_strings(markers@.take(i as int), "date"@),
        decreases n - i,
    {
        proof {
            lemma_prefix_step(markers@, i as int, f);
        }
        let marker = &markers[i];
        let date = match marker.field_str("date") {
            Some(d) => d,
            None => {
                proof {
                    lemma_prefix_failure_persists(markers@, i + 1, f);
                }
                return Err(horoscope_error("HOROSCOPE_PERIOD_KEY_DAYS_MISSING"));
            },
        };
        if string_list_contains(&seen, date) {
            proof {
                lemma_prefix_failure_persists(markers@, i + 1, f);
            }
            return Err(quality_error(
                "HOROSCOPE_PERIOD_DUPLICATE_DAY_MARKER",
                detail_strs(&[("field", field), ("date", date)]),
            ));
        }
        if !string_list_contains(included, date) {
            proof {
                lemma_prefix_failure_persists(markers@, i + 1, f);
            }
            return Err(quality_error(
                "HOROSCOPE_PERIOD_DATE_RANGE_MISMATCH",
                detail_strs(&[("field", field), ("date", date)]),
            ));
        }
        let fallback = marker.field_str("fallback_reason");
        let blank_fallback = match fallback {
            Some(reason) => str_is_blank(reason),
            None => false,
        };
        if blank_fallback {
            proof {
                lemma_prefix_failure_persists(markers@, i + 1, f);
            }
            return Err(quality_error(
                "HOROSCOPE_PERIOD_EVIDENCE_MISSING",
                detail_strs(&[("field", field), ("date", date), ("reason", "empty_fallback_reason")]),
            ));
        }
        if reason_is_mechanical(marker, field) {
            proof {
                lemma_prefix_failure_persists(markers@, i + 1, f);
            }
            return Err(quality_error(
                "HOROSCOPE_PERIOD_MECHANICAL_PUBLIC_TEXT",
                detail_strs(&[("field", field), ("date", date), ("reason", "best_day_uses_watch_wording")]),
            ));
        }
        let keys = marker.field_arr("evidence_keys");
        let no_keys = match keys {
            Some(k) => k.len() == 0,
            None => true,
        };
        if no_keys && fallback.is_none() {
            proof {
                lemma_prefix_failure_persists(markers@, i + 1, f);
            }
            return Err(quality_error(
                "HOROSCOPE_PERIOD_EVIDENCE_MISSING",
                detail_strs(&[("field", field), ("date", date)]),
            ));
        }
        if !evidence_keys_valid(evidence, keys) {
            proof {
                lemma_prefix_failure_persists(markers@, i + 1, f);
            }
            return Err(horoscope_error("HOROSCOPE_PERIOD_EVIDENCE_MISSING"));
        }
        let ghost prev = string_views(seen@);
        seen.push(date.to_owned());
        proof {
            assert(string_views(seen@) =~= prev.push(date@));
            lemma_member_strings_step(markers@, i as int, "date"@, date@);
        }
        i = i + 1;
    }
    proof {
        assert(markers@.take(n as int) =~= markers@);
    }
    Ok(())
}

// ---------------------------------------------------------------------------------------------
// Texts gathered from a response
// ---------------------------------------------------------------------------------------------

/// The paths of a list of paths, as texts.
pub open spec fn path_views(paths: Seq<&[&str]>) -> Seq<Seq<Seq<char>>> {
    paths.map_values(|p: &[&str]| views(p@))
}

/// The strings found at each path, in order.
pub fn collect_path_texts(v: &JsonValue, paths: &[&[&str]]) -> (r: Vec<String>)
    ensures
        string_views(r@) == path_texts(*v, path_views(paths@)),
{
    let n = paths.len();
    let mut out: Vec<String> = Vec::new();
    let mut i: usize = 0;
    proof {
        assert(path_views(paths@).take(0) =~= Seq::<Seq<Seq<char>>>::empty());
        assert(string_views(out@) =~= Seq::<Seq<char>>::empty());
    }
    while i < n
        invariant
            n == paths@.len(),
            i <= n,
            string_views(out@) == path_texts(*v, path_views(paths@).take(i as int)),
        decreases n - i,
    {
        let ghost prev = string_views(out@);
        proof {
            assert(path_views(paths@).take(i + 1).drop_last() =~= path_views(paths@).take(i as int));
            assert(path_views(paths@).take(i + 1).last() == views(paths@[i as int]@));
        }
        let found = walk_path(v, paths[i]);
        let text = match found {
            Some(w) => w.as_str(),
            None => None,
        };
        match text {
            Some(t) => {
                out.push(t.to_owned());
                assert(string_views(out@) =~= prev + seq![t@]);
            },
            None => {
                assert(path_texts(*v, path_views(paths@).take(i + 1)) =~= prev);
            },
        }
        i = i + 1;
    }
    proof {
        assert(path_views(paths@).take(n as int) =~= path_views(paths@));
    }
    out
}

/// The strings found under each key of a value, in order.
pub fn collect_key_texts(item: &JsonValue, keys: &[&str]) -> (r: Vec<String>)
    ensures
        string_views(r@) == key_texts(*item, views(keys@)),
{
    let n = keys.len();
    let mut out: Vec<String> = Vec::new();
    let mut i: usize = 0;
    proof {
        assert(views(keys@).take(0) =~= Seq::<Seq<char>>::empty());
        assert(string_views(out@) =~= Seq::<Seq<char>>::empty());
    }
    while i < n
        invariant
            n == keys@.len(),
            i <= n,
            string_views(out@) == key_texts(*item, views(keys@).take(i as int)),
        decreases n - i,
    {
        let ghost prev = string_views(out@);
        proof {
            assert(views(keys@).take(i + 1).drop_last() =~= views(keys@).take(i as int));
            assert(views(keys@).take(i + 1).last() == keys@[i as int]@);
        }
        match item.field_str(keys[i]) {
            Some(t) => {
                out.push(t.to_owned());
                assert(string_views(out@) =~= prev + seq![t@]);
            },
            None => {
                assert(key_texts(*item, views(keys@).take(i + 1)) =~= prev);
            },
        }
        i = i + 1;
    }
    proof {
        assert(views(keys@).take(n as int) =~= views(keys@));
    }
    out
}

/// The first phrase that the text holds, if any.
pub fn find_phrase(text: &str, phrases: &[&str]) -> (r: Option<usize>)
    ensures
        match r {
            Some(k) => k < phrases@.len() && contains(text@, phrases@[k as int]@)
                && forall|j: int| 0 <= j < k ==> !contains(text@, #[trigger] views(phrases@)[j]),
            None => !holds_any(text@, views(phrases@)),
        },
{
    let n = phrases.len();
    let mut k: usize = 0;
    while k < n
        invariant
            n == phrases@.len(),
            k <= n,
            forall|j: int| 0 <= j < k ==> !contains(text@, #[trigger] views(phrases@)[j]),
        decreases n - k,
    {
        if str_contains(text, phrases[k]) {
            return Some(k);
        }
        assert(!contains(text@, views(phrases@)[k as int]));
        k = k + 1;
    }
    None
}

// ---------------------------------------------------------------------------------------------
// The free reading's anchors
// ---------------------------------------------------------------------------------------------

/// Where the free reading's summary, theme, advice and watch texts stand.
pub open spec fn free_anchor_paths() -> Seq<Seq<Seq<char>>> {
    seq![seq!["summary"@, "text"@], seq!["dominant_theme"@, "text"@], seq!["advice"@], seq!["watch_summary"@, "text"@]]
}

/// The words that anchor a free reading in something specific.
pub open spec fn free_anchor_terms() -> Seq<Seq<char>> {
    seq![
        "lune"@, "mars"@, "venus"@, "mercure"@, "soleil"@, "jupiter"@, "saturne"@, "thème"@,
        "theme"@, "organisation"@, "relations"@, "énergie"@, "energie"@, "communication"@,
        "clarté"@, "clarte"@, "intégration"@, "integration"@, "routine"@,
    ]
}

/// The free reading's main texts, joined by newlines and lower-cased.
pub open spec fn free_anchor_text(response: JsonValue) -> Seq<char> {
    lowercase_of(join(path_texts(response, free_anchor_paths()), "\n"@))
}

/// Refuses a free reading whose main texts name no planet, theme or domain.
pub fn validate_free_period_not_too_generic(response: &JsonValue) -> (r: Result<(), GenerationError>)
    ensures
        outcome(r) == fail_if(
            !holds_any(free_anchor_text(*response), free_anchor_terms()),
            "HOROSCOPE_PERIOD_FREE_TOO_GENERIC"@,
        ),
{
    let p0 = ["summary", "text"];
    let p1 = ["dominant_theme", "text"];
    let p2 = ["advice"];
    let p3 = ["watch_summary", "text"];
    let paths: [&[&str]; 4] = [&p0, &p1, &p2, &p3];
    proof {
        assert(path_views(paths@) =~= free_anchor_paths()) by {
            assert(views(p0@) =~= seq!["summary"@, "text"@]);
            assert(views(p1@) =~= seq!["dominant_theme"@, "text"@]);
            assert(views(p2@) =~= seq!["advice"@]);
            assert(views(p3@) =~= seq!["watch_summary"@, "text"@]);
        }
    }
    let texts = collect_path_texts(response, &paths);
    let joined = join_strings(&texts, "\n");
    let lower = to_lowercase(joined.as_str());
    let anchors = [
        "lune", "mars", "venus", "mercure", "soleil", "jupiter", "saturne", "thème", "theme",
        "organisation", "relations", "énergie", "energie", "communication", "clarté", "clarte",
        "intégration", "integration", "routine",
    ];
    assert(views(anchors@) =~= free_anchor_terms());
    if contains_any(lower.as_str(), &anchors) {
        Ok(())
    } else {
        Err(quality_error(
            "HOROSCOPE_PERIOD_FREE_TOO_GENERIC",
            detail_strs(&[("reason", "missing_free_specific_anchor")]),
        ))
    }
}

// ---------------------------------------------------------------------------------------------
// Editorial vocabulary
// ---------------------------------------------------------------------------------------------

/// The words of the editorial brief that the public text may not repeat.
pub open spec fn editorial_meta_terms() -> Seq<Seq<char>> {
    seq![
        "nouvelle facette"@,
        "répéter le même conseil"@,
        "repeter le meme conseil"@,
        "fonction narrative"@,
        "changer l'usage"@,
        "changer l’usage"@,
    ]
}

/// The words of the editorial brief that the public text may not repeat.
pub fn period_editorial_meta_forbidden_terms() -> (r: Vec<&'static str>)
    ensures
        views(r@) == editorial_meta_terms(),
{
    let terms = vec![
        "nouvelle facette",
        "répéter le même conseil",
        "repeter le meme conseil",
        "fonction narrative",
        "changer l'usage",
        "changer l’usage",
    ];
    assert(views(terms@) =~= editorial_meta_terms());
    terms
}

/// A watch window's title and watch point, joined by a space and lower-cased.
pub open spec fn window_meta_text(window: JsonValue) -> Seq<char> {
    lowercase_of(join(key_texts(window, seq!["title"@, "watch_point"@]), " "@))
}

/// Refuses watch windows whose title or watch point repeats the editorial brief.
pub fn validate_period_watch_windows_not_meta(windows: &Vec<JsonValue>) -> (r: Result<(), GenerationError>)
    ensures
        outcome(r) == fail_if(
            exists|i: int| 0 <= i < windows@.len() && holds_any(window_meta_text(#[trigger] windows@[i]), editorial_meta_terms()),
            "HOROSCOPE_PERIOD_PREMIUM_WINDOW_META_LEAK"@,
        ),
{
    let terms = period_editorial_meta_forbidden_terms();
    let keys = ["title", "watch_point"];
    assert(views(keys@) =~= seq!["title"@, "watch_point"@]);
    let n = windows.len();
    let mut i: usize = 0;
    while i < n
        invariant
            n == windows@.len(),
            i <= n,
            views(terms@) == editorial_meta_terms(),
            views(keys@) == seq!["title"@, "watch_point"@],
            forall|j: int| 0 <= j < i ==> !holds_any(window_meta_text(#[trigger] windows@[j]), editorial_meta_terms()),
        decreases n - i,
    {
        let texts = collect_key_texts(&windows[i], &keys);
        let joined = join_strings(&texts, " ");
        let lower = to_lowercase(joined.as_str());
        match find_phrase(lower.as_str(), terms.as_slice()) {
            Some(k) => {
                assert(contains(window_meta_text(windows@[i as int]), editorial_meta_terms()[k as int]));
                return Err(quality_error(
                    "HOROSCOPE_PERIOD_PREMIUM_WINDOW_META_LEAK",
                    detail_strs(&[("forbidden", terms[k])]),
                ));
            },
            None => {},
        }
        i = i + 1;
    }
    Ok(())
}

/// Refuses a premium public text that repeats the editorial brief.
pub fn validate_period_premium_public_not_meta(public_text: &str) -> (r: Result<(), GenerationError>)
    ensures
        outcome(r) == fail_if(
            holds_any(lowercase_of(public_text@), editorial_meta_terms()),
            "HOROSCOPE_PERIOD_PREMIUM_PUBLIC_META_LEAK"@,
        ),
{
    let terms = period_editorial_meta_forbidden_terms();
    let lower = to_lowercase(public_text);
    match find_phrase(lower.as_str(), terms.as_slice()) {
        Some(k) => {
            assert(contains(lowercase_of(public_text@), editorial_meta_terms()[k as int]));
            Err(quality_error("HOROSCOPE_PERIOD_PREMIUM_PUBLIC_META_LEAK", detail_strs(&[("forbidden", terms[k])])))
        },
        None => Ok(()),
    }
}

// ---------------------------------------------------------------------------------------------
// Premium detail
// ---------------------------------------------------------------------------------------------

/// The pattern of an explicit `day/month` date.
pub const EXPLICIT_DATE_PATTERN: &'static str = r"\b\d{1,2}/\d{1,2}\b";

/// The number of non-overlapping matches of a pattern in a text, as the `regex` crate finds
/// them (0 where the pattern does not compile).
pub uninterp spec fn regex_match_count(pattern: Seq<char>, text: Seq<char>) -> nat;

/// The number of explicit `day/month` dates in a text.
pub open spec fn explicit_dates_in(text: Seq<char>) -> nat {
    regex_match_count(EXPLICIT_DATE_PATTERN@, text)
}

/// `regex::Regex::new(pattern)`, then `find_iter(text).count()` (0 where the pattern does not
/// compile): the count is the named number of matches of the pattern in the text. Nothing more
/// is said of it here.
#[verifier::external_body]
pub(crate) fn regex_count(pattern: &str, text: &str) -> (r: usize)
    ensures
        r as nat == regex_match_count(pattern@, text@),
{
    match regex::Regex::new(pattern) {
        Ok(re) => re.find_iter(text).count(),
        Err(_) => 0,
    }
}

/// The number of explicit dates of a text.
pub(crate) fn explicit_date_count(text: &str) -> (r: usize)
    ensures
        r as nat == explicit_dates_in(text@),
{
    regex_count(EXPLICIT_DATE_PATTERN, text)
}

/// Where the premium advice and strategy texts stand.
pub open spec fn premium_advice_paths() -> Seq<Seq<Seq<char>>> {
    seq![
        seq!["advice"@, "main"@],
        seq!["advice"@, "best_use"@],
        seq!["advice"@, "avoid"@],
        seq!["strategy"@, "text"@],
        seq!["strategy"@, "best_use"@],
        seq!["strategy"@, "recovery"@],
    ]
}

/// A premium response too thin to sell: no best window, no strategy, fewer than three domain
/// sections, a timeline of other than seven days, or no evidence summary.
pub open spec fn premium_detail_missing(response: JsonValue) -> bool {
    ||| array_len(response, "best_windows"@) == 0
    ||| crate::json::json_get(response, "strategy"@) is None
    ||| array_len(response, "domain_sections"@) < 3
    ||| array_len(response, "daily_timeline"@) != 7
    ||| array_len(response, "evidence_summary"@) == 0
}

/// The check of a premium response's detail, then of its advice staying off the calendar.
pub open spec fn premium_detail_check(response: JsonValue) -> Option<Seq<char>> {
    if premium_detail_missing(response) {
        Some("HOROSCOPE_PERIOD_PREMIUM_INSUFFICIENT_DETAIL"@)
    } else {
        fail_if(
            explicit_dates_in(join(path_texts(response, premium_advice_paths()), " "@)) > 0,
            "HOROSCOPE_PERIOD_PREMIUM_ADVICE_RECALENDARIZED"@,
        )
    }
}

/// Refuses a premium response without its detailed sections, or whose advice and strategy
/// name explicit dates.
pub fn validate_period_premium_detail(response: &JsonValue) -> (r: Result<(), GenerationError>)
    ensures
        outcome(r) == premium_detail_check(*response),
{
    let missing = response.field_arr_len("best_windows") == 0 || response.get("strategy").is_none()
        || response.field_arr_len("domain_sections") < 3 || response.field_arr_len("daily_timeline") != 7
        || response.field_arr_len("evidence_summary") == 0;
    if missing {
        return Err(horoscope_error("HOROSCOPE_PERIOD_PREMIUM_INSUFFICIENT_DETAIL"));
    }
    let p0 = ["advice", "main"];
    let p1 = ["advice", "best_use"];
    let p2 = ["advice", "avoid"];
    let p3 = ["strategy", "text"];
    let p4 = ["strategy", "best_use"];
    let p5 = ["strategy", "recovery"];
    let paths: [&[&str]; 6] = [&p0, &p1, &p2, &p3, &p4, &p5];
    proof {
        assert(path_views(paths@) =~= premium_advice_paths()) by {
            assert(views(p0@) =~= seq!["advice"@, "main"@]);
            assert(views(p1@) =~= seq!["advice"@, "best_use"@]);
            assert(views(p2@) =~= seq!["advice"@, "avoid"@]);
            assert(views(p3@) =~= seq!["strategy"@, "text"@]);
            assert(views(p4@) =~= seq!["strategy"@, "best_use"@]);
            assert(views(p5@) =~= seq!["strategy"@, "recovery"@]);
        }
    }
    let texts = collect_path_texts(response, &paths);
    let joined = join_strings(&texts, " ");
    if explicit_date_count(joined.as_str()) > 0 {
        return Err(horoscope_error("HOROSCOPE_PERIOD_PREMIUM_ADVICE_RECALENDARIZED"));
    }
    Ok(())
}

/// The aspects that count as major.
pub open spec fn major_aspect(aspect: Seq<char>) -> bool {
    ||| aspect == "conjunction"@
    ||| aspect == "sextile"@
    ||| aspect == "square"@
    ||| aspect == "trine"@
    ||| aspect == "opposition"@
}

/// Whether an aspect code is a major aspect.
pub fn is_period_major_aspect(aspect: &str) -> (r: bool)
    ensures
        r == major_aspect(aspect@),
{
    str_equal(aspect, "conjunction") || str_equal(aspect, "sextile") || str_equal(aspect, "square")
        || str_equal(aspect, "trine") || str_equal(aspect, "opposition")
}

// ---------------------------------------------------------------------------------------------
// The free reading against its request
// ---------------------------------------------------------------------------------------------

/// The free reading's watch summary: a known status; with `none`, no evidence and a text of at
/// least fourteen words; otherwise known evidence.
pub open spec fn free_watch_check(response: JsonValue, evidence: Seq<Seq<char>>) -> Option<Seq<char>> {
    let watch = json_at(response, "watch_summary"@);
    match field_str(watch, "status"@) {
        None => Some("HOROSCOPE_PERIOD_FREE_MISSING_ADVICE"@),
        Some(status) => if !(status == "none"@ || status == "low"@ || status == "present"@) {
            Some("HOROSCOPE_PERIOD_RESPONSE_INVALID"@)
        } else if status == "none"@ {
            if field_arr(watch, "evidence_keys"@) matches Some(ks) && ks.len() > 0 {
                Some("HOROSCOPE_PERIOD_FREE_EVIDENCE_MISSING"@)
            } else {
                fail_if(
                    match field_str(watch, "text"@) {
                        Some(t) => word_count(t) < 14,
                        None => true,
                    },
                    "HOROSCOPE_PERIOD_FREE_WATCH_SUMMARY_TOO_THIN"@,
                )
            }
        } else {
            fail_if(!evidence_keys_ok(evidence, field_arr(watch, "evidence_keys"@)), "HOROSCOPE_PERIOD_EVIDENCE_MISSING"@)
        },
    }
}

/// The free reading's length against the request's profile (readings of the fake provider
/// pass).
pub open spec fn free_length_check(
    request: JsonValue,
    response: JsonValue,
    public_text: Seq<char>,
    rows: Seq<JsonValue>,
) -> Option<Seq<char>> {
    let limits = request_word_limits(request, rows);
    if !from_fake_provider(response) && word_count(public_text) < limits.target_min {
        Some("HOROSCOPE_PERIOD_FREE_TOO_SHORT"@)
    } else if !from_fake_provider(response) && word_count(public_text) > limits.hard_limit {
        Some("HOROSCOPE_PERIOD_FREE_TOO_LONG"@)
    } else {
        None
    }
}

/// Every check of a free reading against its request, in the order the validator runs them;
/// `verdict` is the outcome of the public-text rules on `public_text`.
pub open spec fn free_evidence_check(
    request: JsonValue,
    response: JsonValue,
    rows: Seq<JsonValue>,
    public_text: Seq<char>,
    verdict: Option<Seq<char>>,
) -> Option<Seq<char>> {
    let included = distinct(request_dates(request));
    let evidence = request_evidence_keys(request);
    first_failure(
        free_payload_check(response),
        first_failure(
            fail_if(included.len() != 7, "HOROSCOPE_PERIOD_DATE_RANGE_MISMATCH"@),
            first_failure(
                day_markers_check(response, "key_days"@, included, evidence),
                first_failure(
                    free_watch_check(response, evidence),
                    first_failure(
                        evidence_summary_contract_check(response, included, evidence),
                        first_failure(
                            fail_if(array_len(response, "evidence_summary"@) > 3, "HOROSCOPE_PERIOD_FREE_EVIDENCE_MISSING"@),
                            first_failure(
                                verdict,
                                first_failure(
                                    fail_if(
                                        !holds_any(free_anchor_text(response), free_anchor_terms()),
                                        "HOROSCOPE_PERIOD_FREE_TOO_GENERIC"@,
                                    ),
                                    first_failure(
                                        free_length_check(request, response, public_text, rows),
                                        fail_if(
                                            explicit_dates_in(str_or_empty(field_str(json_at(response, "summary"@), "text"@))) > 2,
                                            "HOROSCOPE_PERIOD_FREE_SUMMARY_TOO_MANY_EXPLICIT_DATES"@,
                                        ),
                                    ),
                                ),
                            ),
                        ),
                    ),
                ),
            ),
        ),
    )
}

fn validate_free_watch_summary(response: &JsonValue, evidence: &Vec<String>) -> (r: Result<(), GenerationError>)
    ensures
        outcome(r) == free_watch_check(*response, string_views(evidence@)),
{
    let null = JsonValue::Null;
    let watch: &JsonValue = match response.get("watch_summary") {
        Some(w) => w,
        None => &null,
    };
    let status = match watch.field_str("status") {
        Some(s) => s,
        None => {
            return Err(horoscope_error("HOROSCOPE_PERIOD_FREE_MISSING_ADVICE"));
        },
    };
    let is_none = str_equal(status, "none");
    if !(is_none || str_equal(status, "low") || str_equal(status, "present")) {
        return Err(quality_error("HOROSCOPE_PERIOD_RESPONSE_INVALID", detail_strs(&[("field", "watch_summary.status")])));
    }
    if is_none {
        let has_keys = match watch.field_arr("evidence_keys") {
            Some(ks) => ks.len() > 0,
            None => false,
        };
        if has_keys {
            return Err(
                quality_error("HOROSCOPE_PERIOD_FREE_EVIDENCE_MISSING", detail_strs(&[("field", "watch_summary.evidence_keys")])),
            );
        }
        let thin = match watch.field_str("text") {
            Some(t) => count_words(t) < 14,
            None => true,
        };
        if thin {
            return Err(quality_error(
                "HOROSCOPE_PERIOD_FREE_WATCH_SUMMARY_TOO_THIN",
                detail_strs(&[("field", "watch_summary.text")]),
            ));
        }
        return Ok(());
    }
    validate_period_evidence_keys(evidence, watch.field_arr("evidence_keys"))
}

/// Checks a free seven-day reading against its request: its payload, its period, its key days,
/// its watch summary and evidence, its public text, its anchors, its length and the explicit
/// dates of its summary. `public_text` is the reading's public text and `public_text_verdict`
/// what the public-text rules made of it; both come from the caller, and the verdict is
/// returned at its place in the order of the checks.
pub fn validate_free_period_response_evidence(
    request: &JsonValue,
    response: &JsonValue,
    rows: &Vec<JsonValue>,
    public_text: &str,
    public_text_verdict: Result<(), GenerationError>,
) -> (r: Result<(), GenerationError>)
    requires
        find_profile_row(rows@, "basic_standard"@) is Some,
    ensures
        outcome(r) == free_evidence_check(*request, *response, rows@, public_text@, outcome(public_text_verdict)),
{
    validate_free_period_provider_public_payload(response)?;
    let included = period_included_dates_from_request(request)?;
    let evidence = collect_member_strings(response_free_evidence_source(request), "evidence_key");
    validate_period_day_markers(response, "key_days", &included, &evidence)?;
    validate_free_watch_summary(response, &evidence)?;
    match validate_period_evidence_summary(response, &included, &evidence) {
        Ok(()) => {},
        Err(e) => {
            return Err(e);
        },
    }
    if response.field_arr_len("evidence_summary") > 3 {
        return Err(quality_error("HOROSCOPE_PERIOD_FREE_EVIDENCE_MISSING", detail_strs(&[("field", "evidence_summary")])));
    }
    public_text_verdict?;
    validate_free_period_not_too_generic(response)?;
    let words = count_words(public_text);
    let limits = period_word_limits_for_request(request, rows);
    let fake = match response.get("quality") {
        Some(q) => crate::period_metadata::field_is(q, "provider", "fake"),
        None => false,
    };
    if !fake && words < limits.target_min {
        return Err(horoscope_error("HOROSCOPE_PERIOD_FREE_TOO_SHORT"));
    }
    if !fake && words > limits.hard_limit {
        return Err(horoscope_error("HOROSCOPE_PERIOD_FREE_TOO_LONG"));
    }
    let summary_text = match response.get("summary") {
        Some(summary) => match summary.field_str("text") {
            Some(t) => t,
            None => "",
        },
        None => "",
    };
    proof {
        reveal_strlit("");
        assert(summary_text@ == str_or_empty(field_str(json_at(*response, "summary"@), "text"@)));
    }
    if explicit_date_count(summary_text) > 2 {
        return Err(horoscope_error("HOROSCOPE_PERIOD_FREE_SUMMARY_TOO_MANY_EXPLICIT_DATES"));
    }
    Ok(())
}

fn response_free_evidence_source(request: &JsonValue) -> (r: Option<&Vec<JsonValue>>)
    ensures
        match r {
            Some(v) => v@ == array_items(*request, "evidence"@),
            None => array_items(*request, "evidence"@) == Seq::<JsonValue>::empty(),
        },
{
    request.field_arr("evidence")
}

/// Markers of a field that pass the check stand each on its own date of the period and cite
/// known evidence.
pub proof fn law_accepted_markers_are_distinct_known_days(
    response: JsonValue,
    field: Seq<char>,
    included: Seq<Seq<char>>,
    evidence: Seq<Seq<char>>,
)
    requires
        day_markers_check(response, field, included, evidence) is None,
    ensures
        forall|i: int|
            0 <= i < array_items(response, field).len() ==> {
                &&& field_str(#[trigger] array_items(response, field)[i], "date"@) matches Some(d) && included.contains(d)
                &&& evidence_keys_ok(evidence, field_arr(array_items(response, field)[i], "evidence_keys"@))
            },
        forall|i: int, j: int|
            0 <= i < j < array_items(response, field).len() ==> field_str(
                #[trigger] array_items(response, field)[i],
                "date"@,
            ) != field_str(#[trigger] array_items(response, field)[j], "date"@),
{
    let items = array_items(response, field);
    let f = |m: JsonValue, e: Seq<JsonValue>| day_marker_check(m, e, field, included, evidence);
    assert forall|i: int| 0 <= i < items.len() implies {
        &&& field_str(#[trigger] items[i], "date"@) matches Some(d) && included.contains(d)
        &&& evidence_keys_ok(evidence, field_arr(items[i], "evidence_keys"@))
    } by {
        lemma_prefix_all(items, f, i);
    }
    assert forall|i: int, j: int| 0 <= i < j < items.len() implies field_str(#[trigger] items[i], "date"@) != field_str(
        #[trigger] items[j],
        "date"@,
    ) by {
        lemma_prefix_all(items, f, i);
        lemma_prefix_all(items, f, j);
        let pre = items.take(j);
        assert(pre[i] == items[i]);
        crate::semantic_brief::lemma_member_strings_contains(pre, "date"@, i);
    }
}

} // verus!
