//! Shape checks of the public payload that a provider returns for a seven-day reading.
use vstd::prelude::*;

use crate::error::{
    GenerationError, err_code, fail_if, first_failure, horoscope_error, outcome, quality_error,
    detail_count, detail_str,
};
use crate::json::{JsonValue, field_arr, field_arr_len, field_str, json_get, json_str, opt_view};
use crate::service_codes::{
    HOROSCOPE_FREE_NEXT_7_DAYS_NATAL_SERVICE_CODE, HOROSCOPE_PREMIUM_NEXT_7_DAYS_NATAL_SERVICE_CODE,
};
use crate::text::{
    string_views, contains, count_words, is_blank, lowercase_of, str_contains, str_equal, str_is_blank,
    to_lowercase, word_count,
};

verus! {

/// The text of an optional string, empty where there is none (`unwrap_or("")`).
pub open spec fn str_or_empty(o: Option<Seq<char>>) -> Seq<char> {
    match o {
        Some(s) => s,
        None => Seq::empty(),
    }
}

/// The texts of a list of names.
pub open spec fn views(fs: Seq<&str>) -> Seq<Seq<char>> {
    fs.map_values(|f: &str| f@)
}

/// `v[field]` is a string with a non-blank text.
pub open spec fn has_public_string(v: JsonValue, field: Seq<char>) -> bool {
    !is_blank(str_or_empty(field_str(v, field)))
}

/// Every item has a non-blank string under every one of the fields.
pub open spec fn items_have_fields(items: Seq<JsonValue>, fields: Seq<Seq<char>>) -> bool {
    forall|i: int, j: int|
        0 <= i < items.len() && 0 <= j < fields.len() ==> has_public_string(
            #[trigger] items[i],
            #[trigger] fields[j],
        )
}

/// The value reached from `v` by following the object keys of `path`.
pub open spec fn json_walk(v: JsonValue, path: Seq<Seq<char>>) -> Option<JsonValue>
    decreases path.len(),
{
    if path.len() == 0 {
        Some(v)
    } else {
        match json_get(v, path[0]) {
            Some(w) => json_walk(w, path.drop_first()),
            None => None,
        }
    }
}

/// The value at `path` is a string with a non-blank text.
pub open spec fn has_public_string_at(v: JsonValue, path: Seq<Seq<char>>) -> bool {
    match json_walk(v, path) {
        Some(w) => !is_blank(str_or_empty(json_str(w))),
        None => false,
    }
}

/// `parts` joined with `sep`.
pub open spec fn join(parts: Seq<Seq<char>>, sep: Seq<char>) -> Seq<char>
    decreases parts.len(),
{
    if parts.len() == 0 {
        Seq::empty()
    } else if parts.len() == 1 {
        parts[0]
    } else {
        join(parts.drop_last(), sep) + sep + parts.last()
    }
}

/// `parts.join(sep)`.
pub fn join_strs(parts: &[&str], sep: &str) -> (r: String)
    ensures
        r@ == join(views(parts@), sep@),
{
    let n = parts.len();
    let mut out = String::new();
    let mut i: usize = 0;
    while i < n
        invariant
            n == parts@.len(),
            i <= n,
            out@ == join(views(parts@).take(i as int), sep@),
        decreases n - i,
    {
        proof {
            assert(views(parts@).take(i + 1).drop_last() =~= views(parts@).take(i as int));
        }
        if i > 0 {
            out.append(sep);
        } else {
            assert(views(parts@).take(0) =~= Seq::<Seq<char>>::empty());
        }
        out.append(parts[i]);
        i = i + 1;
    }
    proof {
        assert(views(parts@).take(n as int) =~= views(parts@));
    }
    out
}

/// `parts.join(sep)` over owned strings.
pub fn join_strings(parts: &Vec<String>, sep: &str) -> (r: String)
    ensures
        r@ == join(string_views(parts@), sep@),
{
    let n = parts.len();
    let mut out = String::new();
    let mut i: usize = 0;
    while i < n
        invariant
            n == parts@.len(),
            i <= n,
            out@ == join(string_views(parts@).take(i as int), sep@),
        decreases n - i,
    {
        proof {
            assert(string_views(parts@).take(i + 1).drop_last() =~= string_views(parts@).take(i as int));
        }
        if i > 0 {
            out.append(sep);
        } else {
            assert(string_views(parts@).take(0) =~= Seq::<Seq<char>>::empty());
        }
        out.append(parts[i].as_str());
        i = i + 1;
    }
    proof {
        assert(string_views(parts@).take(n as int) =~= string_views(parts@));
    }
    out
}

/// Whether an optional text is missing or blank (`unwrap_or("").trim().is_empty()`).
pub fn blank_or_missing(o: Option<&str>) -> (r: bool)
    ensures
        r == is_blank(str_or_empty(opt_view(o))),
{
    match o {
        Some(t) => str_is_blank(t),
        None => true,
    }
}

/// Refuses a missing or blank string `value[field]`; the detail names `parent.field`.
pub fn require_period_public_string_in(value: &JsonValue, field: &str, parent: &str) -> (r: Result<
    (),
    GenerationError,
>)
    ensures
        outcome(r) == fail_if(
            !has_public_string(*value, field@),
            "HOROSCOPE_PERIOD_RESPONSE_INVALID"@,
        ),
        r matches Err(e) ==> field_str(e.detail.details, "field"@) == Some(parent@ + "."@ + field@),
{
    if blank_or_missing(value.field_str(field)) {
        let mut name = parent.to_owned();
        name.append(".");
        name.append(field);
        return Err(quality_error("HOROSCOPE_PERIOD_RESPONSE_INVALID", detail_str("field", name.as_str())));
    }
    Ok(())
}

/// Refuses an item that lacks a non-blank string under one of the fields.
pub fn require_period_public_fields_in(items: &Vec<JsonValue>, fields: &[&str], parent: &str) -> (r:
    Result<(), GenerationError>)
    ensures
        outcome(r) == fail_if(
            !items_have_fields(items@, views(fields@)),
            "HOROSCOPE_PERIOD_RESPONSE_INVALID"@,
        ),
{
    let n = items.len();
    let m = fields.len();
    let mut i: usize = 0;
    while i < n
        invariant
            n == items@.len(),
            m == fields@.len(),
            i <= n,
            forall|a: int, b: int|
                0 <= a < i && 0 <= b < m ==> has_public_string(
                    #[trigger] items@[a],
                    #[trigger] views(fields@)[b],
                ),
        decreases n - i,
    {
        let mut j: usize = 0;
        while j < m
            invariant
                n == items@.len(),
                m == fields@.len(),
                i < n,
                j <= m,
                forall|a: int, b: int|
                    0 <= a < i && 0 <= b < m ==> has_public_string(
                        #[trigger] items@[a],
                        #[trigger] views(fields@)[b],
                    ),
                forall|b: int|
                    0 <= b < j ==> has_public_string(items@[i as int], #[trigger] views(fields@)[b]),
            decreases m - j,
        {
            let res = require_period_public_string_in(&items[i], fields[j], parent);
            if res.is_err() {
                proof {
                    assert(!has_public_string(items@[i as int], views(fields@)[j as int]));
                }
                return res;
            }
            j = j + 1;
        }
        i = i + 1;
    }
    Ok(())
}

/// The value has a non-blank string under every one of the fields.
pub open spec fn value_has_fields(v: JsonValue, fields: Seq<Seq<char>>) -> bool {
    forall|j: int| 0 <= j < fields.len() ==> has_public_string(v, #[trigger] fields[j])
}

/// Refuses a value that lacks a non-blank string under one of the fields.
pub fn require_period_public_fields_of(value: &JsonValue, fields: &[&str], parent: &str) -> (r:
    Result<(), GenerationError>)
    ensures
        outcome(r) == fail_if(
            !value_has_fields(*value, views(fields@)),
            "HOROSCOPE_PERIOD_RESPONSE_INVALID"@,
        ),
{
    let m = fields.len();
    let mut j: usize = 0;
    while j < m
        invariant
            m == fields@.len(),
            j <= m,
            forall|b: int| 0 <= b < j ==> has_public_string(*value, #[trigger] views(fields@)[b]),
        decreases m - j,
    {
        let res = require_period_public_string_in(value, fields[j], parent);
        if res.is_err() {
            proof {
                assert(!has_public_string(*value, views(fields@)[j as int]));
            }
            return res;
        }
        j = j + 1;
    }
    Ok(())
}

/// Refuses a path that does not lead to a non-blank string; the detail names the dotted path.
pub fn require_period_public_string(value: &JsonValue, path: &[&str]) -> (r: Result<
    (),
    GenerationError,
>)
    ensures
        outcome(r) == fail_if(
            !has_public_string_at(*value, views(path@)),
            "HOROSCOPE_PERIOD_RESPONSE_INVALID"@,
        ),
        r matches Err(e) ==> field_str(e.detail.details, "field"@) == Some(
            join(views(path@), "."@),
        ),
{
    let n = path.len();
    let mut cursor: &JsonValue = value;
    let mut i: usize = 0;
    proof {
        assert(views(path@).skip(0) =~= views(path@));
    }
    while i < n
        invariant
            n == path@.len(),
            i <= n,
            json_walk(*value, views(path@)) == json_walk(*cursor, views(path@).skip(i as int)),
        decreases n - i,
    {
        proof {
            assert(views(path@).skip(i as int)[0] == path@[i as int]@);
            assert(views(path@).skip(i as int).drop_first() =~= views(path@).skip(i + 1));
        }
        match cursor.get(path[i]) {
            Some(next) => {
                cursor = next;
            },
            None => {
                let name = join_strs(path, ".");
                return Err(
                    quality_error("HOROSCOPE_PERIOD_RESPONSE_INVALID", detail_str("field", name.as_str())),
                );
            },
        }
        i = i + 1;
    }
    proof {
        assert(views(path@).skip(n as int) =~= Seq::<Seq<char>>::empty());
    }
    if blank_or_missing(cursor.as_str()) {
        let name = join_strs(path, ".");
        return Err(quality_error("HOROSCOPE_PERIOD_RESPONSE_INVALID", detail_str("field", name.as_str())));
    }
    Ok(())
}

/// The fields that every day marker carries.
pub open spec fn marker_fields() -> Seq<Seq<char>> {
    seq!["date"@, "title"@, "reason"@]
}

/// The check of a day-marker array: present, non-empty where required, every marker complete.
pub open spec fn marker_array_check(response: JsonValue, field: Seq<char>, require_non_empty: bool) -> Option<
    Seq<char>,
> {
    match field_arr(response, field) {
        None => Some("HOROSCOPE_PERIOD_KEY_DAYS_MISSING"@),
        Some(items) => if require_non_empty && items.len() == 0 {
            Some("HOROSCOPE_PERIOD_KEY_DAYS_MISSING"@)
        } else {
            fail_if(
                !items_have_fields(items, marker_fields()),
                "HOROSCOPE_PERIOD_RESPONSE_INVALID"@,
            )
        },
    }
}

/// Refuses a missing marker array, an empty one where one is required, or an incomplete marker.
pub fn require_period_public_marker_array(
    response: &JsonValue,
    field: &str,
    require_non_empty: bool,
) -> (r: Result<(), GenerationError>)
    ensures
        outcome(r) == marker_array_check(*response, field@, require_non_empty),
{
    let items = match response.field_arr(field) {
        Some(items) => items,
        None => {
            return Err(horoscope_error("HOROSCOPE_PERIOD_KEY_DAYS_MISSING"));
        },
    };
    if require_non_empty && items.len() == 0 {
        return Err(quality_error("HOROSCOPE_PERIOD_KEY_DAYS_MISSING", detail_str("field", field)));
    }
    let names = ["date", "title", "reason"];
    proof {
        assert(views(names@) =~= marker_fields());
    }
    require_period_public_fields_in(items, &names, field)
}

/// The watch summary is present, has a known status and a non-blank text.
pub open spec fn watch_summary_ok(response: JsonValue) -> bool {
    match json_get(response, "watch_summary"@) {
        None => false,
        Some(summary) => {
            &&& field_str(summary, "status"@) matches Some(status) && (status == "active"@ || status
                == "low"@ || status == "none"@)
            &&& has_public_string(summary, "text"@)
        },
    }
}

/// Refuses a missing watch summary, an unknown status or a blank text.
pub fn require_period_watch_summary(response: &JsonValue) -> (r: Result<(), GenerationError>)
    ensures
        outcome(r) == fail_if(!watch_summary_ok(*response), "HOROSCOPE_PERIOD_RESPONSE_INVALID"@),
{
    let summary = match response.get("watch_summary") {
        Some(s) => s,
        None => {
            return Err(horoscope_error("HOROSCOPE_PERIOD_RESPONSE_INVALID"));
        },
    };
    let status_ok = match summary.field_str("status") {
        Some(status) => str_equal(status, "active") || str_equal(status, "low") || str_equal(
            status,
            "none",
        ),
        None => false,
    };
    if !status_ok {
        return Err(
            quality_error("HOROSCOPE_PERIOD_RESPONSE_INVALID", detail_str("field", "watch_summary.status")),
        );
    }
    require_period_public_string_in(summary, "text", "watch_summary")
}

/// `pointer` does not lead to a non-blank string.
pub open spec fn free_string_missing(response: JsonValue, path: Seq<Seq<char>>) -> bool {
    !has_public_string_at(response, path)
}

/// Whether the value at `path` is missing, no string, or blank.
pub fn free_required_string_missing(response: &JsonValue, path: &[&str]) -> (r: bool)
    ensures
        r == free_string_missing(*response, views(path@)),
{
    require_period_public_string(response, path).is_err()
}

/// The sections of the full seven-day payload that the free payload may not carry.
pub open spec fn free_leak_check(response: JsonValue) -> Option<Seq<char>> {
    if json_get(response, "daily_timeline"@) is Some {
        Some("HOROSCOPE_PERIOD_FREE_DAILY_TIMELINE_LEAK"@)
    } else if json_get(response, "best_days"@) is Some {
        Some("HOROSCOPE_PERIOD_FREE_BEST_DAYS_LEAK"@)
    } else if json_get(response, "watch_days"@) is Some {
        Some("HOROSCOPE_PERIOD_FREE_WATCH_DAYS_LEAK"@)
    } else if json_get(response, "best_windows"@) is Some || json_get(
        response,
        "watch_windows"@,
    ) is Some {
        Some("HOROSCOPE_PERIOD_FREE_WINDOWS_LEAK"@)
    } else if json_get(response, "domain_sections"@) is Some {
        Some("HOROSCOPE_PERIOD_FREE_DOMAIN_SECTIONS_LEAK"@)
    } else if json_get(response, "strategy"@) is Some {
        Some("HOROSCOPE_PERIOD_FREE_STRATEGY_LEAK"@)
    } else if json_get(response, "week_overview"@) is Some {
        Some("HOROSCOPE_PERIOD_FREE_WEEK_OVERVIEW_LEAK"@)
    } else {
        None
    }
}

/// Refuses a free payload that carries a section reserved to the paid readings.
pub fn validate_free_period_forbidden_leaks(response: &JsonValue) -> (r: Result<(), GenerationError>)
    ensures
        outcome(r) == free_leak_check(*response),
{
    if response.get("daily_timeline").is_some() {
        return Err(
            quality_error("HOROSCOPE_PERIOD_FREE_DAILY_TIMELINE_LEAK", detail_str("field", "daily_timeline")),
        );
    }
    if response.get("best_days").is_some() {
        return Err(quality_error("HOROSCOPE_PERIOD_FREE_BEST_DAYS_LEAK", detail_str("field", "best_days")));
    }
    if response.get("watch_days").is_some() {
        return Err(
            quality_error("HOROSCOPE_PERIOD_FREE_WATCH_DAYS_LEAK", detail_str("field", "watch_days")),
        );
    }
    if response.get("best_windows").is_some() {
        return Err(quality_error("HOROSCOPE_PERIOD_FREE_WINDOWS_LEAK", detail_str("field", "best_windows")));
    }
    if response.get("watch_windows").is_some() {
        return Err(quality_error("HOROSCOPE_PERIOD_FREE_WINDOWS_LEAK", detail_str("field", "watch_windows")));
    }
    if response.get("domain_sections").is_some() {
        return Err(
            quality_error(
                "HOROSCOPE_PERIOD_FREE_DOMAIN_SECTIONS_LEAK",
                detail_str("field", "domain_sections"),
            ),
        );
    }
    if response.get("strategy").is_some() {
        return Err(quality_error("HOROSCOPE_PERIOD_FREE_STRATEGY_LEAK", detail_str("field", "strategy")));
    }
    if response.get("week_overview").is_some() {
        return Err(
            quality_error("HOROSCOPE_PERIOD_FREE_WEEK_OVERVIEW_LEAK", detail_str("field", "week_overview")),
        );
    }
    Ok(())
}

/// The array `response[field]` is missing or empty.
pub open spec fn array_missing_or_empty(response: JsonValue, field: Seq<char>) -> bool {
    match field_arr(response, field) {
        Some(items) => items.len() == 0,
        None => true,
    }
}

/// The required sections of a free payload, checked in order.
pub open spec fn free_required_check(response: JsonValue) -> Option<Seq<char>> {
    if free_string_missing(response, seq!["summary"@, "title"@]) || free_string_missing(
        response,
        seq!["summary"@, "text"@],
    ) {
        Some("HOROSCOPE_PERIOD_FREE_MISSING_SUMMARY"@)
    } else if free_string_missing(response, seq!["dominant_theme"@, "theme"@])
        || free_string_missing(response, seq!["dominant_theme"@, "text"@]) {
        Some("HOROSCOPE_PERIOD_FREE_MISSING_DOMINANT_THEME"@)
    } else if !has_public_string(response, "advice"@) {
        Some("HOROSCOPE_PERIOD_FREE_MISSING_ADVICE"@)
    } else if array_missing_or_empty(response, "key_days"@) {
        Some("HOROSCOPE_PERIOD_FREE_MISSING_KEY_DAY"@)
    } else if array_missing_or_empty(response, "evidence_summary"@) {
        Some("HOROSCOPE_PERIOD_FREE_EVIDENCE_MISSING"@)
    } else {
        None
    }
}

/// Refuses a free payload that misses its summary, theme, advice, key day or evidence.
pub fn validate_free_period_required_fields(response: &JsonValue) -> (r: Result<(), GenerationError>)
    ensures
        outcome(r) == free_required_check(*response),
{
    let summary_title = ["summary", "title"];
    let summary_text = ["summary", "text"];
    let theme_theme = ["dominant_theme", "theme"];
    let theme_text = ["dominant_theme", "text"];
    proof {
        assert(views(summary_title@) =~= seq!["summary"@, "title"@]);
        assert(views(summary_text@) =~= seq!["summary"@, "text"@]);
        assert(views(theme_theme@) =~= seq!["dominant_theme"@, "theme"@]);
        assert(views(theme_text@) =~= seq!["dominant_theme"@, "text"@]);
    }
    if free_required_string_missing(response, &summary_title) || free_required_string_missing(
        response,
        &summary_text,
    ) {
        return Err(
            quality_error("HOROSCOPE_PERIOD_FREE_MISSING_SUMMARY", detail_str("field", "summary.text")),
        );
    }
    if free_required_string_missing(response, &theme_theme) || free_required_string_missing(
        response,
        &theme_text,
    ) {
        return Err(
            quality_error(
                "HOROSCOPE_PERIOD_FREE_MISSING_DOMINANT_THEME",
                detail_str("field", "dominant_theme.text"),
            ),
        );
    }
    if blank_or_missing(response.field_str("advice")) {
        return Err(quality_error("HOROSCOPE_PERIOD_FREE_MISSING_ADVICE", detail_str("field", "advice")));
    }
    let key_days_empty = match response.field_arr("key_days") {
        Some(items) => items.len() == 0,
        None => true,
    };
    if key_days_empty {
        return Err(quality_error("HOROSCOPE_PERIOD_FREE_MISSING_KEY_DAY", detail_str("field", "key_days")));
    }
    let evidence_empty = match response.field_arr("evidence_summary") {
        Some(items) => items.len() == 0,
        None => true,
    };
    if evidence_empty {
        return Err(
            quality_error("HOROSCOPE_PERIOD_FREE_EVIDENCE_MISSING", detail_str("field", "evidence_summary")),
        );
    }
    Ok(())
}

/// The words that would turn a free key day into a recommended day.
pub open spec fn key_day_forbidden_terms() -> Seq<Seq<char>> {
    seq![
        "meilleur"@,
        "meilleure"@,
        "favorabl"@,
        "idéal"@,
        "ideal"@,
        "opportun"@,
        "chance"@,
        "fenêtre"@,
        "fenetre"@,
        "créneau"@,
        "creneau"@,
        "optimal"@,
        "parfait"@,
        "profiter"@,
    ]
}

/// Title and reason of a marker that are strings, joined with a space.
pub open spec fn title_reason_text(day: JsonValue) -> Seq<char> {
    match (field_str(day, "title"@), field_str(day, "reason"@)) {
        (Some(t), Some(r)) => t + " "@ + r,
        (Some(t), None) => t,
        (None, Some(r)) => r,
        (None, None) => Seq::empty(),
    }
}

/// The check of one free key day: no recommendation wording, a reason of six words or more.
pub open spec fn neutral_key_day_check(day: JsonValue) -> Option<Seq<char>> {
    if exists|k: int|
        0 <= k < key_day_forbidden_terms().len() && contains(
            lowercase_of(title_reason_text(day)),
            #[trigger] key_day_forbidden_terms()[k],
        ) {
        Some("HOROSCOPE_PERIOD_FREE_KEY_DAY_BEST_DAY_LEAK"@)
    } else if word_count(lowercase_of(str_or_empty(field_str(day, "reason"@)))) < 6 {
        Some("HOROSCOPE_PERIOD_FREE_KEY_DAY_TOO_THIN"@)
    } else {
        None
    }
}

/// The first failing key day, in order.
pub open spec fn neutral_key_days_check(days: Seq<JsonValue>) -> Option<Seq<char>>
    decreases days.len(),
{
    if days.len() == 0 {
        None
    } else {
        first_failure(neutral_key_day_check(days[0]), neutral_key_days_check(days.drop_first()))
    }
}

/// The key days of a payload (none where `key_days` is no array).
pub open spec fn key_days_of(response: JsonValue) -> Seq<JsonValue> {
    match field_arr(response, "key_days"@) {
        Some(items) => items,
        None => Seq::empty(),
    }
}

proof fn lemma_neutral_prefix(days: Seq<JsonValue>, i: int)
    requires
        0 <= i < days.len(),
        neutral_key_day_check(days[i]) is None,
    ensures
        neutral_key_days_check(days.skip(i)) == neutral_key_days_check(days.skip(i + 1)),
{
    assert(days.skip(i)[0] == days[i]);
    assert(days.skip(i).drop_first() =~= days.skip(i + 1));
}

proof fn lemma_neutral_hit(days: Seq<JsonValue>, i: int)
    requires
        0 <= i < days.len(),
        neutral_key_day_check(days[i]) is Some,
    ensures
        neutral_key_days_check(days.skip(i)) == neutral_key_day_check(days[i]),
{
    assert(days.skip(i)[0] == days[i]);
}

/// The title and reason of a marker that are strings, joined with a space.
pub fn title_and_reason(day: &JsonValue) -> (r: String)
    ensures
        r@ == title_reason_text(*day),
{
    match (day.field_str("title"), day.field_str("reason")) {
        (Some(t), Some(reason)) => {
            let mut s = t.to_owned();
            s.append(" ");
            s.append(reason);
            s
        },
        (Some(t), None) => t.to_owned(),
        (None, Some(reason)) => reason.to_owned(),
        (None, None) => String::new(),
    }
}

/// Whether a lower-cased text holds one of the key-day forbidden terms.
fn has_key_day_forbidden_term(text: &str) -> (r: bool)
    ensures
        r == exists|k: int|
            0 <= k < key_day_forbidden_terms().len() && contains(
                text@,
                #[trigger] key_day_forbidden_terms()[k],
            ),
{
    let terms = [
        "meilleur",
        "meilleure",
        "favorabl",
        "idéal",
        "ideal",
        "opportun",
        "chance",
        "fenêtre",
        "fenetre",
        "créneau",
        "creneau",
        "optimal",
        "parfait",
        "profiter",
    ];
    proof {
        assert(views(terms@) =~= key_day_forbidden_terms());
    }
    let n = terms.len();
    let mut k: usize = 0;
    while k < n
        invariant
            n == terms@.len(),
            views(terms@) == key_day_forbidden_terms(),
            k <= n,
            forall|j: int| 0 <= j < k ==> !contains(text@, #[trigger] key_day_forbidden_terms()[j]),
        decreases n - k,
    {
        if str_contains(text, terms[k]) {
            assert(contains(text@, key_day_forbidden_terms()[k as int]));
            return true;
        }
        k = k + 1;
    }
    false
}

/// Refuses a free key day that reads as a recommended day, or whose reason is too thin.
pub fn validate_free_period_key_days_are_neutral_markers(response: &JsonValue) -> (r: Result<
    (),
    GenerationError,
>)
    ensures
        outcome(r) == neutral_key_days_check(key_days_of(*response)),
{
    let empty: Vec<JsonValue> = Vec::new();
    let days = match response.field_arr("key_days") {
        Some(items) => items,
        None => &empty,
    };
    let n = days.len();
    let mut i: usize = 0;
    proof {
        assert(days@.skip(0) =~= days@);
    }
    while i < n
        invariant
            n == days@.len(),
            days@ == key_days_of(*response),
            i <= n,
            neutral_key_days_check(days@.skip(i as int)) == neutral_key_days_check(days@),
        decreases n - i,
    {
        let day = &days[i];
        let text = title_and_reason(day);
        let lower = to_lowercase(text.as_str());
        if has_key_day_forbidden_term(lower.as_str()) {
            proof {
                lemma_neutral_hit(days@, i as int);
            }
            return Err(
                quality_error("HOROSCOPE_PERIOD_FREE_KEY_DAY_BEST_DAY_LEAK", key_day_detail("key_days", i)),
            );
        }
        let reason_lower = match day.field_str("reason") {
            Some(t) => to_lowercase(t),
            None => to_lowercase(&String::new()),
        };
        if count_words(reason_lower.as_str()) < 6 {
            proof {
                lemma_neutral_hit(days@, i as int);
            }
            return Err(quality_error("HOROSCOPE_PERIOD_FREE_KEY_DAY_TOO_THIN", key_day_detail("key_days.reason", i)));
        }
        proof {
            lemma_neutral_prefix(days@, i as int);
        }
        i = i + 1;
    }
    proof {
        assert(days@.skip(n as int).len() == 0);
    }
    Ok(())
}

/// The check of a free seven-day payload, in the order the validator runs it.
pub open spec fn free_payload_check(response: JsonValue) -> Option<Seq<char>> {
    first_failure(
        free_leak_check(response),
        first_failure(
            free_required_check(response),
            first_failure(
                fail_if(
                    !has_public_string_at(response, seq!["summary"@, "title"@])
                        || !has_public_string_at(response, seq!["summary"@, "text"@])
                        || !has_public_string_at(response, seq!["dominant_theme"@, "theme"@])
                        || !has_public_string_at(response, seq!["dominant_theme"@, "text"@])
                        || !has_public_string_at(response, seq!["watch_summary"@, "text"@]),
                    "HOROSCOPE_PERIOD_RESPONSE_INVALID"@,
                ),
                first_failure(
                    marker_array_check(response, "key_days"@, true),
                    first_failure(
                        fail_if(
                            field_arr_len(response, "key_days"@) > 2,
                            "HOROSCOPE_PERIOD_FREE_BEST_DAYS_LEAK"@,
                        ),
                        first_failure(
                            neutral_key_days_check(key_days_of(response)),
                            first_failure(
                                fail_if(
                                    !has_public_string_at(response, seq!["advice"@]),
                                    "HOROSCOPE_PERIOD_RESPONSE_INVALID"@,
                                ),
                                match field_arr(response, "evidence_summary"@) {
                                    None => Some("HOROSCOPE_PERIOD_FREE_EVIDENCE_MISSING"@),
                                    Some(items) => fail_if(
                                        items.len() == 0 || items.len() > 3,
                                        "HOROSCOPE_PERIOD_FREE_EVIDENCE_MISSING"@,
                                    ),
                                },
                            ),
                        ),
                    ),
                ),
            ),
        ),
    )
}

/// Checks the free seven-day payload: no paid sections, required texts, one or two neutral key
/// days, and one to three evidence items.
pub fn validate_free_period_provider_public_payload(response: &JsonValue) -> (r: Result<
    (),
    GenerationError,
>)
    ensures
        outcome(r) == free_payload_check(*response),
{
    validate_free_period_forbidden_leaks(response)?;
    validate_free_period_required_fields(response)?;
    let p1 = ["summary", "title"];
    let p2 = ["summary", "text"];
    let p3 = ["dominant_theme", "theme"];
    let p4 = ["dominant_theme", "text"];
    let p5 = ["watch_summary", "text"];
    let p6 = ["advice"];
    proof {
        assert(views(p1@) =~= seq!["summary"@, "title"@]);
        assert(views(p2@) =~= seq!["summary"@, "text"@]);
        assert(views(p3@) =~= seq!["dominant_theme"@, "theme"@]);
        assert(views(p4@) =~= seq!["dominant_theme"@, "text"@]);
        assert(views(p5@) =~= seq!["watch_summary"@, "text"@]);
        assert(views(p6@) =~= seq!["advice"@]);
    }
    require_period_public_string(response, &p1)?;
    require_period_public_string(response, &p2)?;
    require_period_public_string(response, &p3)?;
    require_period_public_string(response, &p4)?;
    require_period_public_string(response, &p5)?;
    require_period_public_marker_array(response, "key_days", true)?;
    let key_day_count = response.field_arr_len("key_days");
    if key_day_count > 2 {
        return Err(
            quality_error("HOROSCOPE_PERIOD_FREE_BEST_DAYS_LEAK", count_detail("key_days", key_day_count)),
        );
    }
    validate_free_period_key_days_are_neutral_markers(response)?;
    require_period_public_string(response, &p6)?;
    let evidence = match response.field_arr("evidence_summary") {
        Some(items) => items,
        None => {
            return Err(horoscope_error("HOROSCOPE_PERIOD_FREE_EVIDENCE_MISSING"));
        },
    };
    if evidence.len() == 0 || evidence.len() > 3 {
        return Err(
            quality_error("HOROSCOPE_PERIOD_FREE_EVIDENCE_MISSING", count_detail("evidence_summary", evidence.len())),
        );
    }
    Ok(())
}

} // verus!

verus! {

/// The service code of a payload is the given one.
pub open spec fn has_service_code(response: JsonValue, code: Seq<char>) -> bool {
    field_str(response, "service_code"@) == Some(code)
}

/// Whether `response.service_code` is the given code.
pub fn service_code_is(response: &JsonValue, code: &str) -> (r: bool)
    ensures
        r == has_service_code(*response, code@),
{
    match response.field_str("service_code") {
        Some(s) => str_equal(s, code),
        None => false,
    }
}

/// The fields of a timeline day.
pub open spec fn day_fields() -> Seq<Seq<char>> {
    seq!["date"@, "day_label"@, "theme"@, "text"@, "advice"@]
}

/// The fields of a domain section.
pub open spec fn domain_fields() -> Seq<Seq<char>> {
    seq!["domain"@, "title"@, "text"@]
}

/// The fields of an evidence item.
pub open spec fn evidence_fields() -> Seq<Seq<char>> {
    seq!["date"@, "evidence_key"@, "label"@]
}

/// The fields of a best window.
pub open spec fn best_window_fields() -> Seq<Seq<char>> {
    seq!["date"@, "time_range_label"@, "title"@, "theme"@, "tone"@, "reason"@]
}

/// The fields of a watch window.
pub open spec fn watch_window_fields() -> Seq<Seq<char>> {
    seq!["date"@, "time_range_label"@, "title"@, "theme"@, "tone"@, "watch_point"@]
}

/// The fields of the premium strategy.
pub open spec fn strategy_fields() -> Seq<Seq<char>> {
    seq!["title"@, "text"@, "best_use"@, "recovery"@]
}

/// The six texts of the week overview and the advice.
pub open spec fn overview_texts_ok(response: JsonValue) -> bool {
    &&& has_public_string_at(response, seq!["week_overview"@, "title"@])
    &&& has_public_string_at(response, seq!["week_overview"@, "text"@])
    &&& has_public_string_at(response, seq!["week_overview"@, "trajectory"@])
    &&& has_public_string_at(response, seq!["advice"@, "main"@])
    &&& has_public_string_at(response, seq!["advice"@, "best_use"@])
    &&& has_public_string_at(response, seq!["advice"@, "avoid"@])
}

/// Seven timeline days, each complete.
pub open spec fn timeline_shape_check(response: JsonValue) -> Option<Seq<char>> {
    match field_arr(response, "daily_timeline"@) {
        None => Some("HOROSCOPE_PERIOD_TIMELINE_MISSING"@),
        Some(days) => if days.len() != 7 {
            Some("HOROSCOPE_PERIOD_TIMELINE_MISSING"@)
        } else {
            fail_if(!items_have_fields(days, day_fields()), "HOROSCOPE_PERIOD_RESPONSE_INVALID"@)
        },
    }
}

/// Two to four domain sections (three to five for the premium service), each complete.
pub open spec fn domain_shape_check(response: JsonValue) -> Option<Seq<char>> {
    match field_arr(response, "domain_sections"@) {
        None => Some("HOROSCOPE_PERIOD_EVIDENCE_MISSING"@),
        Some(sections) => {
            let premium = has_service_code(response, HOROSCOPE_PREMIUM_NEXT_7_DAYS_NATAL_SERVICE_CODE@);
            let in_range = if premium {
                3 <= sections.len() <= 5
            } else {
                2 <= sections.len() <= 4
            };
            if !in_range {
                Some("HOROSCOPE_PERIOD_EVIDENCE_MISSING"@)
            } else {
                fail_if(
                    !items_have_fields(sections, domain_fields()),
                    "HOROSCOPE_PERIOD_RESPONSE_INVALID"@,
                )
            }
        },
    }
}

/// A non-empty evidence summary, each item complete.
pub open spec fn evidence_shape_check(response: JsonValue) -> Option<Seq<char>> {
    match field_arr(response, "evidence_summary"@) {
        None => Some("HOROSCOPE_PERIOD_EVIDENCE_MISSING"@),
        Some(items) => if items.len() == 0 {
            Some("HOROSCOPE_PERIOD_EVIDENCE_MISSING"@)
        } else {
            fail_if(!items_have_fields(items, evidence_fields()), "HOROSCOPE_PERIOD_RESPONSE_INVALID"@)
        },
    }
}

/// The premium windows and strategy: at least one best window, every window and the strategy
/// complete.
pub open spec fn premium_shape_check(response: JsonValue) -> Option<Seq<char>> {
    match field_arr(response, "best_windows"@) {
        None => Some("HOROSCOPE_PERIOD_PREMIUM_WINDOWS_MISSING"@),
        Some(best) => if best.len() == 0 {
            Some("HOROSCOPE_PERIOD_PREMIUM_WINDOWS_MISSING"@)
        } else if !items_have_fields(best, best_window_fields()) {
            Some("HOROSCOPE_PERIOD_RESPONSE_INVALID"@)
        } else {
            match field_arr(response, "watch_windows"@) {
                None => Some("HOROSCOPE_PERIOD_PREMIUM_WINDOWS_MISSING"@),
                Some(watch) => if !items_have_fields(watch, watch_window_fields()) {
                    Some("HOROSCOPE_PERIOD_RESPONSE_INVALID"@)
                } else {
                    match json_get(response, "strategy"@) {
                        None => Some("HOROSCOPE_PERIOD_PREMIUM_STRATEGY_MISSING"@),
                        Some(strategy) => fail_if(
                            !value_has_fields(strategy, strategy_fields()),
                            "HOROSCOPE_PERIOD_RESPONSE_INVALID"@,
                        ),
                    }
                },
            }
        },
    }
}

/// The check of a basic or premium seven-day payload, in the order the validator runs it.
pub open spec fn full_payload_check(response: JsonValue) -> Option<Seq<char>> {
    first_failure(
        fail_if(!overview_texts_ok(response), "HOROSCOPE_PERIOD_RESPONSE_INVALID"@),
        first_failure(
            timeline_shape_check(response),
            first_failure(
                marker_array_check(response, "key_days"@, false),
                first_failure(
                    marker_array_check(response, "best_days"@, true),
                    first_failure(
                        marker_array_check(response, "watch_days"@, false),
                        first_failure(
                            fail_if(!watch_summary_ok(response), "HOROSCOPE_PERIOD_RESPONSE_INVALID"@),
                            first_failure(
                                domain_shape_check(response),
                                first_failure(
                                    evidence_shape_check(response),
                                    if has_service_code(
                                        response,
                                        HOROSCOPE_PREMIUM_NEXT_7_DAYS_NATAL_SERVICE_CODE@,
                                    ) {
                                        premium_shape_check(response)
                                    } else {
                                        None
                                    },
                                ),
                            ),
                        ),
                    ),
                ),
            ),
        ),
    )
}

/// The check of the public payload of any seven-day service.
pub open spec fn provider_payload_check(response: JsonValue) -> Option<Seq<char>> {
    if has_service_code(response, HOROSCOPE_FREE_NEXT_7_DAYS_NATAL_SERVICE_CODE@) {
        free_payload_check(response)
    } else {
        full_payload_check(response)
    }
}

fn require_overview_texts(response: &JsonValue) -> (r: Result<(), GenerationError>)
    ensures
        outcome(r) == fail_if(!overview_texts_ok(*response), "HOROSCOPE_PERIOD_RESPONSE_INVALID"@),
{
    let p1 = ["week_overview", "title"];
    let p2 = ["week_overview", "text"];
    let p3 = ["week_overview", "trajectory"];
    let p4 = ["advice", "main"];
    let p5 = ["advice", "best_use"];
    let p6 = ["advice", "avoid"];
    proof {
        assert(views(p1@) =~= seq!["week_overview"@, "title"@]);
        assert(views(p2@) =~= seq!["week_overview"@, "text"@]);
        assert(views(p3@) =~= seq!["week_overview"@, "trajectory"@]);
        assert(views(p4@) =~= seq!["advice"@, "main"@]);
        assert(views(p5@) =~= seq!["advice"@, "best_use"@]);
        assert(views(p6@) =~= seq!["advice"@, "avoid"@]);
    }
    require_period_public_string(response, &p1)?;
    require_period_public_string(response, &p2)?;
    require_period_public_string(response, &p3)?;
    require_period_public_string(response, &p4)?;
    require_period_public_string(response, &p5)?;
    require_period_public_string(response, &p6)
}

fn require_timeline_shape(response: &JsonValue) -> (r: Result<(), GenerationError>)
    ensures
        outcome(r) == timeline_shape_check(*response),
{
    let timeline = match response.field_arr("daily_timeline") {
        Some(t) => t,
        None => {
            return Err(horoscope_error("HOROSCOPE_PERIOD_TIMELINE_MISSING"));
        },
    };
    if timeline.len() != 7 {
        return Err(
            quality_error("HOROSCOPE_PERIOD_TIMELINE_MISSING", detail_count("timeline_count", timeline.len())),
        );
    }
    let fields = ["date", "day_label", "theme", "text", "advice"];
    proof {
        assert(views(fields@) =~= day_fields());
    }
    require_period_public_fields_in(timeline, &fields, "daily_timeline")
}

fn require_domain_shape(response: &JsonValue) -> (r: Result<(), GenerationError>)
    ensures
        outcome(r) == domain_shape_check(*response),
{
    let sections = match response.field_arr("domain_sections") {
        Some(s) => s,
        None => {
            return Err(horoscope_error("HOROSCOPE_PERIOD_EVIDENCE_MISSING"));
        },
    };
    let premium = service_code_is(response, HOROSCOPE_PREMIUM_NEXT_7_DAYS_NATAL_SERVICE_CODE);
    let n = sections.len();
    let in_range = if premium {
        3 <= n && n <= 5
    } else {
        2 <= n && n <= 4
    };
    if !in_range {
        return Err(quality_error("HOROSCOPE_PERIOD_EVIDENCE_MISSING", detail_count("count", n)));
    }
    let fields = ["domain", "title", "text"];
    proof {
        assert(views(fields@) =~= domain_fields());
    }
    require_period_public_fields_in(sections, &fields, "domain_sections")
}

fn require_evidence_shape(response: &JsonValue) -> (r: Result<(), GenerationError>)
    ensures
        outcome(r) == evidence_shape_check(*response),
{
    let items = match response.field_arr("evidence_summary") {
        Some(s) => s,
        None => {
            return Err(horoscope_error("HOROSCOPE_PERIOD_EVIDENCE_MISSING"));
        },
    };
    if items.len() == 0 {
        return Err(quality_error("HOROSCOPE_PERIOD_EVIDENCE_MISSING", detail_str("field", "evidence_summary")));
    }
    let fields = ["date", "evidence_key", "label"];
    proof {
        assert(views(fields@) =~= evidence_fields());
    }
    require_period_public_fields_in(items, &fields, "evidence_summary")
}

fn require_premium_shape(response: &JsonValue) -> (r: Result<(), GenerationError>)
    ensures
        outcome(r) == premium_shape_check(*response),
{
    let best = match response.field_arr("best_windows") {
        Some(s) => s,
        None => {
            return Err(horoscope_error("HOROSCOPE_PERIOD_PREMIUM_WINDOWS_MISSING"));
        },
    };
    if best.len() == 0 {
        return Err(
            quality_error("HOROSCOPE_PERIOD_PREMIUM_WINDOWS_MISSING", detail_str("field", "best_windows")),
        );
    }
    let best_fields = ["date", "time_range_label", "title", "theme", "tone", "reason"];
    proof {
        assert(views(best_fields@) =~= best_window_fields());
    }
    require_period_public_fields_in(best, &best_fields, "best_windows")?;
    let watch = match response.field_arr("watch_windows") {
        Some(s) => s,
        None => {
            return Err(horoscope_error("HOROSCOPE_PERIOD_PREMIUM_WINDOWS_MISSING"));
        },
    };
    let watch_fields = ["date", "time_range_label", "title", "theme", "tone", "watch_point"];
    proof {
        assert(views(watch_fields@) =~= watch_window_fields());
    }
    require_period_public_fields_in(watch, &watch_fields, "watch_windows")?;
    let strategy = match response.get("strategy") {
        Some(s) => s,
        None => {
            return Err(horoscope_error("HOROSCOPE_PERIOD_PREMIUM_STRATEGY_MISSING"));
        },
    };
    let fields = ["title", "text", "best_use", "recovery"];
    proof {
        assert(views(fields@) =~= strategy_fields());
    }
    require_period_public_fields_of(strategy, &fields, "strategy")
}

/// Checks the public payload of a seven-day reading: the free payload by its own rules; the
/// others for the overview, seven complete days, the day markers, the watch summary, the domain
/// sections, the evidence, and for the premium service the windows and the strategy.
pub fn validate_period_provider_public_payload(response: &JsonValue) -> (r: Result<
    (),
    GenerationError,
>)
    ensures
        outcome(r) == provider_payload_check(*response),
{
    if service_code_is(response, HOROSCOPE_FREE_NEXT_7_DAYS_NATAL_SERVICE_CODE) {
        return validate_free_period_provider_public_payload(response);
    }
    require_overview_texts(response)?;
    require_timeline_shape(response)?;
    require_period_public_marker_array(response, "key_days", false)?;
    require_period_public_marker_array(response, "best_days", true)?;
    require_period_public_marker_array(response, "watch_days", false)?;
    require_period_watch_summary(response)?;
    require_domain_shape(response)?;
    require_evidence_shape(response)?;
    if service_code_is(response, HOROSCOPE_PREMIUM_NEXT_7_DAYS_NATAL_SERVICE_CODE) {
        require_premium_shape(response)?;
    }
    Ok(())
}

fn key_day_detail(field: &str, index: usize) -> (r: JsonValue)
    ensures
        crate::json::field_str(r, "field"@) == Some(field@),
        index <= i64::MAX ==> crate::json::json_int(crate::json::json_at(r, "index"@)) == Some(index as i64),
{
    proof {
        reveal_strlit("index");
        reveal_strlit("field");
        assert("index"@[0] != "field"@[0]);
    }
    crate::error::detail_field_count(field, "index", index)
}

fn count_detail(field: &str, n: usize) -> (r: JsonValue)
    ensures
        crate::json::field_str(r, "field"@) == Some(field@),
        n <= i64::MAX ==> crate::json::json_int(crate::json::json_at(r, "count"@)) == Some(n as i64),
{
    proof {
        reveal_strlit("count");
        reveal_strlit("field");
        assert("count"@[0] != "field"@[0]);
    }
    crate::error::detail_field_count(field, "count", n)
}

} // verus!
