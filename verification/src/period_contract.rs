//! The contract between a seven-day writer request and its response: the response keeps the
//! request's identity, covers exactly its seven dates, and cites only the evidence and
//! snapshots that the request holds.
use vstd::prelude::*;

use crate::error::{GenerationError, err_code, first_failure, fail_if, horoscope_error, quality_error, detail_str};
use crate::json::{JsonValue, field_arr, field_str, json_arr, json_at, json_equal, json_equiv, json_get, json_str};
use crate::period_metadata::{field_is, premium_period_request, str_field_is};
use crate::period_payload::{has_public_string, views};
use crate::period_quality::{array_items, array_len};
use crate::prior_usage::append_new;
use crate::semantic_brief::{
    collect_member_strings, collect_strings, items_or_empty, member_strings, request_dates,
    request_snapshot_keys, strings_in,
};
use crate::service_codes::HOROSCOPE_PREMIUM_NEXT_7_DAYS_NATAL_SERVICE_CODE;
use crate::text::{is_blank, lowercase_of, str_equal, str_is_blank, string_list_contains, string_views, to_lowercase};

verus! {

// ---------------------------------------------------------------------------------------------
// What the request holds
// ---------------------------------------------------------------------------------------------

/// The evidence keys of a request's evidence list.
pub open spec fn request_evidence_keys(request: JsonValue) -> Seq<Seq<char>> {
    member_strings(array_items(request, "evidence"@), "evidence_key"@)
}

/// The distinct items of a list, in the order first seen.
pub open spec fn distinct(s: Seq<Seq<char>>) -> Seq<Seq<char>> {
    append_new(seq![], s)
}

fn dedupe(list: &Vec<String>) -> (r: Vec<String>)
    ensures
        string_views(r@) == distinct(string_views(list@)),
{
    let n = list.len();
    let mut out: Vec<String> = Vec::new();
    let mut i: usize = 0;
    proof {
        assert(string_views(out@) =~= distinct(string_views(list@).take(0)));
    }
    while i < n
        invariant
            n == list@.len(),
            i <= n,
            string_views(out@) == distinct(string_views(list@).take(i as int)),
        decreases n - i,
    {
        let ghost prev = string_views(out@);
        proof {
            assert(string_views(list@).take(i + 1).drop_last() =~= string_views(list@).take(i as int));
            assert(string_views(list@).take(i + 1).last() == list@[i as int]@);
        }
        if !string_list_contains(&out, list[i].as_str()) {
            out.push(list[i].clone());
            assert(string_views(out@) =~= prev.push(list@[i as int]@));
        }
        i = i + 1;
    }
    proof {
        assert(string_views(list@).take(n as int) =~= string_views(list@));
    }
    out
}

/// The distinct dates of the request's period; a period of other than seven distinct dates is
/// refused.
pub fn period_included_dates_from_request(request: &JsonValue) -> (r: Result<Vec<String>, GenerationError>)
    ensures
        match r {
            Ok(dates) => string_views(dates@) == distinct(request_dates(*request)) && dates@.len() == 7,
            Err(e) => distinct(request_dates(*request)).len() != 7 && err_code(e)
                == "HOROSCOPE_PERIOD_DATE_RANGE_MISMATCH"@,
        },
{
    let src = match request.get("period_resolution") {
        Some(p) => p.field_arr("included_dates"),
        None => None,
    };
    proof {
        assert(field_arr(json_at(*request, "period_resolution"@), "included_dates"@) == json_arr(
            json_at(json_at(*request, "period_resolution"@), "included_dates"@),
        ));
    }
    let all = collect_strings(src);
    let dates = dedupe(&all);
    if dates.len() != 7 {
        return Err(
            quality_error(
                "HOROSCOPE_PERIOD_DATE_RANGE_MISMATCH",
                crate::error::detail_count("included_date_count", dates.len()),
            ),
        );
    }
    Ok(dates)
}

/// The evidence keys of the request; a request without evidence keys is refused.
pub fn period_evidence_keys_from_request(request: &JsonValue) -> (r: Result<Vec<String>, GenerationError>)
    ensures
        match r {
            Ok(keys) => string_views(keys@) == request_evidence_keys(*request) && keys@.len() > 0,
            Err(e) => request_evidence_keys(*request).len() == 0 && err_code(e)
                == "HOROSCOPE_PERIOD_EVIDENCE_MISSING"@,
        },
{
    let keys = collect_member_strings(request.field_arr("evidence"), "evidence_key");
    if keys.len() == 0 {
        return Err(quality_error("HOROSCOPE_PERIOD_EVIDENCE_MISSING", detail_str("field", "evidence")));
    }
    Ok(keys)
}

/// The snapshot keys of the request's scan plan; a plan without snapshot keys is refused.
pub fn period_snapshot_keys_from_request(request: &JsonValue) -> (r: Result<Vec<String>, GenerationError>)
    ensures
        match r {
            Ok(keys) => string_views(keys@) == request_snapshot_keys(*request) && keys@.len() > 0,
            Err(e) => request_snapshot_keys(*request).len() == 0 && err_code(e)
                == "HOROSCOPE_PERIOD_PREMIUM_WINDOWS_MISSING"@,
        },
{
    let src = match request.get("scan_plan") {
        Some(p) => p.field_arr("snapshots"),
        None => None,
    };
    let keys = collect_member_strings(src, "snapshot_key");
    if keys.len() == 0 {
        return Err(
            quality_error("HOROSCOPE_PERIOD_PREMIUM_WINDOWS_MISSING", detail_str("field", "scan_plan.snapshots")),
        );
    }
    Ok(keys)
}

// ---------------------------------------------------------------------------------------------
// Identity
// ---------------------------------------------------------------------------------------------

/// The response keeps the request's service and period.
pub open spec fn identity_check(request: JsonValue, response: JsonValue) -> Option<Seq<char>> {
    match (field_str(request, "service_code"@), field_str(response, "service_code"@)) {
        (Some(a), Some(b)) => if a != b {
            Some("HOROSCOPE_PERIOD_RESPONSE_INVALID"@)
        } else if !json_equiv(json_at(response, "period_resolution"@), json_at(request, "period_resolution"@)) {
            Some("HOROSCOPE_PERIOD_DATE_RANGE_MISMATCH"@)
        } else {
            None
        },
        _ => Some("HOROSCOPE_PERIOD_RESPONSE_INVALID"@),
    }
}

/// Refuses a response whose service or period differs from the request's.
pub fn validate_period_response_identity_contract_v2(request: &JsonValue, response: &JsonValue) -> (r: Result<
    (),
    GenerationError,
>)
    ensures
        match identity_check(*request, *response) {
            Some(code) => (r matches Err(e) && err_code(e) == code),
            None => r is Ok,
        },
{
    let request_service = match request.field_str("service_code") {
        Some(s) => s,
        None => {
            return Err(horoscope_error("HOROSCOPE_PERIOD_RESPONSE_INVALID"));
        },
    };
    let response_service = match response.field_str("service_code") {
        Some(s) => s,
        None => {
            return Err(horoscope_error("HOROSCOPE_PERIOD_RESPONSE_INVALID"));
        },
    };
    if !str_equal(response_service, request_service) {
        return Err(quality_error("HOROSCOPE_PERIOD_RESPONSE_INVALID", detail_str("field", "service_code")));
    }
    let null = JsonValue::Null;
    let a: &JsonValue = match response.get("period_resolution") {
        Some(x) => x,
        None => &null,
    };
    let b: &JsonValue = match request.get("period_resolution") {
        Some(x) => x,
        None => &null,
    };
    if !json_equal(a, b) {
        return Err(quality_error("HOROSCOPE_PERIOD_DATE_RANGE_MISMATCH", detail_str("field", "period_resolution")));
    }
    Ok(())
}

// ---------------------------------------------------------------------------------------------
// Evidence references
// ---------------------------------------------------------------------------------------------

/// A list of evidence keys that is present, not empty, and made of allowed keys only.
pub open spec fn evidence_keys_ok(allowed: Seq<Seq<char>>, keys: Option<Seq<JsonValue>>) -> bool {
    match keys {
        None => false,
        Some(ks) => ks.len() > 0 && forall|i: int|
            0 <= i < ks.len() ==> (json_str(#[trigger] ks[i]) matches Some(k) && allowed.contains(k)),
    }
}

/// Whether a list of evidence keys is present, not empty, and made of allowed keys only.
pub fn evidence_keys_valid(allowed: &Vec<String>, keys: Option<&Vec<JsonValue>>) -> (r: bool)
    ensures
        r == evidence_keys_ok(
            string_views(allowed@),
            match keys {
                Some(k) => Some(k@),
                None => None,
            },
        ),
{
    let ks = match keys {
        Some(k) => k,
        None => {
            return false;
        },
    };
    if ks.len() == 0 {
        return false;
    }
    let n = ks.len();
    let mut i: usize = 0;
    while i < n
        invariant
            n == ks@.len(),
            n > 0,
            keys == Some(ks),
            i <= n,
            forall|j: int|
                0 <= j < i ==> (json_str(#[trigger] ks@[j]) matches Some(k) && string_views(allowed@).contains(k)),
        decreases n - i,
    {
        match ks[i].as_str() {
            Some(k) => {
                if !string_list_contains(allowed, k) {
                    assert(!(json_str(ks@[i as int]) matches Some(k) && string_views(allowed@).contains(k)));
                    return false;
                }
            },
            None => {
                assert(json_str(ks@[i as int]) is None);
                return false;
            },
        }
        i = i + 1;
    }
    true
}

/// Refuses a missing or empty list of evidence keys, or one that cites an unknown key.
pub fn validate_period_evidence_keys(allowed: &Vec<String>, keys: Option<&Vec<JsonValue>>) -> (r: Result<
    (),
    GenerationError,
>)
    ensures
        r is Ok <==> evidence_keys_ok(
            string_views(allowed@),
            match keys {
                Some(k) => Some(k@),
                None => None,
            },
        ),
        r matches Err(e) ==> err_code(e) == "HOROSCOPE_PERIOD_EVIDENCE_MISSING"@,
{
    if evidence_keys_valid(allowed, keys) {
        Ok(())
    } else {
        Err(horoscope_error("HOROSCOPE_PERIOD_EVIDENCE_MISSING"))
    }
}

// ---------------------------------------------------------------------------------------------
// Lists checked item by item
// ---------------------------------------------------------------------------------------------

/// The first failure over a list, each item checked against the items before it.
pub open spec fn prefix_check(items: Seq<JsonValue>, f: spec_fn(JsonValue, Seq<JsonValue>) -> Option<Seq<char>>) -> Option<
    Seq<char>,
>
    decreases items.len(),
{
    if items.len() == 0 {
        None
    } else {
        first_failure(prefix_check(items.drop_last(), f), f(items.last(), items.drop_last()))
    }
}

pub(crate) proof fn lemma_prefix_failure_persists(
    items: Seq<JsonValue>,
    k: int,
    f: spec_fn(JsonValue, Seq<JsonValue>) -> Option<Seq<char>>,
)
    requires
        0 <= k <= items.len(),
        prefix_check(items.take(k), f) is Some,
    ensures
        prefix_check(items, f) == prefix_check(items.take(k), f),
    decreases items.len() - k,
{
    if k < items.len() {
        assert(items.take(k + 1).drop_last() =~= items.take(k));
        lemma_prefix_failure_persists(items, k + 1, f);
    } else {
        assert(items.take(k) =~= items);
    }
}

/// With no failure over a list, no item fails against the items before it.
pub(crate) proof fn lemma_prefix_all(items: Seq<JsonValue>, f: spec_fn(JsonValue, Seq<JsonValue>) -> Option<Seq<char>>, i: int)
    requires
        prefix_check(items, f) is None,
        0 <= i < items.len(),
    ensures
        f(items[i], items.take(i)) is None,
    decreases items.len(),
{
    if i == items.len() - 1 {
        assert(items.drop_last() =~= items.take(i));
    } else {
        assert(items.drop_last().take(i) =~= items.take(i));
        lemma_prefix_all(items.drop_last(), f, i);
    }
}

pub(crate) proof fn lemma_prefix_step(items: Seq<JsonValue>, i: int, f: spec_fn(JsonValue, Seq<JsonValue>) -> Option<Seq<char>>)
    requires
        0 <= i < items.len(),
        prefix_check(items.take(i), f) is None,
    ensures
        prefix_check(items.take(i + 1), f) == f(items[i], items.take(i)),
{
    assert(items.take(i + 1).drop_last() =~= items.take(i));
    assert(items.take(i + 1).last() == items[i]);
}

// ---------------------------------------------------------------------------------------------
// Timeline
// ---------------------------------------------------------------------------------------------

/// The check of a timeline day, given the days before it.
pub open spec fn timeline_day_check(
    day: JsonValue,
    earlier: Seq<JsonValue>,
    included: Seq<Seq<char>>,
    evidence: Seq<Seq<char>>,
) -> Option<Seq<char>> {
    match field_str(day, "date"@) {
        None => Some("HOROSCOPE_PERIOD_TIMELINE_MISSING"@),
        Some(d) => if !included.contains(d) || member_strings(earlier, "date"@).contains(d) {
            Some("HOROSCOPE_PERIOD_DATE_RANGE_MISMATCH"@)
        } else {
            fail_if(!evidence_keys_ok(evidence, field_arr(day, "evidence_keys"@)), "HOROSCOPE_PERIOD_EVIDENCE_MISSING"@)
        },
    }
}

/// The timeline contract: seven days, each on a distinct date of the period and citing known
/// evidence, and every date of the period covered.
pub open spec fn timeline_contract_check(response: JsonValue, included: Seq<Seq<char>>, evidence: Seq<Seq<char>>) -> Option<
    Seq<char>,
> {
    match field_arr(response, "daily_timeline"@) {
        None => Some("HOROSCOPE_PERIOD_TIMELINE_MISSING"@),
        Some(days) => if days.len() != 7 {
            Some("HOROSCOPE_PERIOD_TIMELINE_MISSING"@)
        } else {
            first_failure(
                prefix_check(days, |d: JsonValue, e: Seq<JsonValue>| timeline_day_check(d, e, included, evidence)),
                fail_if(
                    exists|i: int| 0 <= i < included.len() && !member_strings(days, "date"@).contains(#[trigger] included[i]),
                    "HOROSCOPE_PERIOD_DATE_RANGE_MISMATCH"@,
                ),
            )
        },
    }
}

pub(crate) proof fn lemma_member_strings_step(items: Seq<JsonValue>, i: int, key: Seq<char>, s: Seq<char>)
    requires
        0 <= i < items.len(),
        json_str(json_at(items[i], key)) == Some(s),
    ensures
        member_strings(items.take(i + 1), key) == member_strings(items.take(i), key).push(s),
{
    assert(items.take(i + 1).drop_last() =~= items.take(i));
    assert(items.take(i + 1).last() == items[i]);
}

/// Refuses a timeline that is not seven days on distinct dates of the period, each citing known
/// evidence, or that leaves a date of the period uncovered.
pub fn validate_period_timeline_contract_v2(
    response: &JsonValue,
    included: &Vec<String>,
    evidence: &Vec<String>,
) -> (r: Result<(), GenerationError>)
    ensures
        match timeline_contract_check(*response, string_views(included@), string_views(evidence@)) {
            Some(code) => (r matches Err(e) && err_code(e) == code),
            None => r is Ok,
        },
{
    let ghost inc = string_views(included@);
    let ghost ev = string_views(evidence@);
    let ghost f = |d: JsonValue, e: Seq<JsonValue>| timeline_day_check(d, e, inc, ev);
    let timeline = match response.field_arr("daily_timeline") {
        Some(t) => t,
        None => {
            return Err(horoscope_error("HOROSCOPE_PERIOD_TIMELINE_MISSING"));
        },
    };
    if timeline.len() != 7 {
        return Err(quality_error("HOROSCOPE_PERIOD_TIMELINE_MISSING", crate::error::detail_count("timeline_count", timeline.len())));
    }
    let n = timeline.len();
    let mut seen: Vec<String> = Vec::new();
    let mut i: usize = 0;
    proof {
        assert(timeline@.take(0).len() == 0);
        assert(string_views(seen@) =~= member_strings(timeline@.take(0), "date"@));
    }
    while i < n
        invariant
            n == timeline@.len(),
            n == 7,
            i <= n,
            inc == string_views(included@),
            ev == string_views(evidence@),
            f == (|d: JsonValue, e: Seq<JsonValue>| timeline_day_check(d, e, inc, ev)),
            field_arr(*response, "daily_timeline"@) == Some(timeline@),
            prefix_check(timeline@.take(i as int), f) is None,
            string_views(seen@) == member_strings(timeline@.take(i as int), "date"@),
        decreases n - i,
    {
        proof {
            lemma_prefix_step(timeline@, i as int, f);
        }
        let day = &timeline[i];
        let date = match day.field_str("date") {
            Some(d) => d,
            None => {
                proof {
                    lemma_prefix_failure_persists(timeline@, i + 1, f);
                }
                return Err(horoscope_error("HOROSCOPE_PERIOD_TIMELINE_MISSING"));
            },
        };
        if !string_list_contains(included, date) || string_list_contains(&seen, date) {
            proof {
                lemma_prefix_failure_persists(timeline@, i + 1, f);
            }
            return Err(quality_error("HOROSCOPE_PERIOD_DATE_RANGE_MISMATCH", detail_str("date", date)));
        }
        if !evidence_keys_valid(evidence, day.field_arr("evidence_keys")) {
            proof {
                lemma_prefix_failure_persists(timeline@, i + 1, f);
            }
            return Err(horoscope_error("HOROSCOPE_PERIOD_EVIDENCE_MISSING"));
        }
        let ghost prev = string_views(seen@);
        seen.push(date.to_owned());
        proof {
            assert(string_views(seen@) =~= prev.push(date@));
            lemma_member_strings_step(timeline@, i as int, "date"@, date@);
        }
        i = i + 1;
    }
    proof {
        assert(timeline@.take(n as int) =~= timeline@);
    }
    let m = included.len();
    let mut j: usize = 0;
    while j < m
        invariant
            m == included@.len(),
            j <= m,
            inc == string_views(included@),
            ev == string_views(evidence@),
            f == (|d: JsonValue, e: Seq<JsonValue>| timeline_day_check(d, e, inc, ev)),
            field_arr(*response, "daily_timeline"@) == Some(timeline@),
            timeline@.len() == 7,
            prefix_check(timeline@, f) is None,
            string_views(seen@) == member_strings(timeline@, "date"@),
            forall|k: int| 0 <= k < j ==> member_strings(timeline@, "date"@).contains(#[trigger] inc[k]),
        decreases m - j,
    {
        if !string_list_contains(&seen, included[j].as_str()) {
            proof {
                assert(!member_strings(timeline@, "date"@).contains(inc[j as int]));
            }
            return Err(quality_error("HOROSCOPE_PERIOD_DATE_RANGE_MISMATCH", detail_str("missing_date", included[j].as_str())));
        }
        j = j + 1;
    }
    Ok(())
}

// ---------------------------------------------------------------------------------------------
// Day markers
// ---------------------------------------------------------------------------------------------

/// The check of a day marker, given the markers before it.
pub open spec fn marker_contract_day_check(
    marker: JsonValue,
    earlier: Seq<JsonValue>,
    included: Seq<Seq<char>>,
    evidence: Seq<Seq<char>>,
) -> Option<Seq<char>> {
    match field_str(marker, "date"@) {
        None => Some("HOROSCOPE_PERIOD_KEY_DAYS_MISSING"@),
        Some(d) => if member_strings(earlier, "date"@).contains(d) {
            Some("HOROSCOPE_PERIOD_DUPLICATE_DAY_MARKER"@)
        } else if !included.contains(d) {
            Some("HOROSCOPE_PERIOD_DATE_RANGE_MISMATCH"@)
        } else {
            fail_if(!evidence_keys_ok(evidence, field_arr(marker, "evidence_keys"@)), "HOROSCOPE_PERIOD_EVIDENCE_MISSING"@)
        },
    }
}

/// The contract of a marker array: each marker on a distinct date of the period, citing known
/// evidence (a missing array holds no marker).
pub open spec fn markers_contract_check(
    response: JsonValue,
    field: Seq<char>,
    included: Seq<Seq<char>>,
    evidence: Seq<Seq<char>>,
) -> Option<Seq<char>> {
    prefix_check(
        array_items(response, field),
        |m: JsonValue, e: Seq<JsonValue>| marker_contract_day_check(m, e, included, evidence),
    )
}

/// Refuses a marker without a date, two markers on one date, a date outside the period, or a
/// marker citing unknown evidence.
pub fn validate_period_day_markers_contract_v2(
    response: &JsonValue,
    field: &str,
    included: &Vec<String>,
    evidence: &Vec<String>,
) -> (r: Result<(), GenerationError>)
    ensures
        match markers_contract_check(*response, field@, string_views(included@), string_views(evidence@)) {
            Some(code) => (r matches Err(e) && err_code(e) == code),
            None => r is Ok,
        },
{
    let ghost inc = string_views(included@);
    let ghost ev = string_views(evidence@);
    let ghost f = |m: JsonValue, e: Seq<JsonValue>| marker_contract_day_check(m, e, inc, ev);
    let empty: Vec<JsonValue> = Vec::new();
    let markers = match response.field_arr(field) {
        Some(m) => m,
        None => &empty,
    };
    assert(markers@ == array_items(*response, field@));
    let n = markers.len();
    let mut seen: Vec<String> = Vec::new();
    let mut i: usize = 0;
    proof {
        assert(markers@.take(0).len() == 0);
        assert(string_views(seen@) =~= member_strings(markers@.take(0), "date"@));
    }
    while i < n
        invariant
            n == markers@.len(),
            i <= n,
            inc == string_views(included@),
            ev == string_views(evidence@),
            f == (|m: JsonValue, e: Seq<JsonValue>| marker_contract_day_check(m, e, inc, ev)),
            markers@ == array_items(*response, field@),
            prefix_check(markers@.take(i as int), f) is None,
            string_views(seen@) == member_strings(markers@.take(i as int), "date"@),
        decreases n - i,
    {
        proof {
            lemma_prefix_step(markers@, i as int, f);
        }
        let marker = &markers[i];
        let date = match marker.field_str("date") {
            Some(d) => d,
            None => {
                proof {
                    lemma_prefix_failure_persists(markers@, i + 1, f);
                }
                return Err(horoscope_error("HOROSCOPE_PERIOD_KEY_DAYS_MISSING"));
            },
        };
        if string_list_contains(&seen, date) {
            proof {
                lemma_prefix_failure_persists(markers@, i + 1, f);
            }
            return Err(quality_error("HOROSCOPE_PERIOD_DUPLICATE_DAY_MARKER", detail_str("date", date)));
        }
        if !string_list_contains(included, date) {
            proof {
                lemma_prefix_failure_persists(markers@, i + 1, f);
            }
            return Err(quality_error("HOROSCOPE_PERIOD_DATE_RANGE_MISMATCH", detail_str("date", date)));
        }
        if !evidence_keys_valid(evidence, marker.field_arr("evidence_keys")) {
            proof {
                lemma_prefix_failure_persists(markers@, i + 1, f);
            }
            return Err(horoscope_error("HOROSCOPE_PERIOD_EVIDENCE_MISSING"));
        }
        let ghost prev = string_views(seen@);
        seen.push(date.to_owned());
        proof {
            assert(string_views(seen@) =~= prev.push(date@));
            lemma_member_strings_step(markers@, i as int, "date"@, date@);
        }
        i = i + 1;
    }
    proof {
        assert(markers@.take(n as int) =~= markers@);
    }
    Ok(())
}

// ---------------------------------------------------------------------------------------------
// Overlapping markers
// ---------------------------------------------------------------------------------------------

/// The dates of the markers of an array field.
pub open spec fn marker_dates(response: JsonValue, field: Seq<char>) -> Seq<Seq<char>> {
    member_strings(array_items(response, field), "date"@)
}

/// A best day may not also be a key day, and a watch day may not also be a best day.
pub open spec fn marker_overlap_check(response: JsonValue) -> Option<Seq<char>> {
    let key = marker_dates(response, "key_days"@);
    let best = marker_dates(response, "best_days"@);
    let watch = marker_dates(response, "watch_days"@);
    if exists|i: int| 0 <= i < best.len() && key.contains(#[trigger] best[i]) {
        Some("HOROSCOPE_PERIOD_KEY_DAYS_MISSING"@)
    } else if exists|i: int| 0 <= i < watch.len() && best.contains(#[trigger] watch[i]) {
        Some("HOROSCOPE_PERIOD_BEST_WATCH_MISSING"@)
    } else {
        None
    }
}

fn marker_dates_of(response: &JsonValue, field: &str) -> (r: Vec<String>)
    ensures
        string_views(r@) == marker_dates(*response, field@),
{
    collect_member_strings(response.field_arr(field), "date")
}

/// The first date of `a` that `b` holds, if any.
fn first_shared(a: &Vec<String>, b: &Vec<String>) -> (r: Option<usize>)
    ensures
        match r {
            Some(i) => i < a@.len() && string_views(b@).contains(a@[i as int]@),
            None => forall|i: int| 0 <= i < a@.len() ==> !string_views(b@).contains(#[trigger] string_views(a@)[i]),
        },
{
    let n = a.len();
    let mut i: usize = 0;
    while i < n
        invariant
            n == a@.len(),
            i <= n,
            forall|j: int| 0 <= j < i ==> !string_views(b@).contains(#[trigger] string_views(a@)[j]),
        decreases n - i,
    {
        if string_list_contains(b, a[i].as_str()) {
            return Some(i);
        }
        i = i + 1;
    }
    None
}

/// Refuses a best day that is also a key day, or a watch day that is also a best day.
pub fn validate_period_marker_date_overlaps(response: &JsonValue) -> (r: Result<(), GenerationError>)
    ensures
        match marker_overlap_check(*response) {
            Some(code) => (r matches Err(e) && err_code(e) == code),
            None => r is Ok,
        },
{
    let key = marker_dates_of(response, "key_days");
    let best = marker_dates_of(response, "best_days");
    let watch = marker_dates_of(response, "watch_days");
    match first_shared(&best, &key) {
        Some(i) => {
            proof {
                assert(string_views(best@)[i as int] == best@[i as int]@);
            }
            return Err(quality_error("HOROSCOPE_PERIOD_KEY_DAYS_MISSING", detail_str("overlap_date", best[i].as_str())));
        },
        None => {},
    }
    match first_shared(&watch, &best) {
        Some(i) => {
            proof {
                assert(string_views(watch@)[i as int] == watch@[i as int]@);
            }
            return Err(quality_error("HOROSCOPE_PERIOD_BEST_WATCH_MISSING", detail_str("overlap_date", watch[i].as_str())));
        },
        None => {},
    }
    Ok(())
}

// ---------------------------------------------------------------------------------------------
// Watch summary
// ---------------------------------------------------------------------------------------------

/// The contract of the watch summary: a known status consistent with the watch days and windows,
/// no evidence for a status of `none`, known evidence otherwise.
pub open spec fn watch_summary_contract_check(response: JsonValue, evidence: Seq<Seq<char>>) -> Option<Seq<char>> {
    let summary = json_at(response, "watch_summary"@);
    let watch_count = array_len(response, "watch_days"@);
    let window_count = array_len(response, "watch_windows"@);
    match field_str(summary, "status"@) {
        None => Some("HOROSCOPE_PERIOD_RESPONSE_INVALID"@),
        Some(status) => if !(status == "none"@ || status == "low"@ || status == "active"@) {
            Some("HOROSCOPE_PERIOD_BEST_WATCH_MISSING"@)
        } else if (status == "none"@ && (watch_count > 0 || window_count > 0)) || (status == "active"@
            && watch_count == 0 && window_count == 0) {
            Some("HOROSCOPE_PERIOD_BEST_WATCH_MISSING"@)
        } else if status == "none"@ {
            fail_if(
                field_arr(summary, "evidence_keys"@) matches Some(ks) && ks.len() > 0,
                "HOROSCOPE_PERIOD_EVIDENCE_MISSING"@,
            )
        } else {
            fail_if(!evidence_keys_ok(evidence, field_arr(summary, "evidence_keys"@)), "HOROSCOPE_PERIOD_EVIDENCE_MISSING"@)
        },
    }
}

/// Refuses a watch summary whose status is unknown or inconsistent with the watch days and
/// windows, or whose evidence is not what its status calls for.
pub fn validate_period_watch_summary(response: &JsonValue, evidence: &Vec<String>) -> (r: Result<(), GenerationError>)
    ensures
        match watch_summary_contract_check(*response, string_views(evidence@)) {
            Some(code) => (r matches Err(e) && err_code(e) == code),
            None => r is Ok,
        },
{
    let null = JsonValue::Null;
    let summary: &JsonValue = match response.get("watch_summary") {
        Some(s) => s,
        None => &null,
    };
    let status = match summary.field_str("status") {
        Some(s) => s,
        None => {
            return Err(horoscope_error("HOROSCOPE_PERIOD_RESPONSE_INVALID"));
        },
    };
    let watch_count = response.field_arr_len("watch_days");
    let window_count = response.field_arr_len("watch_windows");
    let is_none = str_equal(status, "none");
    let is_low = str_equal(status, "low");
    let is_active = str_equal(status, "active");
    if !(is_none || is_low || is_active) {
        return Err(quality_error("HOROSCOPE_PERIOD_BEST_WATCH_MISSING", detail_str("status", status)));
    }
    if (is_none && (watch_count > 0 || window_count > 0)) || (is_active && watch_count == 0 && window_count == 0) {
        return Err(quality_error("HOROSCOPE_PERIOD_BEST_WATCH_MISSING", detail_str("status", status)));
    }
    if is_none {
        let has_keys = match summary.field_arr("evidence_keys") {
            Some(ks) => ks.len() > 0,
            None => false,
        };
        if has_keys {
            return Err(
                quality_error("HOROSCOPE_PERIOD_EVIDENCE_MISSING", detail_str("field", "watch_summary.evidence_keys")),
            );
        }
        return Ok(());
    }
    validate_period_evidence_keys(evidence, summary.field_arr("evidence_keys"))
}

// ---------------------------------------------------------------------------------------------
// Domain sections
// ---------------------------------------------------------------------------------------------

/// The lower-cased domain of a section (empty where it has none).
pub open spec fn section_domain(section: JsonValue) -> Seq<char> {
    lowercase_of(
        match field_str(section, "domain"@) {
            Some(d) => d,
            None => seq![],
        },
    )
}

/// The lower-cased domains of the sections.
pub open spec fn section_domains(sections: Seq<JsonValue>) -> Seq<Seq<char>>
    decreases sections.len(),
{
    if sections.len() == 0 {
        seq![]
    } else {
        section_domains(sections.drop_last()).push(section_domain(sections.last()))
    }
}

/// The evidence keys of a section joined by `|`.
pub open spec fn section_signature(section: JsonValue) -> Seq<char> {
    crate::period_payload::join(strings_in(items_or_empty(field_arr(section, "evidence_keys"@))), "|"@)
}

/// The check of a section, given the sections before it.
pub open spec fn section_check(section: JsonValue, earlier: Seq<JsonValue>, evidence: Seq<Seq<char>>) -> Option<Seq<char>> {
    fail_if(
        section_domains(earlier).contains(section_domain(section)) || !evidence_keys_ok(
            evidence,
            field_arr(section, "evidence_keys"@),
        ),
        "HOROSCOPE_PERIOD_EVIDENCE_MISSING"@,
    )
}

/// The contract of the domain sections: a count in range (three to five for the premium
/// service, two to four otherwise), distinct domains, known evidence, and, with more than one
/// section, not all sections on the same evidence.
pub open spec fn domain_sections_contract_check(response: JsonValue, evidence: Seq<Seq<char>>) -> Option<Seq<char>> {
    match field_arr(response, "domain_sections"@) {
        None => Some("HOROSCOPE_PERIOD_EVIDENCE_MISSING"@),
        Some(sections) => {
            let premium = str_field_is(response, "service_code"@, HOROSCOPE_PREMIUM_NEXT_7_DAYS_NATAL_SERVICE_CODE@);
            let in_range = if premium {
                3 <= sections.len() <= 5
            } else {
                2 <= sections.len() <= 4
            };
            if !in_range {
                Some(
                    if premium {
                        "HOROSCOPE_PERIOD_PREMIUM_DOMAIN_DEPTH_MISSING"@
                    } else {
                        "HOROSCOPE_PERIOD_EVIDENCE_MISSING"@
                    },
                )
            } else {
                first_failure(
                    prefix_check(sections, |s: JsonValue, e: Seq<JsonValue>| section_check(s, e, evidence)),
                    fail_if(
                        sections.len() > 1 && forall|i: int|
                            0 <= i < sections.len() ==> section_signature(#[trigger] sections[i]) == section_signature(
                                sections[0],
                            ),
                        "HOROSCOPE_PERIOD_EVIDENCE_MISSING"@,
                    ),
                )
            }
        },
    }
}

fn signature_of(section: &JsonValue) -> (r: String)
    ensures
        r@ == section_signature(*section),
{
    let keys = collect_strings(section.field_arr("evidence_keys"));
    crate::period_payload::join_strings(&keys, "|")
}

/// Refuses domain sections out of range, on a repeated domain, citing unknown evidence, or all
/// resting on the same evidence.
pub fn validate_period_domain_sections(response: &JsonValue, evidence: &Vec<String>) -> (r: Result<(), GenerationError>)
    ensures
        match domain_sections_contract_check(*response, string_views(evidence@)) {
            Some(code) => (r matches Err(e) && err_code(e) == code),
            None => r is Ok,
        },
{
    let ghost ev = string_views(evidence@);
    let ghost f = |s: JsonValue, e: Seq<JsonValue>| section_check(s, e, ev);
    let sections = match response.field_arr("domain_sections") {
        Some(s) => s,
        None => {
            return Err(horoscope_error("HOROSCOPE_PERIOD_EVIDENCE_MISSING"));
        },
    };
    let premium = field_is(response, "service_code", HOROSCOPE_PREMIUM_NEXT_7_DAYS_NATAL_SERVICE_CODE);
    let n = sections.len();
    let in_range = if premium {
        3 <= n && n <= 5
    } else {
        2 <= n && n <= 4
    };
    if !in_range {
        if premium {
            return Err(quality_error("HOROSCOPE_PERIOD_PREMIUM_DOMAIN_DEPTH_MISSING", detail_str("field", "domain_sections")));
        }
        return Err(quality_error("HOROSCOPE_PERIOD_EVIDENCE_MISSING", detail_str("field", "domain_sections")));
    }
    let mut domains: Vec<String> = Vec::new();
    let first_signature = signature_of(&sections[0]);
    let mut all_same = true;
    let mut i: usize = 0;
    proof {
        assert(sections@.take(0).len() == 0);
        assert(string_views(domains@) =~= section_domains(sections@.take(0)));
    }
    while i < n
        invariant
            n == sections@.len(),
            n >= 2,
            i <= n,
            ev == string_views(evidence@),
            f == (|s: JsonValue, e: Seq<JsonValue>| section_check(s, e, ev)),
            field_arr(*response, "domain_sections"@) == Some(sections@),
            premium == str_field_is(*response, "service_code"@, HOROSCOPE_PREMIUM_NEXT_7_DAYS_NATAL_SERVICE_CODE@),
            in_range,
            in_range == (if premium { 3 <= n && n <= 5 } else { 2 <= n && n <= 4 }),
            first_signature@ == section_signature(sections@[0]),
            all_same == forall|k: int| 0 <= k < i ==> section_signature(#[trigger] sections@[k]) == section_signature(sections@[0]),
            prefix_check(sections@.take(i as int), f) is None,
            string_views(domains@) == section_domains(sections@.take(i as int)),
        decreases n - i,
    {
        proof {
            lemma_prefix_step(sections@, i as int, f);
        }
        let section = &sections[i];
        let raw = match section.field_str("domain") {
            Some(d) => d,
            None => "",
        };
        proof {
            reveal_strlit("");
            assert(""@ =~= Seq::<char>::empty());
            assert(raw@ =~= match field_str(sections@[i as int], "domain"@) {
                Some(d) => d,
                None => Seq::<char>::empty(),
            });
        }
        let domain = to_lowercase(raw);
        proof {
            assert(domain@ == section_domain(sections@[i as int]));
        }
        if string_list_contains(&domains, domain.as_str()) || !evidence_keys_valid(evidence, section.field_arr("evidence_keys")) {
            proof {
                lemma_prefix_failure_persists(sections@, i + 1, f);
            }
            return Err(horoscope_error("HOROSCOPE_PERIOD_EVIDENCE_MISSING"));
        }
        let ghost prev = string_views(domains@);
        domains.push(domain);
        let sig = signature_of(section);
        if !str_equal(sig.as_str(), first_signature.as_str()) {
            all_same = false;
        }
        proof {
            assert(string_views(domains@) =~= prev.push(section_domain(sections@[i as int])));
            assert(sections@.take(i + 1).drop_last() =~= sections@.take(i as int));
            assert(sections@.take(i + 1).last() == sections@[i as int]);
        }
        i = i + 1;
    }
    proof {
        assert(sections@.take(n as int) =~= sections@);
    }
    if n > 1 && all_same {
        return Err(quality_error("HOROSCOPE_PERIOD_EVIDENCE_MISSING", detail_str("reason", "domain_sections_share_same_evidence")));
    }
    Ok(())
}

// ---------------------------------------------------------------------------------------------
// Evidence summary
// ---------------------------------------------------------------------------------------------

/// The check of an evidence-summary item.
pub open spec fn summary_item_check(item: JsonValue, included: Seq<Seq<char>>, evidence: Seq<Seq<char>>) -> Option<Seq<char>> {
    match field_str(item, "date"@) {
        None => Some("HOROSCOPE_PERIOD_EVIDENCE_MISSING"@),
        Some(d) => if !included.contains(d) {
            Some("HOROSCOPE_PERIOD_DATE_RANGE_MISMATCH"@)
        } else {
            match field_str(item, "evidence_key"@) {
                None => Some("HOROSCOPE_PERIOD_EVIDENCE_MISSING"@),
                Some(k) => if !evidence.contains(k) || is_blank(
                    match field_str(item, "label"@) {
                        Some(l) => l,
                        None => seq![],
                    },
                ) {
                    Some("HOROSCOPE_PERIOD_EVIDENCE_MISSING"@)
                } else {
                    None
                },
            }
        },
    }
}

/// The contract of the evidence summary: not empty, each item on a date of the period, citing a
/// known key, with a label.
pub open spec fn evidence_summary_contract_check(
    response: JsonValue,
    included: Seq<Seq<char>>,
    evidence: Seq<Seq<char>>,
) -> Option<Seq<char>> {
    match field_arr(response, "evidence_summary"@) {
        None => Some("HOROSCOPE_PERIOD_EVIDENCE_MISSING"@),
        Some(items) => if items.len() == 0 {
            Some("HOROSCOPE_PERIOD_EVIDENCE_MISSING"@)
        } else {
            prefix_check(items, |x: JsonValue, e: Seq<JsonValue>| summary_item_check(x, included, evidence))
        },
    }
}

/// Refuses an empty evidence summary, or an item off the period, citing an unknown key, or
/// without a label.
pub fn validate_period_evidence_summary(
    response: &JsonValue,
    included: &Vec<String>,
    evidence: &Vec<String>,
) -> (r: Result<(), GenerationError>)
    ensures
        match evidence_summary_contract_check(*response, string_views(included@), string_views(evidence@)) {
            Some(code) => (r matches Err(e) && err_code(e) == code),
            None => r is Ok,
        },
{
    let ghost inc = string_views(included@);
    let ghost ev = string_views(evidence@);
    let ghost f = |x: JsonValue, e: Seq<JsonValue>| summary_item_check(x, inc, ev);
    let items = match response.field_arr("evidence_summary") {
        Some(s) => s,
        None => {
            return Err(horoscope_error("HOROSCOPE_PERIOD_EVIDENCE_MISSING"));
        },
    };
    if items.len() == 0 {
        return Err(quality_error("HOROSCOPE_PERIOD_EVIDENCE_MISSING", detail_str("field", "evidence_summary")));
    }
    let n = items.len();
    let mut i: usize = 0;
    proof {
        assert(items@.take(0).len() == 0);
    }
    while i < n
        invariant
            n == items@.len(),
            n > 0,
            i <= n,
            inc == string_views(included@),
            ev == string_views(evidence@),
            f == (|x: JsonValue, e: Seq<JsonValue>| summary_item_check(x, inc, ev)),
            field_arr(*response, "evidence_summary"@) == Some(items@),
            prefix_check(items@.take(i as int), f) is None,
        decreases n - i,
    {
        proof {
            lemma_prefix_step(items@, i as int, f);
        }
        let item = &items[i];
        let date = match item.field_str("date") {
            Some(d) => d,
            None => {
                proof {
                    lemma_prefix_failure_persists(items@, i + 1, f);
                }
                return Err(horoscope_error("HOROSCOPE_PERIOD_EVIDENCE_MISSING"));
            },
        };
        if !string_list_contains(included, date) {
            proof {
                lemma_prefix_failure_persists(items@, i + 1, f);
            }
            return Err(quality_error("HOROSCOPE_PERIOD_DATE_RANGE_MISMATCH", detail_str("date", date)));
        }
        let key = match item.field_str("evidence_key") {
            Some(k) => k,
            None => {
                proof {
                    lemma_prefix_failure_persists(items@, i + 1, f);
                }
                return Err(horoscope_error("HOROSCOPE_PERIOD_EVIDENCE_MISSING"));
            },
        };
        let label_blank = crate::period_payload::blank_or_missing(item.field_str("label"));
        if !string_list_contains(evidence, key) || label_blank {
            proof {
                lemma_prefix_failure_persists(items@, i + 1, f);
            }
            return Err(horoscope_error("HOROSCOPE_PERIOD_EVIDENCE_MISSING"));
        }
        i = i + 1;
    }
    proof {
        assert(items@.take(n as int) =~= items@);
    }
    Ok(())
}

// ---------------------------------------------------------------------------------------------
// Premium windows and strategy
// ---------------------------------------------------------------------------------------------

/// The texts that every window carries.
pub open spec fn window_text_fields() -> Seq<Seq<char>> {
    seq!["time_range_label"@, "title"@, "theme"@, "tone"@]
}

/// A list of snapshot keys that is present, not empty, and made of known keys only.
pub open spec fn sources_ok(snapshots: Seq<Seq<char>>, sources: Option<Seq<JsonValue>>) -> bool {
    evidence_keys_ok(snapshots, sources)
}

/// The check of one window of the field.
pub open spec fn window_check(
    field: Seq<char>,
    window: JsonValue,
    included: Seq<Seq<char>>,
    evidence: Seq<Seq<char>>,
    snapshots: Seq<Seq<char>>,
) -> Option<Seq<char>> {
    match field_str(window, "date"@) {
        None => Some("HOROSCOPE_PERIOD_PREMIUM_WINDOWS_MISSING"@),
        Some(d) => if !included.contains(d) {
            Some("HOROSCOPE_PERIOD_DATE_RANGE_MISMATCH"@)
        } else if !(forall|k: int| 0 <= k < 4 ==> has_public_string(window, #[trigger] window_text_fields()[k]))
            || !has_public_string(
            window,
            if field == "best_windows"@ {
                "reason"@
            } else {
                "watch_point"@
            },
        ) {
            Some("HOROSCOPE_PERIOD_RESPONSE_INVALID"@)
        } else if !sources_ok(snapshots, field_arr(window, "source_snapshot_keys"@)) {
            Some("HOROSCOPE_PERIOD_PREMIUM_WINDOWS_MISSING"@)
        } else if !evidence_keys_ok(evidence, field_arr(window, "evidence_keys"@)) {
            Some("HOROSCOPE_PERIOD_PREMIUM_WINDOW_EVIDENCE_MISSING"@)
        } else {
            None
        },
    }
}

/// The contract of a window array: each window on a date of the period, with its texts, its
/// known source snapshots and its known evidence.
pub open spec fn window_array_check(
    field: Seq<char>,
    windows: Seq<JsonValue>,
    included: Seq<Seq<char>>,
    evidence: Seq<Seq<char>>,
    snapshots: Seq<Seq<char>>,
) -> Option<Seq<char>> {
    prefix_check(windows, |w: JsonValue, e: Seq<JsonValue>| window_check(field, w, included, evidence, snapshots))
}

/// Refuses a window off the period, without one of its texts, without known source snapshots,
/// or without known evidence.
pub fn validate_period_window_array(
    field: &str,
    windows: &Vec<JsonValue>,
    included: &Vec<String>,
    evidence: &Vec<String>,
    snapshot_keys: &Vec<String>,
) -> (r: Result<(), GenerationError>)
    ensures
        match window_array_check(
            field@,
            windows@,
            string_views(included@),
            string_views(evidence@),
            string_views(snapshot_keys@),
        ) {
            Some(code) => (r matches Err(e) && err_code(e) == code),
            None => r is Ok,
        },
{
    let ghost inc = string_views(included@);
    let ghost ev = string_views(evidence@);
    let ghost sn = string_views(snapshot_keys@);
    let ghost f = |w: JsonValue, e: Seq<JsonValue>| window_check(field@, w, inc, ev, sn);
    let texts = ["time_range_label", "title", "theme", "tone"];
    proof {
        assert(views(texts@) =~= window_text_fields());
    }
    let n = windows.len();
    let mut i: usize = 0;
    proof {
        assert(windows@.take(0).len() == 0);
    }
    while i < n
        invariant
            n == windows@.len(),
            i <= n,
            inc == string_views(included@),
            ev == string_views(evidence@),
            sn == string_views(snapshot_keys@),
            views(texts@) == window_text_fields(),
            f == (|w: JsonValue, e: Seq<JsonValue>| window_check(field@, w, inc, ev, sn)),
            prefix_check(windows@.take(i as int), f) is None,
        decreases n - i,
    {
        proof {
            lemma_prefix_step(windows@, i as int, f);
        }
        let window = &windows[i];
        let date = match window.field_str("date") {
            Some(d) => d,
            None => {
                proof {
                    lemma_prefix_failure_persists(windows@, i + 1, f);
                }
                return Err(horoscope_error("HOROSCOPE_PERIOD_PREMIUM_WINDOWS_MISSING"));
            },
        };
        if !string_list_contains(included, date) {
            proof {
                lemma_prefix_failure_persists(windows@, i + 1, f);
            }
            return Err(quality_error("HOROSCOPE_PERIOD_DATE_RANGE_MISMATCH", detail_str("date", date)));
        }
        let texts_ok = crate::period_payload::require_period_public_fields_of(window, &texts, field);
        if texts_ok.is_err() {
            proof {
                lemma_prefix_failure_persists(windows@, i + 1, f);
            }
            return texts_ok;
        }
        let closing = if str_equal(field, "best_windows") {
            "reason"
        } else {
            "watch_point"
        };
        let closing_ok = crate::period_payload::require_period_public_string_in(window, closing, field);
        if closing_ok.is_err() {
            proof {
                lemma_prefix_failure_persists(windows@, i + 1, f);
            }
            return closing_ok;
        }
        if !evidence_keys_valid(snapshot_keys, window.field_arr("source_snapshot_keys")) {
            proof {
                lemma_prefix_failure_persists(windows@, i + 1, f);
            }
            return Err(horoscope_error("HOROSCOPE_PERIOD_PREMIUM_WINDOWS_MISSING"));
        }
        if !evidence_keys_valid(evidence, window.field_arr("evidence_keys")) {
            proof {
                lemma_prefix_failure_persists(windows@, i + 1, f);
            }
            return Err(quality_error("HOROSCOPE_PERIOD_PREMIUM_WINDOW_EVIDENCE_MISSING", detail_str("date", date)));
        }
        i = i + 1;
    }
    proof {
        assert(windows@.take(n as int) =~= windows@);
    }
    Ok(())
}

/// The texts of the premium strategy.
pub open spec fn strategy_text_fields() -> Seq<Seq<char>> {
    seq!["title"@, "text"@, "best_use"@, "recovery"@]
}

/// The contract of the premium strategy: present, with its four texts, citing known evidence.
pub open spec fn premium_strategy_check(response: JsonValue, evidence: Seq<Seq<char>>) -> Option<Seq<char>> {
    match json_get(response, "strategy"@) {
        None => Some("HOROSCOPE_PERIOD_PREMIUM_STRATEGY_MISSING"@),
        Some(strategy) => if !(forall|k: int| 0 <= k < 4 ==> has_public_string(strategy, #[trigger] strategy_text_fields()[k])) {
            Some("HOROSCOPE_PERIOD_PREMIUM_STRATEGY_MISSING"@)
        } else {
            fail_if(!evidence_keys_ok(evidence, field_arr(strategy, "evidence_keys"@)), "HOROSCOPE_PERIOD_EVIDENCE_MISSING"@)
        },
    }
}

/// Refuses a missing strategy, one without its four texts, or one citing unknown evidence.
pub fn validate_period_premium_strategy(response: &JsonValue, evidence: &Vec<String>) -> (r: Result<(), GenerationError>)
    ensures
        match premium_strategy_check(*response, string_views(evidence@)) {
            Some(code) => (r matches Err(e) && err_code(e) == code),
            None => r is Ok,
        },
{
    let strategy = match response.get("strategy") {
        Some(s) => s,
        None => {
            return Err(horoscope_error("HOROSCOPE_PERIOD_PREMIUM_STRATEGY_MISSING"));
        },
    };
    let texts = ["title", "text", "best_use", "recovery"];
    proof {
        assert(views(texts@) =~= strategy_text_fields());
    }
    if crate::period_payload::require_period_public_fields_of(strategy, &texts, "strategy").is_err() {
        return Err(horoscope_error("HOROSCOPE_PERIOD_PREMIUM_STRATEGY_MISSING"));
    }
    validate_period_evidence_keys(evidence, strategy.field_arr("evidence_keys"))
}

/// An `active` watch summary needs a watch day or a watch window: where the response has
/// neither (no list, or empty lists), it is refused with `HOROSCOPE_PERIOD_BEST_WATCH_MISSING`,
/// whatever the evidence.
pub proof fn law_active_watch_summary_needs_watch_days(response: JsonValue, evidence: Seq<Seq<char>>)
    requires
        field_str(json_at(response, "watch_summary"@), "status"@) == Some("active"@),
        field_arr(response, "watch_days"@) matches Some(a) ==> a.len() == 0,
        field_arr(response, "watch_windows"@) matches Some(a) ==> a.len() == 0,
    ensures
        watch_summary_contract_check(response, evidence) == Some("HOROSCOPE_PERIOD_BEST_WATCH_MISSING"@),
{
    reveal_strlit("active");
    reveal_strlit("none");
    reveal_strlit("low");
    assert("active"@.len() != "none"@.len() && "active"@.len() != "low"@.len());
}

} // verus!
