//! The semantic brief of a writer request may only point at what the request holds: dates of
//! the period, snapshot keys of the scan plan, and evidence keys of the evidence list.
use vstd::prelude::*;

use crate::error::{GenerationError, GenerationErrorCode, err_code, err_kind, first_failure, period_v2_request_error, detail_str};
use crate::json::{JsonEntry, JsonValue, field_arr, json_arr, json_at, json_get, json_str};
use crate::text::{str_equal, string_list_contains, string_views};

verus! {

/// The strings among the values, in order (`filter_map(as_str)`).
pub open spec fn strings_in(items: Seq<JsonValue>) -> Seq<Seq<char>>
    decreases items.len(),
{
    if items.len() == 0 {
        seq![]
    } else {
        match json_str(items.last()) {
            Some(s) => strings_in(items.drop_last()).push(s),
            None => strings_in(items.drop_last()),
        }
    }
}

/// The strings found under `key` in the values, in order.
pub open spec fn member_strings(items: Seq<JsonValue>, key: Seq<char>) -> Seq<Seq<char>>
    decreases items.len(),
{
    if items.len() == 0 {
        seq![]
    } else {
        match json_str(json_at(items.last(), key)) {
            Some(s) => member_strings(items.drop_last(), key).push(s),
            None => member_strings(items.drop_last(), key),
        }
    }
}

/// The string of each item under `key` is among the strings found under `key`.
pub proof fn lemma_member_strings_contains(items: Seq<JsonValue>, key: Seq<char>, i: int)
    requires
        0 <= i < items.len(),
        json_str(json_at(items[i], key)) is Some,
    ensures
        member_strings(items, key).contains(json_str(json_at(items[i], key))->0),
    decreases items.len(),
{
    let s = json_str(json_at(items[i], key))->0;
    if i == items.len() - 1 {
        let m = member_strings(items, key);
        assert(m == member_strings(items.drop_last(), key).push(s));
        assert(m[m.len() - 1] == s);
    } else {
        assert(items.drop_last()[i] == items[i]);
        lemma_member_strings_contains(items.drop_last(), key, i);
        let prev = member_strings(items.drop_last(), key);
        let k = choose|k: int| 0 <= k < prev.len() && prev[k] == s;
        match json_str(json_at(items.last(), key)) {
            Some(t) => {
                assert(member_strings(items, key)[k] == s);
            },
            None => {},
        }
    }
}

/// The items of an optional array, none where it is missing.
pub open spec fn items_or_empty(v: Option<Seq<JsonValue>>) -> Seq<JsonValue> {
    match v {
        Some(items) => items,
        None => seq![],
    }
}

/// The strings among the items of an array.
pub fn collect_strings(items: Option<&Vec<JsonValue>>) -> (r: Vec<String>)
    ensures
        string_views(r@) == strings_in(
            match items {
                Some(v) => v@,
                None => seq![],
            },
        ),
{
    let mut out: Vec<String> = Vec::new();
    match items {
        None => {
            assert(string_views(out@) =~= Seq::<Seq<char>>::empty());
        },
        Some(v) => {
            let n = v.len();
            let mut i: usize = 0;
            assert(string_views(out@) =~= strings_in(v@.take(0)));
            while i < n
                invariant
                    n == v@.len(),
                    i <= n,
                    string_views(out@) == strings_in(v@.take(i as int)),
                decreases n - i,
            {
                proof {
                    assert(v@.take(i + 1).drop_last() =~= v@.take(i as int));
                    assert(v@.take(i + 1).last() == v@[i as int]);
                }
                match v[i].as_str() {
                    Some(s) => {
                        let ghost prev = string_views(out@);
                        out.push(s.to_owned());
                        assert(string_views(out@) =~= prev.push(s@));
                    },
                    None => {},
                }
                i = i + 1;
            }
            assert(v@.take(n as int) =~= v@);
        },
    }
    out
}

/// The strings found under `key` in the items of an array.
pub fn collect_member_strings(items: Option<&Vec<JsonValue>>, key: &str) -> (r: Vec<String>)
    ensures
        string_views(r@) == member_strings(
            match items {
                Some(v) => v@,
                None => seq![],
            },
            key@,
        ),
{
    let mut out: Vec<String> = Vec::new();
    match items {
        None => {
            assert(string_views(out@) =~= Seq::<Seq<char>>::empty());
        },
        Some(v) => {
            let n = v.len();
            let mut i: usize = 0;
            assert(string_views(out@) =~= member_strings(v@.take(0), key@));
            while i < n
                invariant
                    n == v@.len(),
                    i <= n,
                    string_views(out@) == member_strings(v@.take(i as int), key@),
                decreases n - i,
            {
                proof {
                    assert(v@.take(i + 1).drop_last() =~= v@.take(i as int));
                    assert(v@.take(i + 1).last() == v@[i as int]);
                }
                let found = match v[i].get(key) {
                    Some(x) => x.as_str(),
                    None => None,
                };
                match found {
                    Some(s) => {
                        let ghost prev = string_views(out@);
                        out.push(s.to_owned());
                        assert(string_views(out@) =~= prev.push(s@));
                    },
                    None => {},
                }
                i = i + 1;
            }
            assert(v@.take(n as int) =~= v@);
        },
    }
    out
}

/// Whether the reference list is allowed: evidence keys among the evidence, snapshot keys among
/// the snapshots.
pub open spec fn reference_allowed(field: Seq<char>, s: Seq<char>, snaps: Seq<Seq<char>>, evs: Seq<Seq<char>>) -> bool {
    if field == "evidence_keys"@ {
        evs.contains(s)
    } else {
        snaps.contains(s)
    }
}

/// The check of one item of a reference list, given the items before it.
pub open spec fn reference_item_check(
    item: JsonValue,
    earlier: Seq<JsonValue>,
    field: Seq<char>,
    snaps: Seq<Seq<char>>,
    evs: Seq<Seq<char>>,
) -> Option<Seq<char>> {
    match json_str(item) {
        None => Some("HOROSCOPE_PERIOD_WRITER_REQUEST_V2_INVALID_REFERENCE"@),
        Some(s) => if strings_in(earlier).contains(s) {
            Some("HOROSCOPE_PERIOD_WRITER_REQUEST_V2_DUPLICATE_REFERENCE"@)
        } else if !reference_allowed(field, s, snaps, evs) {
            Some("HOROSCOPE_PERIOD_WRITER_REQUEST_V2_UNKNOWN_REFERENCE"@)
        } else {
            None
        },
    }
}

/// The first failing item of a reference list.
pub open spec fn reference_list_check(
    items: Seq<JsonValue>,
    field: Seq<char>,
    snaps: Seq<Seq<char>>,
    evs: Seq<Seq<char>>,
) -> Option<Seq<char>>
    decreases items.len(),
{
    if items.len() == 0 {
        None
    } else {
        first_failure(
            reference_list_check(items.drop_last(), field, snaps, evs),
            reference_item_check(items.last(), items.drop_last(), field, snaps, evs),
        )
    }
}

/// A field that holds a list of references.
pub open spec fn is_reference_field(field: Seq<char>) -> bool {
    field == "evidence_keys"@ || field == "source_snapshot_keys"@
}

/// The first reference of the value, reached under `field`, that points outside the request.
pub open spec fn references_check(
    v: JsonValue,
    field: Seq<char>,
    dates: Seq<Seq<char>>,
    snaps: Seq<Seq<char>>,
    evs: Seq<Seq<char>>,
) -> Option<Seq<char>>
    decreases v,
{
    match v {
        JsonValue::Object(entries) => references_check_entries(entries@, dates, snaps, evs),
        JsonValue::Array(items) => if is_reference_field(field) {
            reference_list_check(items@, field, snaps, evs)
        } else {
            references_check_items(items@, field, dates, snaps, evs)
        },
        JsonValue::Str(s) => if field == "date"@ && !dates.contains(s@) {
            Some("HOROSCOPE_PERIOD_WRITER_REQUEST_V2_DATE_OUTSIDE_PERIOD"@)
        } else {
            None
        },
        _ => None,
    }
}

/// The first failing member of an object, each member checked under its own key.
pub open spec fn references_check_entries(
    entries: Seq<JsonEntry>,
    dates: Seq<Seq<char>>,
    snaps: Seq<Seq<char>>,
    evs: Seq<Seq<char>>,
) -> Option<Seq<char>>
    decreases entries,
{
    if entries.len() == 0 {
        None
    } else {
        first_failure(
            references_check(entries[0].value, entries[0].key@, dates, snaps, evs),
            references_check_entries(entries.drop_first(), dates, snaps, evs),
        )
    }
}

/// The first failing item of an array, each item checked under the array's field.
pub open spec fn references_check_items(
    items: Seq<JsonValue>,
    field: Seq<char>,
    dates: Seq<Seq<char>>,
    snaps: Seq<Seq<char>>,
    evs: Seq<Seq<char>>,
) -> Option<Seq<char>>
    decreases items,
{
    if items.len() == 0 {
        None
    } else {
        first_failure(
            references_check(items[0], field, dates, snaps, evs),
            references_check_items(items.drop_first(), field, dates, snaps, evs),
        )
    }
}

proof fn lemma_list_failure_persists(
    items: Seq<JsonValue>,
    k: int,
    field: Seq<char>,
    snaps: Seq<Seq<char>>,
    evs: Seq<Seq<char>>,
)
    requires
        0 <= k <= items.len(),
        reference_list_check(items.take(k), field, snaps, evs) is Some,
    ensures
        reference_list_check(items, field, snaps, evs) == reference_list_check(items.take(k), field, snaps, evs),
    decreases items.len() - k,
{
    if k < items.len() {
        assert(items.take(k + 1).drop_last() =~= items.take(k));
        lemma_list_failure_persists(items, k + 1, field, snaps, evs);
    } else {
        assert(items.take(k) =~= items);
    }
}

fn check_reference_list(
    items: &Vec<JsonValue>,
    field: &str,
    snaps: &Vec<String>,
    evs: &Vec<String>,
) -> (r: Result<(), GenerationError>)
    ensures
        match reference_list_check(items@, field@, string_views(snaps@), string_views(evs@)) {
            Some(code) => (r matches Err(e) && err_code(e) == code),
            None => r is Ok,
        },
        r matches Err(e) ==> err_kind(e) == GenerationErrorCode::InvalidInput,
{
    let n = items.len();
    let mut seen: Vec<String> = Vec::new();
    let mut i: usize = 0;
    let ghost sn = string_views(snaps@);
    let ghost ev = string_views(evs@);
    proof {
        assert(items@.take(0).len() == 0);
        assert(string_views(seen@) =~= Seq::<Seq<char>>::empty());
    }
    while i < n
        invariant
            n == items@.len(),
            i <= n,
            sn == string_views(snaps@),
            ev == string_views(evs@),
            reference_list_check(items@.take(i as int), field@, sn, ev) is None,
            string_views(seen@) == strings_in(items@.take(i as int)),
        decreases n - i,
    {
        proof {
            assert(items@.take(i + 1).drop_last() =~= items@.take(i as int));
            assert(items@.take(i + 1).last() == items@[i as int]);
        }
        let raw = match items[i].as_str() {
            Some(s) => s,
            None => {
                proof {
                    lemma_list_failure_persists(items@, i + 1, field@, sn, ev);
                }
                return Err(
                    period_v2_request_error(
                        "HOROSCOPE_PERIOD_WRITER_REQUEST_V2_INVALID_REFERENCE",
                        detail_str("field", field),
                    ),
                );
            },
        };
        if string_list_contains(&seen, raw) {
            proof {
                lemma_list_failure_persists(items@, i + 1, field@, sn, ev);
            }
            return Err(
                period_v2_request_error("HOROSCOPE_PERIOD_WRITER_REQUEST_V2_DUPLICATE_REFERENCE", detail_str("value", raw)),
            );
        }
        let allowed = if str_equal(field, "evidence_keys") {
            string_list_contains(evs, raw)
        } else {
            string_list_contains(snaps, raw)
        };
        if !allowed {
            proof {
                lemma_list_failure_persists(items@, i + 1, field@, sn, ev);
            }
            return Err(
                period_v2_request_error("HOROSCOPE_PERIOD_WRITER_REQUEST_V2_UNKNOWN_REFERENCE", detail_str("value", raw)),
            );
        }
        let ghost prev = string_views(seen@);
        seen.push(raw.to_owned());
        proof {
            assert(string_views(seen@) =~= prev.push(raw@));
        }
        i = i + 1;
    }
    proof {
        assert(items@.take(n as int) =~= items@);
    }
    Ok(())
}

proof fn lemma_entries_step(
    entries: Seq<JsonEntry>,
    i: int,
    dates: Seq<Seq<char>>,
    snaps: Seq<Seq<char>>,
    evs: Seq<Seq<char>>,
)
    requires
        0 <= i < entries.len(),
    ensures
        references_check_entries(entries.skip(i), dates, snaps, evs) == first_failure(
            references_check(entries[i].value, entries[i].key@, dates, snaps, evs),
            references_check_entries(entries.skip(i + 1), dates, snaps, evs),
        ),
{
    assert(entries.skip(i)[0] == entries[i]);
    assert(entries.skip(i).drop_first() =~= entries.skip(i + 1));
}

proof fn lemma_items_step(
    items: Seq<JsonValue>,
    i: int,
    field: Seq<char>,
    dates: Seq<Seq<char>>,
    snaps: Seq<Seq<char>>,
    evs: Seq<Seq<char>>,
)
    requires
        0 <= i < items.len(),
    ensures
        references_check_items(items.skip(i), field, dates, snaps, evs) == first_failure(
            references_check(items[i], field, dates, snaps, evs),
            references_check_items(items.skip(i + 1), field, dates, snaps, evs),
        ),
{
    assert(items.skip(i)[0] == items[i]);
    assert(items.skip(i).drop_first() =~= items.skip(i + 1));
}

/// Checks every reference of a value reached under `field`: dates must fall in the period,
/// reference lists must hold distinct known keys.
pub fn validate_semantic_brief_references(
    value: &JsonValue,
    field_name: &str,
    included_dates: &Vec<String>,
    snapshot_keys: &Vec<String>,
    evidence_keys: &Vec<String>,
) -> (r: Result<(), GenerationError>)
    ensures
        match references_check(
            *value,
            field_name@,
            string_views(included_dates@),
            string_views(snapshot_keys@),
            string_views(evidence_keys@),
        ) {
            Some(code) => (r matches Err(e) && err_code(e) == code),
            None => r is Ok,
        },
        r matches Err(e) ==> err_kind(e) == GenerationErrorCode::InvalidInput,
    decreases value,
{
    let ghost dates = string_views(included_dates@);
    let ghost sn = string_views(snapshot_keys@);
    let ghost ev = string_views(evidence_keys@);
    match value {
        JsonValue::Object(entries) => {
            let n = entries.len();
            let mut i: usize = 0;
            proof {
                assert(entries@.skip(0) =~= entries@);
            }
            while i < n
                invariant
                    *value == JsonValue::Object(*entries),
                    n == entries@.len(),
                    i <= n,
                    dates == string_views(included_dates@),
                    sn == string_views(snapshot_keys@),
                    ev == string_views(evidence_keys@),
                    references_check_entries(entries@.skip(i as int), dates, sn, ev)
                        == references_check_entries(entries@, dates, sn, ev),
                decreases n - i,
            {
                proof {
                    assert(decreases_to!(*value => (*value)->Object_0));
                    assert(decreases_to!(*entries => entries@));
                    assert(decreases_to!(entries@ => entries@[i as int]));
                    assert(decreases_to!(entries@[i as int] => entries@[i as int].value));
                    lemma_entries_step(entries@, i as int, dates, sn, ev);
                }
                let res = validate_semantic_brief_references(
                    &entries[i].value,
                    entries[i].key.as_str(),
                    included_dates,
                    snapshot_keys,
                    evidence_keys,
                );
                if res.is_err() {
                    return res;
                }
                i = i + 1;
            }
            proof {
                assert(entries@.skip(n as int).len() == 0);
            }
            Ok(())
        },
        JsonValue::Array(items) => {
            if str_equal(field_name, "evidence_keys") || str_equal(field_name, "source_snapshot_keys") {
                return check_reference_list(items, field_name, snapshot_keys, evidence_keys);
            }
            let n = items.len();
            let mut i: usize = 0;
            proof {
                assert(items@.skip(0) =~= items@);
            }
            while i < n
                invariant
                    *value == JsonValue::Array(*items),
                    !is_reference_field(field_name@),
                    n == items@.len(),
                    i <= n,
                    dates == string_views(included_dates@),
                    sn == string_views(snapshot_keys@),
                    ev == string_views(evidence_keys@),
                    references_check_items(items@.skip(i as int), field_name@, dates, sn, ev)
                        == references_check_items(items@, field_name@, dates, sn, ev),
                decreases n - i,
            {
                proof {
                    assert(decreases_to!(*value => (*value)->Array_0));
                    assert(decreases_to!(*items => items@));
                    assert(decreases_to!(items@ => items@[i as int]));
                    lemma_items_step(items@, i as int, field_name@, dates, sn, ev);
                }
                let res = validate_semantic_brief_references(
                    &items[i],
                    field_name,
                    included_dates,
                    snapshot_keys,
                    evidence_keys,
                );
                if res.is_err() {
                    return res;
                }
                i = i + 1;
            }
            proof {
                assert(items@.skip(n as int).len() == 0);
            }
            Ok(())
        },
        JsonValue::Str(raw) => {
            if str_equal(field_name, "date") && !string_list_contains(included_dates, raw.as_str()) {
                return Err(
                    period_v2_request_error(
                        "HOROSCOPE_PERIOD_WRITER_REQUEST_V2_DATE_OUTSIDE_PERIOD",
                        detail_str("date", raw.as_str()),
                    ),
                );
            }
            Ok(())
        },
        _ => Ok(()),
    }
}

/// The evidence keys of the request's evidence list: the first missing or repeated key.
pub open spec fn evidence_list_check(items: Seq<JsonValue>) -> Option<Seq<char>>
    decreases items.len(),
{
    if items.len() == 0 {
        None
    } else {
        first_failure(
            evidence_list_check(items.drop_last()),
            match json_str(json_at(items.last(), "evidence_key"@)) {
                None => Some("HOROSCOPE_PERIOD_EVIDENCE_MISSING"@),
                Some(k) => if member_strings(items.drop_last(), "evidence_key"@).contains(k) {
                    Some("HOROSCOPE_PERIOD_EVIDENCE_DUPLICATE"@)
                } else {
                    None
                },
            },
        )
    }
}

/// The dates of the request's period.
pub open spec fn request_dates(value: JsonValue) -> Seq<Seq<char>> {
    strings_in(items_or_empty(json_arr(json_at(json_at(value, "period_resolution"@), "included_dates"@))))
}

/// The snapshot keys of the request's scan plan.
pub open spec fn request_snapshot_keys(value: JsonValue) -> Seq<Seq<char>> {
    member_strings(
        items_or_empty(json_arr(json_at(json_at(value, "scan_plan"@), "snapshots"@))),
        "snapshot_key"@,
    )
}

/// The check of a writer request's semantic brief, in the order the validator runs it.
pub open spec fn semantic_brief_check(value: JsonValue) -> Option<Seq<char>> {
    match json_get(value, "semantic_brief"@) {
        None => Some("HOROSCOPE_PERIOD_WRITER_REQUEST_INVALID"@),
        Some(semantic) => match field_arr(value, "evidence"@) {
            None => Some("HOROSCOPE_PERIOD_EVIDENCE_MISSING"@),
            Some(items) => first_failure(
                evidence_list_check(items),
                references_check(
                    semantic,
                    Seq::empty(),
                    request_dates(value),
                    request_snapshot_keys(value),
                    member_strings(items, "evidence_key"@),
                ),
            ),
        },
    }
}

proof fn lemma_evidence_failure_persists(items: Seq<JsonValue>, k: int)
    requires
        0 <= k <= items.len(),
        evidence_list_check(items.take(k)) is Some,
    ensures
        evidence_list_check(items) == evidence_list_check(items.take(k)),
    decreases items.len() - k,
{
    if k < items.len() {
        assert(items.take(k + 1).drop_last() =~= items.take(k));
        lemma_evidence_failure_persists(items, k + 1);
    } else {
        assert(items.take(k) =~= items);
    }
}

/// Checks that a writer request carries a semantic brief and an evidence list of distinct keys,
/// and that every date, snapshot key and evidence key the brief cites belongs to the request.
pub fn validate_semantic_brief_references_only(value: &JsonValue) -> (r: Result<(), GenerationError>)
    ensures
        match semantic_brief_check(*value) {
            Some(code) => (r matches Err(e) && err_code(e) == code),
            None => r is Ok,
        },
        r matches Err(e) ==> err_kind(e) == GenerationErrorCode::InvalidInput,
        crate::json::json_get(*value, "semantic_brief"@) is None ==> (r matches Err(e) && crate::json::field_str(
            e.detail.details,
            "missing"@,
        ) == Some("semantic_brief"@)),
{
    let semantic = match value.get("semantic_brief") {
        Some(s) => s,
        None => {
            return Err(
                period_v2_request_error("HOROSCOPE_PERIOD_WRITER_REQUEST_INVALID", detail_str("missing", "semantic_brief")),
            );
        },
    };
    let dates_src = match value.get("period_resolution") {
        Some(p) => p.field_arr("included_dates"),
        None => None,
    };
    let included_dates = collect_strings(dates_src);
    let snaps_src = match value.get("scan_plan") {
        Some(p) => p.field_arr("snapshots"),
        None => None,
    };
    let snapshot_keys = collect_member_strings(snaps_src, "snapshot_key");
    proof {
        assert(crate::json::field_arr(json_at(*value, "period_resolution"@), "included_dates"@) == json_arr(
            json_at(json_at(*value, "period_resolution"@), "included_dates"@),
        ));
    }
    let items = match value.field_arr("evidence") {
        Some(items) => items,
        None => {
            return Err(period_v2_request_error("HOROSCOPE_PERIOD_EVIDENCE_MISSING", detail_str("field", "evidence")));
        },
    };
    let n = items.len();
    let mut keys: Vec<String> = Vec::new();
    let mut i: usize = 0;
    proof {
        assert(string_views(keys@) =~= member_strings(items@.take(0), "evidence_key"@));
    }
    while i < n
        invariant
            n == items@.len(),
            i <= n,
            json_get(*value, "semantic_brief"@) is Some,
            field_arr(*value, "evidence"@) == Some(items@),
            evidence_list_check(items@.take(i as int)) is None,
            string_views(keys@) == member_strings(items@.take(i as int), "evidence_key"@),
        decreases n - i,
    {
        proof {
            assert(items@.take(i + 1).drop_last() =~= items@.take(i as int));
            assert(items@.take(i + 1).last() == items@[i as int]);
        }
        let key = match items[i].get("evidence_key") {
            Some(k) => k.as_str(),
            None => None,
        };
        proof {
            assert(crate::json::opt_view(key) == json_str(json_at(items@[i as int], "evidence_key"@)));
        }
        let key = match key {
            Some(k) => k,
            None => {
                proof {
                    lemma_evidence_failure_persists(items@, i + 1);
                }
                return Err(
                    period_v2_request_error("HOROSCOPE_PERIOD_EVIDENCE_MISSING", detail_str("field", "evidence.evidence_key")),
                );
            },
        };
        if string_list_contains(&keys, key) {
            proof {
                lemma_evidence_failure_persists(items@, i + 1);
            }
            return Err(period_v2_request_error("HOROSCOPE_PERIOD_EVIDENCE_DUPLICATE", detail_str("evidence_key", key)));
        }
        let ghost prev = string_views(keys@);
        keys.push(key.to_owned());
        proof {
            assert(string_views(keys@) =~= prev.push(key@));
        }
        i = i + 1;
    }
    proof {
        assert(items@.take(n as int) =~= items@);
    }
    proof {
        reveal_strlit("");
        assert(""@ =~= Seq::<char>::empty());
        assert(string_views(included_dates@) == request_dates(*value));
        assert(string_views(snapshot_keys@) == request_snapshot_keys(*value));
    }
    validate_semantic_brief_references(semantic, "", &included_dates, &snapshot_keys, &keys)
}

/// The atomicity gate of a writer request: its semantic brief only references what the request
/// holds.
pub fn validate_semantic_brief_is_atomic(value: &JsonValue) -> (r: Result<(), GenerationError>)
    ensures
        match semantic_brief_check(*value) {
            Some(code) => (r matches Err(e) && err_code(e) == code),
            None => r is Ok,
        },
        r matches Err(e) ==> err_kind(e) == GenerationErrorCode::InvalidInput,
        crate::json::json_get(*value, "semantic_brief"@) is None ==> (r matches Err(e) && crate::json::field_str(
            e.detail.details,
            "missing"@,
        ) == Some("semantic_brief"@)),
{
    validate_semantic_brief_references_only(value)
}

} // verus!
