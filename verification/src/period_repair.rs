//! Repair of the shape of a seven-day response before it is checked: its identity, its quality
//! block, the sections its offer does not carry, and the evidence keys of its days.
use vstd::prelude::*;

use crate::json::{
    JsonValue, field_arr, field_str, json_arr, json_at, json_bool, json_clone, json_get, json_int, json_same, opt_deref,
    remove_member, set_member, take_member,
};
use crate::period_payload::views;
use crate::period_quality::array_items;
use crate::service_codes::{
    HOROSCOPE_BASIC_NEXT_7_DAYS_NATAL_SERVICE_CODE, free_period_service, is_free_period_service, is_premium_period_service,
    premium_period_service,
};
use crate::text::str_equal;

verus! {

/// The letters that tell apart the member names of a response.
proof fn lemma_key_letters()
    ensures
        "contract_version"@.len() > 1 && "contract_version"@[0] == 'c',
        "service_code"@.len() > 1 && "service_code"@[0] == 's' && "service_code"@[1] == 'e',
        "period_resolution"@.len() > 7 && "period_resolution"@[0] == 'p' && "period_resolution"@[7] == 'r',
        "quality"@.len() > 1 && "quality"@[0] == 'q',
        "summary"@.len() > 1 && "summary"@[0] == 's' && "summary"@[1] == 'u',
        "strategy"@.len() > 1 && "strategy"@[0] == 's' && "strategy"@[1] == 't',
        "dominant_theme"@.len() > 3 && "dominant_theme"@[0] == 'd' && "dominant_theme"@[1] == 'o' && "dominant_theme"@[3] == 'i',
        "daily_timeline"@.len() > 3 && "daily_timeline"@[0] == 'd' && "daily_timeline"@[1] == 'a',
        "domain_sections"@.len() > 3 && "domain_sections"@[0] == 'd' && "domain_sections"@[1] == 'o' && "domain_sections"@[3] == 'a',
        "week_overview"@.len() > 1 && "week_overview"@[0] == 'w' && "week_overview"@[1] == 'e',
        "best_days"@.len() > 5 && "best_days"@[0] == 'b' && "best_days"@[5] == 'd',
        "best_windows"@.len() > 5 && "best_windows"@[0] == 'b' && "best_windows"@[5] == 'w',
        "watch_days"@.len() > 6 && "watch_days"@[0] == 'w' && "watch_days"@[1] == 'a' && "watch_days"@[6] == 'd',
        "watch_windows"@.len() > 6 && "watch_windows"@[0] == 'w' && "watch_windows"@[1] == 'a' && "watch_windows"@[6] == 'w',
        "watch_summary"@.len() > 6 && "watch_summary"@[0] == 'w' && "watch_summary"@[1] == 'a' && "watch_summary"@[6] == 's',
        "key_days"@.len() > 1 && "key_days"@[0] == 'k',
        "evidence_keys"@.len() > 1 && "evidence_keys"@[0] == 'e',
        "daily_timeline_count"@.len() > 1 && "daily_timeline_count"@[0] == 'd',
        "evidence_guard_passed"@.len() > 1 && "evidence_guard_passed"@[0] == 'e',
        "best_watch_overlap_passed"@.len() > 1 && "best_watch_overlap_passed"@[0] == 'b',
        "provider"@.len() > 1 && "provider"@[0] == 'p' && "provider"@[1] == 'r',
        "model"@.len() > 1 && "model"@[0] == 'm',
        "fallback_used"@.len() > 1 && "fallback_used"@[0] == 'f',
        "period_contract"@.len() > 7 && "period_contract"@[0] == 'p' && "period_contract"@[1] == 'e' && "period_contract"@[7] == 'c',
{
    reveal_strlit("contract_version");
    reveal_strlit("service_code");
    reveal_strlit("period_resolution");
    reveal_strlit("quality");
    reveal_strlit("summary");
    reveal_strlit("strategy");
    reveal_strlit("dominant_theme");
    reveal_strlit("daily_timeline");
    reveal_strlit("domain_sections");
    reveal_strlit("week_overview");
    reveal_strlit("best_days");
    reveal_strlit("best_windows");
    reveal_strlit("watch_days");
    reveal_strlit("watch_windows");
    reveal_strlit("watch_summary");
    reveal_strlit("key_days");
    reveal_strlit("evidence_keys");
    reveal_strlit("daily_timeline_count");
    reveal_strlit("evidence_guard_passed");
    reveal_strlit("best_watch_overlap_passed");
    reveal_strlit("provider");
    reveal_strlit("model");
    reveal_strlit("fallback_used");
    reveal_strlit("period_contract");
}

// ---------------------------------------------------------------------------------------------
// The offer of a request
// ---------------------------------------------------------------------------------------------

/// The service of a request, the basic seven-day service where it names none.
pub open spec fn request_service(request: JsonValue) -> Seq<char> {
    match field_str(request, "service_code"@) {
        Some(s) => s,
        None => HOROSCOPE_BASIC_NEXT_7_DAYS_NATAL_SERVICE_CODE@,
    }
}

fn service_of(request: &JsonValue) -> (r: &str)
    ensures
        r@ == request_service(*request),
{
    match request.field_str("service_code") {
        Some(s) => s,
        None => HOROSCOPE_BASIC_NEXT_7_DAYS_NATAL_SERVICE_CODE,
    }
}

/// The name of the contract of a seven-day offer.
pub open spec fn period_contract_name(code: Seq<char>) -> Seq<char> {
    if free_period_service(code) {
        "free_next_7_days"@
    } else if premium_period_service(code) {
        "premium_next_7_days"@
    } else {
        "basic_next_7_days"@
    }
}

/// The quality block of a reading the fake provider wrote.
pub open spec fn fake_quality(q: JsonValue, service_code: Seq<char>, daily_count: nat) -> bool {
    &&& q is Object
    &&& daily_count <= i64::MAX ==> json_int(json_at(q, "daily_timeline_count"@)) == Some(daily_count as i64)
    &&& json_bool(json_at(q, "evidence_guard_passed"@)) == Some(true)
    &&& json_bool(json_at(q, "best_watch_overlap_passed"@)) == Some(true)
    &&& field_str(q, "provider"@) == Some("fake"@)
    &&& field_str(q, "model"@) == Some("fake-model"@)
    &&& json_bool(json_at(q, "fallback_used"@)) == Some(false)
    &&& field_str(q, "period_contract"@) == Some(period_contract_name(service_code))
    &&& forall|k: Seq<char>| !is_fake_quality_field(k) ==> #[trigger] json_get(q, k) is None
}

/// The members of a fake quality block.
pub open spec fn is_fake_quality_field(k: Seq<char>) -> bool {
    ||| k == "daily_timeline_count"@
    ||| k == "evidence_guard_passed"@
    ||| k == "best_watch_overlap_passed"@
    ||| k == "provider"@
    ||| k == "model"@
    ||| k == "fallback_used"@
    ||| k == "period_contract"@
}

/// The quality block of a reading the fake provider wrote: the day count, the passed guards,
/// the fake provider and model, and the contract of the offer. The request plays no part.
pub fn quality_v2(service_code: &str, request: &JsonValue, daily_count: usize) -> (r: JsonValue)
    ensures
        fake_quality(r, service_code@, daily_count as nat),
{
    let _ = request;
    let contract = if is_free_period_service(service_code) {
        "free_next_7_days"
    } else if is_premium_period_service(service_code) {
        "premium_next_7_days"
    } else {
        "basic_next_7_days"
    };
    let mut q = JsonValue::Null;
    set_member(&mut q, "daily_timeline_count", crate::json::json_count(daily_count));
    set_member(&mut q, "evidence_guard_passed", JsonValue::Bool(true));
    set_member(&mut q, "best_watch_overlap_passed", JsonValue::Bool(true));
    set_member(&mut q, "provider", JsonValue::Str("fake".to_owned()));
    set_member(&mut q, "model", JsonValue::Str("fake-model".to_owned()));
    set_member(&mut q, "fallback_used", JsonValue::Bool(false));
    set_member(&mut q, "period_contract", JsonValue::Str(contract.to_owned()));
    proof {
        lemma_key_letters();
    }
    q
}

// ---------------------------------------------------------------------------------------------
// Sections the offer does not carry
// ---------------------------------------------------------------------------------------------

/// A section that a response of the offer may not carry: a free response carries none of the
/// detailed sections, a premium one no free summary, and a basic one neither the free summary
/// nor the premium windows and strategy.
pub open spec fn is_pruned(code: Seq<char>, k: Seq<char>) -> bool {
    if free_period_service(code) {
        ||| k == "week_overview"@
        ||| k == "best_days"@
        ||| k == "watch_days"@
        ||| k == "daily_timeline"@
        ||| k == "domain_sections"@
        ||| k == "best_windows"@
        ||| k == "watch_windows"@
        ||| k == "strategy"@
    } else if premium_period_service(code) {
        k == "summary"@ || k == "dominant_theme"@
    } else {
        ||| k == "summary"@
        ||| k == "dominant_theme"@
        ||| k == "best_windows"@
        ||| k == "watch_windows"@
        ||| k == "strategy"@
    }
}

fn remove_members(v: &mut JsonValue, keys: &[&str])
    ensures
        *old(v) is Object ==> *final(v) is Object && forall|k: Seq<char>| #[trigger] json_get(*final(v), k) == if views(keys@).contains(k) {
            None
        } else {
            json_get(*old(v), k)
        },
        !(*old(v) is Object) ==> *final(v) == *old(v),
{
    let ghost start = *v;
    let n = keys.len();
    let mut i: usize = 0;
    while i < n
        invariant
            n == keys@.len(),
            i <= n,
            start is Object ==> *v is Object && forall|k: Seq<char>| #[trigger] json_get(*v, k) == if views(keys@).take(i as int).contains(k) {
                None
            } else {
                json_get(start, k)
            },
            !(start is Object) ==> *v == start,
        decreases n - i,
    {
        let ghost before = *v;
        remove_member(v, keys[i]);
        proof {
            let tk = views(keys@).take(i + 1);
            assert(tk =~= views(keys@).take(i as int).push(keys@[i as int]@));
            if start is Object {
                assert forall|k: Seq<char>| #[trigger] json_get(*v, k) == if tk.contains(k) {
                    None
                } else {
                    json_get(start, k)
                } by {
                    if k == keys@[i as int]@ {
                        assert(tk[i as int] == k);
                    } else {
                        assert(json_get(*v, k) == json_get(before, k));
                        if views(keys@).take(i as int).contains(k) {
                            let j = choose|j: int| 0 <= j < i && views(keys@).take(i as int)[j] == k;
                            assert(tk[j] == k);
                        }
                        if tk.contains(k) {
                            let j = choose|j: int| 0 <= j < tk.len() && tk[j] == k;
                            assert(j < i);
                            assert(views(keys@).take(i as int)[j] == k);
                        }
                    }
                }
            }
        }
        i = i + 1;
    }
    proof {
        assert(views(keys@).take(n as int) =~= views(keys@));
    }
}

/// Removes from a response the sections its offer does not carry.
pub fn prune_period_response_variant_fields_v2(request: &JsonValue, response: &mut JsonValue)
    ensures
        *old(response) is Object ==> *final(response) is Object && forall|k: Seq<char>|
            #[trigger] json_get(*final(response), k) == if is_pruned(request_service(*request), k) {
                None
            } else {
                json_get(*old(response), k)
            },
        !(*old(response) is Object) ==> *final(response) == *old(response),
{
    let service = service_of(request);
    let ghost svc = request_service(*request);
    if is_free_period_service(service) {
        let keys = [
            "week_overview", "best_days", "watch_days", "daily_timeline", "domain_sections", "best_windows",
            "watch_windows", "strategy",
        ];
        proof {
            let vk = views(keys@);
            assert forall|k: Seq<char>| vk.contains(k) <==> is_pruned(svc, k) by {
                if vk.contains(k) {
                    let j = choose|j: int| 0 <= j < vk.len() && vk[j] == k;
                    assert(0 <= j < 8);
                    if j == 0 {} else if j == 1 {} else if j == 2 {} else if j == 3 {} else if j == 4 {} else if j == 5 {} else if j == 6 {} else {}
                }
                if is_pruned(svc, k) {
                    if k == vk[0] {} else if k == vk[1] {} else if k == vk[2] {} else if k == vk[3] {} else if k == vk[4] {} else if k == vk[5] {} else if k == vk[6] {} else { assert(vk[7] == k); }
                }
            }
        }
        remove_members(response, &keys);
    } else if is_premium_period_service(service) {
        let keys = ["summary", "dominant_theme"];
        proof {
            let vk = views(keys@);
            assert forall|k: Seq<char>| vk.contains(k) <==> is_pruned(svc, k) by {
                if vk.contains(k) {
                    let j = choose|j: int| 0 <= j < vk.len() && vk[j] == k;
                    if j == 0 {} else {}
                }
                if is_pruned(svc, k) {
                    if k == vk[0] {} else { assert(vk[1] == k); }
                }
            }
        }
        remove_members(response, &keys);
    } else {
        let keys = ["summary", "dominant_theme", "best_windows", "watch_windows", "strategy"];
        proof {
            let vk = views(keys@);
            assert forall|k: Seq<char>| vk.contains(k) <==> is_pruned(svc, k) by {
                if vk.contains(k) {
                    let j = choose|j: int| 0 <= j < vk.len() && vk[j] == k;
                    if j == 0 {} else if j == 1 {} else if j == 2 {} else if j == 3 {} else {}
                }
                if is_pruned(svc, k) {
                    if k == vk[0] {} else if k == vk[1] {} else if k == vk[2] {} else if k == vk[3] {} else { assert(vk[4] == k); }
                }
            }
        }
        remove_members(response, &keys);
    }
}

// ---------------------------------------------------------------------------------------------
// Evidence keys of the days
// ---------------------------------------------------------------------------------------------

/// The evidence keys that the semantic brief gives a date: those of its last daily summary on
/// that date that carries a list of keys.
pub open spec fn last_keys_for(days: Seq<JsonValue>, date: Seq<char>) -> Option<JsonValue>
    decreases days.len(),
{
    if days.len() == 0 {
        None
    } else if field_str(days.last(), "date"@) == Some(date) && json_arr(json_at(days.last(), "evidence_keys"@)) is Some {
        Some(json_at(days.last(), "evidence_keys"@))
    } else {
        last_keys_for(days.drop_last(), date)
    }
}

/// The evidence keys that a request's semantic brief gives a date.
pub open spec fn summary_keys(request: JsonValue, date: Seq<char>) -> Option<JsonValue> {
    last_keys_for(array_items(json_at(request, "semantic_brief"@), "daily_signal_summary"@), date)
}

fn summary_keys_of<'a>(request: &'a JsonValue, date: &str) -> (r: Option<&'a JsonValue>)
    ensures
        opt_deref(r) == summary_keys(*request, date@),
{
    let days = match request.get("semantic_brief") {
        Some(b) => match b.field_arr("daily_signal_summary") {
            Some(d) => d,
            None => {
                return None;
            },
        },
        None => {
            return None;
        },
    };
    let mut i: usize = days.len();
    proof {
        assert(days@.take(i as int) =~= days@);
    }
    while i > 0
        invariant
            i <= days@.len(),
            days@ == array_items(json_at(*request, "semantic_brief"@), "daily_signal_summary"@),
            last_keys_for(days@.take(i as int), date@) == summary_keys(*request, date@),
        decreases i,
    {
        let day = &days[i - 1];
        proof {
            assert(days@.take(i as int).last() == days@[i - 1]);
            assert(days@.take(i as int).drop_last() =~= days@.take(i - 1));
        }
        let date_matches = match day.field_str("date") {
            Some(d) => str_equal(d, date),
            None => false,
        };
        if date_matches {
            match day.get("evidence_keys") {
                Some(keys) => {
                    if keys.as_array().is_some() {
                        return Some(keys);
                    }
                },
                None => {},
            }
        }
        i = i - 1;
    }
    None
}

/// An item that carries a non-empty list of evidence keys.
pub open spec fn has_evidence_keys(item: JsonValue) -> bool {
    field_arr(item, "evidence_keys"@) matches Some(ks) && ks.len() > 0
}

/// An item after the restoration of its keys: an item with a date but without keys takes the
/// keys that the semantic brief gives its date, where it gives some; any other item stays.
pub open spec fn item_restored(old: JsonValue, new: JsonValue, request: JsonValue) -> bool {
    match field_str(old, "date"@) {
        Some(d) => if !has_evidence_keys(old) && summary_keys(request, d) is Some {
            &&& new is Object
            &&& json_get(new, "evidence_keys"@) matches Some(ks) && json_same(ks, summary_keys(request, d)->0)
            &&& forall|k: Seq<char>| k != "evidence_keys"@ ==> #[trigger] json_get(new, k) == json_get(old, k)
        } else {
            new == old
        },
        None => new == old,
    }
}

fn restore_item(item: &mut JsonValue, request: &JsonValue)
    ensures
        item_restored(*old(item), *final(item), *request),
{
    let has_keys = match item.field_arr("evidence_keys") {
        Some(ks) => ks.len() > 0,
        None => false,
    };
    if has_keys {
        return;
    }
    let date = match item.field_str("date") {
        Some(d) => d.to_owned(),
        None => {
            return;
        },
    };
    match summary_keys_of(request, date.as_str()) {
        Some(keys) => {
            let copy = json_clone(keys);
            set_member(item, "evidence_keys", copy);
        },
        None => {},
    }
}

/// A section after the restoration of the keys of its items: an array keeps its length and
/// each item is restored; anything else stays.
pub open spec fn field_restored(old: Option<JsonValue>, new: Option<JsonValue>, request: JsonValue) -> bool {
    match old {
        Some(JsonValue::Array(items)) => match new {
            Some(JsonValue::Array(items2)) => items2@.len() == items@.len() && forall|i: int|
                0 <= i < items@.len() ==> item_restored(#[trigger] items@[i], items2@[i], request),
            _ => false,
        },
        _ => new == old,
    }
}

fn restore_field(response: &mut JsonValue, field: &str, request: &JsonValue)
    ensures
        field_restored(json_get(*old(response), field@), json_get(*final(response), field@), *request),
        forall|k: Seq<char>| k != field@ ==> #[trigger] json_get(*final(response), k) == json_get(*old(response), k),
        *old(response) is Object ==> *final(response) is Object,
        !(*old(response) is Object) ==> *final(response) == *old(response),
{
    let taken = take_member(response, field);
    match taken {
        None => {},
        Some(JsonValue::Array(items)) => {
            let ghost orig = items@;
            let mut items = items;
            let n = items.len();
            let mut i: usize = 0;
            while i < n
                invariant
                    n == orig.len(),
                    items@.len() == n,
                    i <= n,
                    forall|j: int| 0 <= j < i ==> item_restored(#[trigger] orig[j], items@[j], *request),
                    forall|j: int| i <= j < n ==> items@[j] == orig[j],
                decreases n - i,
            {
                let mut slot = JsonValue::Null;
                items.set_and_swap(i, &mut slot);
                restore_item(&mut slot, request);
                items.set(i, slot);
                i = i + 1;
            }
            set_member(response, field, JsonValue::Array(items));
        },
        Some(other) => {
            set_member(response, field, other);
        },
    }
}

/// The watch summary after the restoration: with the status `none` it holds an empty list of
/// keys; any other summary stays.
pub open spec fn watch_restored(old: Option<JsonValue>, new: Option<JsonValue>) -> bool {
    match old {
        Some(ws) => if field_str(ws, "status"@) == Some("none"@) {
            &&& new matches Some(w2) && w2 is Object
            &&& json_arr(json_at(new->0, "evidence_keys"@)) == Some(Seq::<JsonValue>::empty())
            &&& forall|k: Seq<char>| k != "evidence_keys"@ ==> #[trigger] json_get(new->0, k) == json_get(ws, k)
        } else {
            new == old
        },
        None => new == old,
    }
}

/// A section whose items may take back their evidence keys.
pub open spec fn is_restored_field(k: Seq<char>) -> bool {
    ||| k == "daily_timeline"@
    ||| k == "key_days"@
    ||| k == "best_days"@
    ||| k == "watch_days"@
}

/// Gives back the evidence keys of the days and markers that lost them, from the semantic brief
/// of the request, and an empty list of keys to a watch summary whose status is `none`.
pub fn restore_period_response_technical_keys_v2(request: &JsonValue, response: &mut JsonValue)
    ensures
        forall|k: Seq<char>| is_restored_field(k) ==> field_restored(
            json_get(*old(response), k),
            #[trigger] json_get(*final(response), k),
            *request,
        ),
        watch_restored(json_get(*old(response), "watch_summary"@), json_get(*final(response), "watch_summary"@)),
        forall|k: Seq<char>|
            !is_restored_field(k) && k != "watch_summary"@ ==> #[trigger] json_get(*final(response), k)
                == json_get(*old(response), k),
        *old(response) is Object ==> *final(response) is Object,
        !(*old(response) is Object) ==> *final(response) == *old(response),
{
    proof {
        lemma_key_letters();
    }
    let ghost r0 = *response;
    restore_field(response, "daily_timeline", request);
    let ghost r1 = *response;
    restore_field(response, "key_days", request);
    let ghost r2 = *response;
    restore_field(response, "best_days", request);
    let ghost r3 = *response;
    restore_field(response, "watch_days", request);
    let ghost r4 = *response;
    let none = match response.get("watch_summary") {
        Some(ws) => match ws.field_str("status") {
            Some(s) => str_equal(s, "none"),
            None => false,
        },
        None => false,
    };
    if none {
        match take_member(response, "watch_summary") {
            Some(ws) => {
                let mut ws = ws;
                set_member(&mut ws, "evidence_keys", JsonValue::Array(Vec::new()));
                set_member(response, "watch_summary", ws);
            },
            None => {},
        }
    }
    proof {
        assert(json_get(*response, "daily_timeline"@) == json_get(r1, "daily_timeline"@));
        assert(json_get(*response, "key_days"@) == json_get(r2, "key_days"@));
        assert(json_get(*response, "best_days"@) == json_get(r3, "best_days"@));
        assert(json_get(*response, "watch_days"@) == json_get(r4, "watch_days"@));
        assert(json_get(r1, "key_days"@) == json_get(r0, "key_days"@));
        assert(json_get(r2, "best_days"@) == json_get(r0, "best_days"@));
        assert(json_get(r3, "watch_days"@) == json_get(r0, "watch_days"@));
        assert(json_get(r4, "watch_summary"@) == json_get(r0, "watch_summary"@));
    }
}

// ---------------------------------------------------------------------------------------------
// The whole repair
// ---------------------------------------------------------------------------------------------

/// A response repaired against its request: an object carrying the response contract
/// version, the request's service and a copy of the request's period; its quality object kept,
/// or else a fake quality block (with seven days unless the offer is free); none of the sections
/// its offer does not carry; the evidence keys of its days restored; and an empty list of keys
/// in a watch summary whose status is `none`.
pub open spec fn repaired(request: JsonValue, old: JsonValue, new: JsonValue) -> bool {
    &&& new is Object
    &&& field_str(new, "contract_version"@) == Some("horoscope_period_response"@)
    &&& field_str(new, "service_code"@) == Some(request_service(request))
    &&& json_get(new, "period_resolution"@) matches Some(p) && json_same(p, json_at(request, "period_resolution"@))
    &&& (json_get(old, "quality"@) matches Some(q) && q is Object) ==> json_get(new, "quality"@) == json_get(old, "quality"@)
    &&& !(json_get(old, "quality"@) matches Some(q) && q is Object) ==> fake_quality(
        json_at(new, "quality"@),
        request_service(request),
        if free_period_service(request_service(request)) { 0nat } else { 7nat },
    )
    &&& forall|k: Seq<char>| is_pruned(request_service(request), k) ==> (#[trigger] json_get(new, k)) is None
    &&& forall|k: Seq<char>|
        is_restored_field(k) && !is_pruned(request_service(request), k) ==> field_restored(
            json_get(old, k),
            #[trigger] json_get(new, k),
            request,
        )
    &&& watch_restored(json_get(old, "watch_summary"@), json_get(new, "watch_summary"@))
    &&& forall|k: Seq<char>|
        !is_repair_set_field(k) && !is_pruned(request_service(request), k) && !is_restored_field(k) && k != "watch_summary"@
            ==> #[trigger] json_get(new, k) == json_get(old, k)
}

/// The members a repair writes whatever the response held: its contract version, service,
/// period and quality block.
pub open spec fn is_repair_set_field(k: Seq<char>) -> bool {
    ||| k == "contract_version"@
    ||| k == "service_code"@
    ||| k == "period_resolution"@
    ||| k == "quality"@
}

/// Repairs the shape of a response: its contract version, its service and its period taken
/// from the request, a fake quality block where it has no quality object (with seven days
/// unless the offer is free), the sections the offer does not carry removed, and the evidence
/// keys of its days restored.
pub fn repair_period_response_shape_v2(request: &JsonValue, response: &mut JsonValue)
    requires
        *old(response) is Object || *old(response) is Null,
    ensures
        repaired(*request, *old(response), *final(response)),
{
    let service = service_of(request);
    let ghost r0 = *response;
    set_member(response, "contract_version", JsonValue::Str("horoscope_period_response".to_owned()));
    set_member(response, "service_code", JsonValue::Str(service.to_owned()));
    let resolution = match request.get("period_resolution") {
        Some(p) => json_clone(p),
        None => JsonValue::Null,
    };
    set_member(response, "period_resolution", resolution);
    let has_quality = match response.get("quality") {
        Some(q) => match q {
            JsonValue::Object(_) => true,
            _ => false,
        },
        None => false,
    };
    if !has_quality {
        let count: usize = if is_free_period_service(service) {
            0
        } else {
            7
        };
        let q = quality_v2(service, request, count);
        set_member(response, "quality", q);
    }
    let ghost r1 = *response;
    prune_period_response_variant_fields_v2(request, response);
    let ghost r2 = *response;
    restore_period_response_technical_keys_v2(request, response);
    proof {
        lemma_key_letters();
        assert forall|k: Seq<char>|
            !is_repair_set_field(k) && !is_pruned(request_service(*request), k) && !is_restored_field(k) && k
                != "watch_summary"@ implies #[trigger] json_get(*response, k) == json_get(r0, k) by {
            assert(json_get(r1, k) == json_get(r0, k));
            assert(json_get(r2, k) == json_get(r1, k));
        }
        assert forall|k: Seq<char>| is_restored_field(k) && !is_pruned(request_service(*request), k) implies field_restored(
            json_get(r0, k),
            #[trigger] json_get(*response, k),
            *request,
        ) by {
            assert(json_get(r1, k) == json_get(r0, k));
            assert(json_get(r2, k) == json_get(r1, k));
        }
        assert forall|k: Seq<char>| is_pruned(request_service(*request), k) implies (#[trigger] json_get(*response, k)) is None by {
            assert(json_get(r2, k) is None);
            if is_restored_field(k) {
                assert(field_restored(json_get(r2, k), json_get(*response, k), *request));
            }
        }
    }
}

/// Repairs the shape of a response (the same repair as the second contract version).
pub fn repair_period_response_shape(request: &JsonValue, response: &mut JsonValue)
    requires
        *old(response) is Object || *old(response) is Null,
    ensures
        repaired(*request, *old(response), *final(response)),
{
    repair_period_response_shape_v2(request, response);
}

} // verus!
