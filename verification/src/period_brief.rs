//! The semantic brief of a seven-day writer request: what each day signals, the candidate days
//! and windows, the recurring arcs, and the editorial guidance the writer follows.
use vstd::prelude::*;

use crate::json::{JsonValue, field_arr, field_str, json_arr, json_at, json_clone, json_get, json_same, set_member};
use crate::error::{GenerationError, horoscope_error, outcome};
use crate::json::{count_json, json_int};
use crate::keywords::{arc_keywords, tone_codes};
use crate::period_metadata::PeriodDetailProfile;
use crate::period_payload::views;
use crate::keywords::{
    events_keywords, fact_keywords, first_n, first_seen, non_empty_keywords, nonblank, or_weekly_signal,
    period_keywords_for_fact, sorted_set_of, unique_keywords,
};
use crate::period_editorial::{
    best_candidate, fallback_angle, is_period_best_candidate, is_period_watch_event, period_editorial_angle_v2,
    period_editorial_repetition_hint_v2, period_role_hint, arc_function, arc_phase, arc_purpose,
    build_period_editorial_arc_v2, preferred_angle, repetition_hint, role_hint, watch_event,
    with_code,
};
use crate::period_payload::str_or_empty;
use crate::period_windows::{
    build_period_window, scan_plan_snapshot_keys_by_date, snapshot_times, times_view, window_times,
};
use crate::semantic_brief::{member_strings, strings_in};
use crate::text::{str_equal, string_list_contains, string_views};

verus! {

// ---------------------------------------------------------------------------------------------
// Members copied from an event
// ---------------------------------------------------------------------------------------------

/// A copy of `v[key]` (`null` where it is missing).
fn member_copy(v: &JsonValue, key: &str) -> (r: JsonValue)
    ensures
        json_same(r, json_at(*v, key@)),
{
    match v.get(key) {
        Some(x) => json_clone(x),
        None => JsonValue::Null,
    }
}

/// A list of strings as a JSON array of strings.
pub fn strings_json(items: Vec<String>) -> (r: JsonValue)
    ensures
        r matches JsonValue::Array(a) && a@.len() == items@.len() && strings_in(a@) == string_views(items@),
{
    let n = items.len();
    let mut out: Vec<JsonValue> = Vec::new();
    let mut i: usize = 0;
    while i < n
        invariant
            n == items@.len(),
            i <= n,
            out@.len() == i,
            strings_in(out@) == string_views(items@).take(i as int),
        decreases n - i,
    {
        let ghost before = out@;
        out.push(JsonValue::Str(items[i].clone()));
        proof {
            assert(out@.drop_last() =~= before);
            assert(string_views(items@).take(i + 1) =~= string_views(items@).take(i as int).push(items@[i as int]@));
        }
        i = i + 1;
    }
    assert(string_views(items@).take(n as int) =~= string_views(items@));
    JsonValue::Array(out)
}

/// The keywords of an event as the brief lists them: each at its first occurrence, at most
/// eight, the generic weekly keyword where it has none.
pub open spec fn event_keywords(e: JsonValue) -> Seq<Seq<char>> {
    or_weekly_signal(first_n(first_seen(fact_keywords(e), true), 8))
}

proof fn lemma_candidate_keys()
    ensures
        "date"@.len() > 2 && "date"@[0] == 'd',
        "time_range_label"@.len() > 2 && "time_range_label"@[0] == 't' && "time_range_label"@[1] == 'i',
        "score"@.len() > 2 && "score"@[0] == 's' && "score"@[1] == 'c',
        "usage_keywords"@.len() > 2 && "usage_keywords"@[0] == 'u',
        "tone_code"@.len() > 2 && "tone_code"@[0] == 't' && "tone_code"@[1] == 'o',
        "theme_code"@.len() > 2 && "theme_code"@[0] == 't' && "theme_code"@[1] == 'h',
        "evidence_keys"@.len() > 2 && "evidence_keys"@[0] == 'e',
        "source_snapshot_keys"@.len() > 2 && "source_snapshot_keys"@[0] == 's' && "source_snapshot_keys"@[1] == 'o',
        "candidate_type"@.len() > 2 && "candidate_type"@[0] == 'c',
        "keywords"@.len() > 2 && "keywords"@[0] == 'k',
{
    reveal_strlit("date");
    reveal_strlit("time_range_label");
    reveal_strlit("score");
    reveal_strlit("usage_keywords");
    reveal_strlit("tone_code");
    reveal_strlit("theme_code");
    reveal_strlit("evidence_keys");
    reveal_strlit("source_snapshot_keys");
    reveal_strlit("candidate_type");
    reveal_strlit("keywords");
}

// ---------------------------------------------------------------------------------------------
// Window candidates
// ---------------------------------------------------------------------------------------------

/// Which events may open a candidate window: best candidates, or watch events whose snapshot
/// is not among the given keys (those already taken by best windows).
pub enum WindowFilter {
    Best,
    Watch(Vec<String>),
}

/// A watch event whose snapshot is not among the excluded keys.
pub open spec fn watch_ok(e: JsonValue, excluded: Seq<Seq<char>>) -> bool {
    watch_event(e) && match field_str(e, "snapshot_key"@) {
        Some(k) => !excluded.contains(k),
        None => true,
    }
}

/// Whether an event passes a window filter.
pub open spec fn filter_ok(f: WindowFilter, e: JsonValue) -> bool {
    match f {
        WindowFilter::Best => best_candidate(e),
        WindowFilter::Watch(keys) => watch_ok(e, string_views(keys@)),
    }
}

fn passes(f: &WindowFilter, e: &JsonValue) -> (r: bool)
    ensures
        r == filter_ok(*f, *e),
{
    match f {
        WindowFilter::Best => is_period_best_candidate(e),
        WindowFilter::Watch(keys) => {
            if !is_period_watch_event(e) {
                return false;
            }
            match e.field_str("snapshot_key") {
                Some(k) => !string_list_contains(keys, k),
                None => true,
            }
        },
    }
}

/// The candidate window of an event: its date, the time range and snapshot of its window, its
/// score, keywords, tone, theme and evidence.
pub open spec fn window_candidate(e: JsonValue, times: Seq<(Seq<char>, Seq<(Seq<char>, Seq<char>)>)>, c: JsonValue) -> bool {
    &&& c is Object
    &&& window_times(e, times) matches Some((pairs, i))
    &&& field_str(c, "date"@) == field_str(e, "date"@)
    &&& field_str(c, "time_range_label"@) == Some(
        pairs[i].0 + seq!['–'] + (if i + 1 < pairs.len() { pairs[i + 1].0 } else { "00:00"@ }),
    )
    &&& field_arr(c, "source_snapshot_keys"@) matches Some(keys) && keys.len() == 1 && strings_in(keys) == seq![pairs[i].1]
    &&& json_get(c, "score"@) matches Some(x) && json_same(x, json_at(e, "score"@))
    &&& field_arr(c, "usage_keywords"@) matches Some(k) && strings_in(k) == event_keywords(e) && k.len() == event_keywords(e).len()
    &&& json_get(c, "tone_code"@) matches Some(x) && json_same(x, json_at(e, "tone"@))
    &&& json_get(c, "theme_code"@) matches Some(x) && json_same(x, json_at(e, "theme_code"@))
    &&& json_get(c, "evidence_keys"@) matches Some(x) && json_same(x, json_at(e, "evidence_keys"@))
}

/// The candidate window of an event, where its date has snapshots (see `build_period_window`).
pub fn build_window_candidate_v2(
    event: &JsonValue,
    snapshot_keys: &Vec<(String, Vec<(String, String)>)>,
    candidate_type: &str,
) -> (r: Option<JsonValue>)
    ensures
        r is Some <==> window_times(*event, times_view(snapshot_keys@)) is Some,
        r matches Some(c) ==> window_candidate(*event, times_view(snapshot_keys@), c),
{
    let date = match event.field_str("date") {
        Some(d) => d,
        None => {
            return None;
        },
    };
    let no_rows: Vec<JsonValue> = Vec::new();
    let window = match build_period_window(event, snapshot_keys, str_equal(candidate_type, "watch"), 1, &no_rows, &no_rows) {
        Some(w) => w,
        None => {
            return None;
        },
    };
    let mut c = JsonValue::Null;
    set_member(&mut c, "date", JsonValue::Str(date.to_owned()));
    set_member(&mut c, "time_range_label", member_copy(&window, "time_range_label"));
    set_member(&mut c, "score", member_copy(event, "score"));
    set_member(&mut c, "usage_keywords", strings_json(unique_keywords(period_keywords_for_fact(event), 8)));
    set_member(&mut c, "tone_code", member_copy(event, "tone"));
    set_member(&mut c, "theme_code", member_copy(event, "theme_code"));
    set_member(&mut c, "evidence_keys", member_copy(event, "evidence_keys"));
    set_member(&mut c, "source_snapshot_keys", member_copy(&window, "source_snapshot_keys"));
    proof {
        lemma_candidate_keys();
        lemma_same_str(json_at(window, "time_range_label"@), json_at(c, "time_range_label"@));
        lemma_same_strings(json_at(window, "source_snapshot_keys"@), json_at(c, "source_snapshot_keys"@));
    }
    Some(c)
}

/// Copies hold the same text.
pub proof fn lemma_same_str_pub(a: JsonValue, b: JsonValue)
    requires
        json_same(b, a),
    ensures
        crate::json::json_str(b) == crate::json::json_str(a),
{
}

/// Values of the same structure hold the same text.
proof fn lemma_same_str(a: JsonValue, b: JsonValue)
    requires
        json_same(b, a),
    ensures
        crate::json::json_str(b) == crate::json::json_str(a),
{
}

/// Arrays of the same structure hold the same strings.
proof fn lemma_same_strings(a: JsonValue, b: JsonValue)
    requires
        json_same(b, a),
    ensures
        json_arr(a) is Some ==> json_arr(b) is Some && json_arr(b)->0.len() == json_arr(a)->0.len() && strings_in(
            json_arr(b)->0,
        ) == strings_in(json_arr(a)->0),
{
    if let (JsonValue::Array(xs), JsonValue::Array(ys)) = (a, b) {
        lemma_same_strings_seq(ys@, xs@);
    }
}

proof fn lemma_same_strings_seq(ys: Seq<JsonValue>, xs: Seq<JsonValue>)
    requires
        ys.len() == xs.len(),
        forall|i: int| 0 <= i < ys.len() ==> json_same(#[trigger] ys[i], xs[i]),
    ensures
        strings_in(ys) == strings_in(xs),
    decreases ys.len(),
{
    if ys.len() > 0 {
        assert forall|i: int| 0 <= i < ys.drop_last().len() implies json_same(#[trigger] ys.drop_last()[i], xs.drop_last()[i]) by {
            assert(ys.drop_last()[i] == ys[i]);
        }
        lemma_same_strings_seq(ys.drop_last(), xs.drop_last());
        lemma_same_str(xs.last(), ys.last());
    }
}

/// The dates of the chosen events.
pub open spec fn chosen_dates(events: Seq<JsonValue>, chosen: Seq<int>) -> Seq<Seq<char>> {
    chosen.map_values(|k: int| str_or_empty(field_str(events[k], "date"@)))
}

/// The events that open candidate windows, among the first `n`: in order, each passing the
/// filter, opening a window, on a date no earlier pick has; the pick stops once it holds
/// `limit` of them (with a limit of zero it never stops).
pub open spec fn window_picks(
    events: Seq<JsonValue>,
    times: Seq<(Seq<char>, Seq<(Seq<char>, Seq<char>)>)>,
    f: spec_fn(JsonValue) -> bool,
    limit: nat,
    n: nat,
) -> Seq<int>
    decreases n,
{
    if n == 0 {
        seq![]
    } else {
        let prev = window_picks(events, times, f, limit, (n - 1) as nat);
        let e = events[n - 1];
        if limit > 0 && prev.len() == limit {
            prev
        } else if f(e) && window_times(e, times) is Some && !chosen_dates(events, prev).contains(
            str_or_empty(field_str(e, "date"@)),
        ) {
            prev.push(n - 1)
        } else {
            prev
        }
    }
}

proof fn lemma_window_picks_bounds(
    events: Seq<JsonValue>,
    times: Seq<(Seq<char>, Seq<(Seq<char>, Seq<char>)>)>,
    f: spec_fn(JsonValue) -> bool,
    limit: nat,
    n: nat,
)
    requires
        n <= events.len(),
    ensures
        forall|k: int| 0 <= k < window_picks(events, times, f, limit, n).len() ==> 0 <= #[trigger] window_picks(events, times, f, limit, n)[k] < n,
        window_picks(events, times, f, limit, n).len() <= n,
        limit > 0 ==> window_picks(events, times, f, limit, n).len() <= limit,
    decreases n,
{
    if n > 0 {
        lemma_window_picks_bounds(events, times, f, limit, (n - 1) as nat);
    }
}

/// The candidate windows of the events that pass a filter (see `window_picks`), each built by
/// `build_window_candidate_v2` on the snapshot times of the scan plan.
pub fn build_window_candidates_v2(
    events: &Vec<JsonValue>,
    scan_plan: &JsonValue,
    candidate_type: &str,
    limit: usize,
    filter: &WindowFilter,
) -> (r: Vec<JsonValue>)
    ensures
        r@.len() == window_picks(
            events@,
            snapshot_times(*scan_plan),
            |e: JsonValue| filter_ok(*filter, e),
            limit as nat,
            events@.len(),
        ).len(),
        forall|k: int|
            0 <= k < r@.len() ==> window_candidate(
                events@[window_picks(
                    events@,
                    snapshot_times(*scan_plan),
                    |e: JsonValue| filter_ok(*filter, e),
                    limit as nat,
                    events@.len(),
                )[k]],
                snapshot_times(*scan_plan),
                #[trigger] r@[k],
            ),
{
    let ghost ok = |e: JsonValue| filter_ok(*filter, e);
    let snapshot_keys = scan_plan_snapshot_keys_by_date(scan_plan);
    let ghost times = snapshot_times(*scan_plan);
    let n = events.len();
    let mut out: Vec<JsonValue> = Vec::new();
    let mut used: Vec<String> = Vec::new();
    let mut i: usize = 0;
    while i < n
        invariant_except_break
            n == events@.len(),
            i <= n,
            times_view(snapshot_keys@) == times,
            times == snapshot_times(*scan_plan),
            ok == (|e: JsonValue| filter_ok(*filter, e)),
            limit == 0 || out@.len() < limit,
            out@.len() == window_picks(events@, times, ok, limit as nat, i as nat).len(),
            string_views(used@) == chosen_dates(events@, window_picks(events@, times, ok, limit as nat, i as nat)),
            forall|k: int|
                0 <= k < out@.len() ==> window_candidate(
                    events@[window_picks(events@, times, ok, limit as nat, i as nat)[k]],
                    times,
                    #[trigger] out@[k],
                ),
        ensures
            out@.len() == window_picks(events@, times, ok, limit as nat, n as nat).len(),
            forall|k: int|
                0 <= k < out@.len() ==> window_candidate(
                    events@[window_picks(events@, times, ok, limit as nat, n as nat)[k]],
                    times,
                    #[trigger] out@[k],
                ),
        decreases n - i,
    {
        let ghost prev = window_picks(events@, times, ok, limit as nat, i as nat);
        let event = &events[i];
        proof {
            lemma_window_picks_bounds(events@, times, ok, limit as nat, i as nat);
        }
        if passes(filter, event) {
            match build_window_candidate_v2(event, &snapshot_keys, candidate_type) {
                Some(candidate) => {
                    let date = match event.field_str("date") {
                        Some(d) => d,
                        None => "",
                    };
                    if !string_list_contains(&used, date) {
                        let ghost next = prev.push(i as int);
                        assert(window_picks(events@, times, ok, limit as nat, (i + 1) as nat) == next);
                        out.push(candidate);
                        used.push(date.to_owned());
                        proof {
                            assert(chosen_dates(events@, next) =~= chosen_dates(events@, prev).push(date@));
                            assert forall|k: int| 0 <= k < out@.len() implies window_candidate(
                                events@[next[k]],
                                times,
                                #[trigger] out@[k],
                            ) by {
                                if k < prev.len() {
                                    assert(next[k] == prev[k]);
                                }
                            }
                        }
                        if out.len() == limit {
                            proof {
                                assert forall|m: nat| i + 1 <= m <= n implies window_picks(events@, times, ok, limit as nat, m)
                                    == next by {
                                    lemma_picks_stay(events@, times, ok, limit as nat, (i + 1) as nat, m);
                                }
                            }
                            break;
                        }
                    } else {
                        assert(window_picks(events@, times, ok, limit as nat, (i + 1) as nat) == prev);
                    }
                },
                None => {
                    assert(window_picks(events@, times, ok, limit as nat, (i + 1) as nat) == prev);
                },
            }
        } else {
            assert(window_picks(events@, times, ok, limit as nat, (i + 1) as nat) == prev);
        }
        i = i + 1;
    }
    out
}

/// Once the pick holds `limit` events it takes no more.
proof fn lemma_picks_stay(
    events: Seq<JsonValue>,
    times: Seq<(Seq<char>, Seq<(Seq<char>, Seq<char>)>)>,
    f: spec_fn(JsonValue) -> bool,
    limit: nat,
    i: nat,
    m: nat,
)
    requires
        limit > 0,
        window_picks(events, times, f, limit, i).len() == limit,
        i <= m,
    ensures
        window_picks(events, times, f, limit, m) == window_picks(events, times, f, limit, i),
    decreases m - i,
{
    if m > i {
        lemma_picks_stay(events, times, f, limit, i, (m - 1) as nat);
    }
}

// ---------------------------------------------------------------------------------------------
// Day candidates
// ---------------------------------------------------------------------------------------------

/// The events, among the first `n`, that have a date no earlier such event has, in order.
pub open spec fn fresh_date_events(events: Seq<JsonValue>, n: nat) -> Seq<int>
    decreases n,
{
    if n == 0 {
        seq![]
    } else {
        let prev = fresh_date_events(events, (n - 1) as nat);
        match field_str(events[n - 1], "date"@) {
            Some(d) => if chosen_dates(events, prev).contains(d) {
                prev
            } else {
                prev.push(n - 1)
            },
            None => prev,
        }
    }
}

/// At most `n` items of a list, from its start.
pub open spec fn first_items<A>(s: Seq<A>, n: nat) -> Seq<A> {
    if n < s.len() {
        s.take(n as int)
    } else {
        s
    }
}

/// The candidate day of an event: its date, the candidate type, its score, keywords and
/// evidence.
pub open spec fn day_candidate(e: JsonValue, candidate_type: Seq<char>, c: JsonValue) -> bool {
    &&& c is Object
    &&& json_get(c, "date"@) matches Some(x) && json_same(x, json_at(e, "date"@))
    &&& field_str(c, "candidate_type"@) == Some(candidate_type)
    &&& json_get(c, "score"@) matches Some(x) && json_same(x, json_at(e, "score"@))
    &&& field_arr(c, "keywords"@) matches Some(k) && strings_in(k) == event_keywords(e) && k.len() == event_keywords(e).len()
    &&& json_get(c, "evidence_keys"@) matches Some(x) && json_same(x, json_at(e, "evidence_keys"@))
}

proof fn lemma_fresh_bounds(events: Seq<JsonValue>, n: nat)
    requires
        n <= events.len(),
    ensures
        fresh_date_events(events, n).len() <= n,
        forall|k: int| 0 <= k < fresh_date_events(events, n).len() ==> 0 <= #[trigger] fresh_date_events(events, n)[k] < n,
    decreases n,
{
    if n > 0 {
        lemma_fresh_bounds(events, (n - 1) as nat);
    }
}

/// The candidate days among the picked events: the first `limit` on a date that no earlier
/// picked event with a date has.
fn day_candidates_at(events: &Vec<JsonValue>, idx: &Vec<usize>, candidate_type: &str, limit: usize) -> (r: Vec<JsonValue>)
    requires
        forall|k: int| 0 <= k < idx@.len() ==> #[trigger] idx@[k] < events@.len(),
    ensures
        r@.len() == first_items(fresh_date_events(picked(events@, idx@), idx@.len()), limit as nat).len(),
        forall|k: int|
            0 <= k < r@.len() ==> day_candidate(
                picked(events@, idx@)[fresh_date_events(picked(events@, idx@), idx@.len())[k]],
                candidate_type@,
                #[trigger] r@[k],
            ),
{
    let ghost sel = picked(events@, idx@);
    let n = idx.len();
    let mut out: Vec<JsonValue> = Vec::new();
    let mut used: Vec<String> = Vec::new();
    let mut i: usize = 0;
    while i < n && out.len() < limit
        invariant
            n == idx@.len(),
            sel == picked(events@, idx@),
            sel.len() == n,
            forall|k: int| 0 <= k < idx@.len() ==> #[trigger] idx@[k] < events@.len(),
            i <= n,
            out@.len() <= limit,
            out@.len() == fresh_date_events(sel, i as nat).len(),
            string_views(used@) == chosen_dates(sel, fresh_date_events(sel, i as nat)),
            forall|k: int|
                0 <= k < out@.len() ==> day_candidate(sel[fresh_date_events(sel, i as nat)[k]], candidate_type@, #[trigger] out@[k]),
        decreases n - i,
    {
        let ghost prev = fresh_date_events(sel, i as nat);
        let event = &events[idx[i]];
        assert(sel[i as int] == *event);
        proof {
            lemma_fresh_bounds(sel, i as nat);
        }
        match event.field_str("date") {
            Some(date) => {
                if !string_list_contains(&used, date) {
                    let ghost next = prev.push(i as int);
                    let mut c = JsonValue::Null;
                    set_member(&mut c, "date", member_copy(event, "date"));
                    set_member(&mut c, "candidate_type", JsonValue::Str(candidate_type.to_owned()));
                    set_member(&mut c, "score", member_copy(event, "score"));
                    set_member(&mut c, "keywords", strings_json(unique_keywords(period_keywords_for_fact(event), 8)));
                    set_member(&mut c, "evidence_keys", member_copy(event, "evidence_keys"));
                    proof {
                        lemma_candidate_keys();
                    }
                    out.push(c);
                    used.push(date.to_owned());
                    proof {
                        assert(chosen_dates(sel, next) =~= chosen_dates(sel, prev).push(date@));
                        assert forall|k: int| 0 <= k < out@.len() implies day_candidate(
                            sel[next[k]],
                            candidate_type@,
                            #[trigger] out@[k],
                        ) by {
                            if k < prev.len() {
                                assert(next[k] == prev[k]);
                            }
                        }
                    }
                }
            },
            None => {},
        }
        i = i + 1;
    }
    proof {
        lemma_fresh_prefix(sel, i as nat, n as nat);
        lemma_fresh_bounds(sel, n as nat);
        let all = fresh_date_events(sel, n as nat);
        if i < n {
            assert(first_items(all, limit as nat) =~= all.take(limit as int));
        }
    }
    out
}

/// Every position of a list, in order.
fn all_positions(n: usize) -> (r: Vec<usize>)
    ensures
        r@.len() == n,
        forall|k: int| 0 <= k < n ==> #[trigger] r@[k] == k,
{
    let mut out: Vec<usize> = Vec::new();
    let mut i: usize = 0;
    while i < n
        invariant
            i <= n,
            out@.len() == i,
            forall|k: int| 0 <= k < i ==> #[trigger] out@[k] == k,
        decreases n - i,
    {
        out.push(i);
        i = i + 1;
    }
    out
}

/// The candidate days: the first `limit` events on a date that no earlier event with a date
/// has, each as its date, the candidate type, score, keywords and evidence.
pub fn build_day_candidates_v2(events: &Vec<JsonValue>, candidate_type: &str, limit: usize) -> (r: Vec<JsonValue>)
    ensures
        r@.len() == first_items(fresh_date_events(events@, events@.len()), limit as nat).len(),
        forall|k: int|
            0 <= k < r@.len() ==> day_candidate(
                events@[fresh_date_events(events@, events@.len())[k]],
                candidate_type@,
                #[trigger] r@[k],
            ),
{
    let idx = all_positions(events.len());
    assert(picked(events@, idx@) =~= events@);
    day_candidates_at(events, &idx, candidate_type, limit)
}

/// The events picked among the first `i` begin the events picked among the first `m`.
proof fn lemma_fresh_prefix(events: Seq<JsonValue>, i: nat, m: nat)
    requires
        i <= m,
    ensures
        fresh_date_events(events, i).len() <= fresh_date_events(events, m).len(),
        fresh_date_events(events, m).take(fresh_date_events(events, i).len() as int) == fresh_date_events(events, i),
    decreases m - i,
{
    if m > i {
        lemma_fresh_prefix(events, i, (m - 1) as nat);
        let a = fresh_date_events(events, i);
        let b = fresh_date_events(events, (m - 1) as nat);
        let c = fresh_date_events(events, m);
        if c.len() != b.len() {
            assert(c.take(b.len() as int) =~= b);
            assert(c.take(a.len() as int) =~= b.take(a.len() as int));
        }
    } else {
        assert(fresh_date_events(events, m).take(fresh_date_events(events, m).len() as int) =~= fresh_date_events(events, m));
    }
}

// ---------------------------------------------------------------------------------------------
// What each day signals
// ---------------------------------------------------------------------------------------------

/// The events on a date, in order.
pub open spec fn events_on(events: Seq<JsonValue>, date: Seq<char>) -> Seq<JsonValue>
    decreases events.len(),
{
    if events.len() == 0 {
        seq![]
    } else {
        let prev = events_on(events.drop_last(), date);
        if field_str(events.last(), "date"@) == Some(date) {
            prev.push(events.last())
        } else {
            prev
        }
    }
}

/// The events a day summary reads: the first four on its date.
pub open spec fn day_events(events: Seq<JsonValue>, date: Seq<char>) -> Seq<JsonValue> {
    first_items(events_on(events, date), 4)
}

/// The evidence keys the events cite, event after event.
pub open spec fn evidence_strings(events: Seq<JsonValue>) -> Seq<Seq<char>>
    decreases events.len(),
{
    if events.len() == 0 {
        seq![]
    } else {
        evidence_strings(events.drop_last()) + match field_arr(events.last(), "evidence_keys"@) {
            Some(a) => strings_in(a),
            None => seq![],
        }
    }
}

/// The events that can carry a best day (`Some(true)`), that call for vigilance
/// (`Some(false)`), or all of them (`None`).
pub open spec fn events_of_kind(events: Seq<JsonValue>, kind: Option<bool>) -> Seq<JsonValue>
    decreases events.len(),
{
    if events.len() == 0 {
        seq![]
    } else {
        let prev = events_of_kind(events.drop_last(), kind);
        let e = events.last();
        let keep = match kind {
            Some(true) => best_candidate(e),
            Some(false) => watch_event(e),
            None => true,
        };
        if keep {
            prev.push(e)
        } else {
            prev
        }
    }
}

/// The keywords of a day that `non_empty_keywords` keeps: its non-blank keywords, each once,
/// in increasing order, or the first fallback keyword where none is left.
pub open spec fn kept_keywords(values: Seq<Seq<char>>, fallback: Seq<Seq<char>>) -> Seq<Seq<char>> {
    if nonblank(values).len() == 0 {
        fallback.take(if fallback.len() > 0 { 1int } else { 0int })
    } else {
        sorted_set_of(nonblank(values))
    }
}

/// The keywords of the day's events, each at its first occurrence, at most eight.
pub open spec fn day_keywords(day: Seq<JsonValue>) -> Seq<Seq<char>> {
    or_weekly_signal(first_n(first_seen(events_keywords(day), true), 8))
}

/// The summary of what a day signals: its date and position in the period, the keys of its
/// first three events, the first four evidence keys and the first three themes and tones of
/// its events (its first four events only), the intensity of its first event (`medium` by
/// default), the role of its position, its keywords, those of its opportunities and of its
/// risks, and the keywords to avoid.
pub open spec fn daily_summary(date: Seq<char>, index: nat, events: Seq<JsonValue>, r: JsonValue) -> bool {
    let day = day_events(events, date);
    let keywords = day_keywords(day);
    &&& r is Object
    &&& field_str(r, "date"@) == Some(date)
    &&& json_get(r, "day_index"@) == Some(count_json(index))
    &&& field_arr(r, "main_event_keys"@) matches Some(a) && strings_in(a) == first_items(member_strings(day, "event_key"@), 3)
        && a.len() == strings_in(a).len()
    &&& field_arr(r, "evidence_keys"@) matches Some(a) && strings_in(a) == first_n(first_seen(evidence_strings(day), true), 4)
        && a.len() == strings_in(a).len()
    &&& field_arr(r, "theme_codes"@) matches Some(a) && strings_in(a) == first_n(first_seen(member_strings(day, "theme_code"@), false), 3)
        && a.len() == strings_in(a).len()
    &&& field_arr(r, "tone_codes"@) matches Some(a) && strings_in(a) == first_n(first_seen(member_strings(day, "tone"@), false), 3)
        && a.len() == strings_in(a).len()
    &&& field_str(r, "intensity"@) == Some(
        if day.len() > 0 && field_str(day[0], "intensity"@) is Some { field_str(day[0], "intensity"@)->0 } else { "medium"@ },
    )
    &&& field_str(r, "role_hint"@) == Some(role_hint(index))
    &&& field_arr(r, "keywords"@) matches Some(a) && strings_in(a) == kept_keywords(keywords, seq!["daily_signal"@])
        && a.len() == strings_in(a).len()
    &&& field_arr(r, "opportunity_keywords"@) matches Some(a) && strings_in(a) == kept_keywords(
        first_items(events_keywords(events_of_kind(day, Some(true))), 5),
        keywords,
    ) && a.len() == strings_in(a).len()
    &&& field_arr(r, "risk_keywords"@) matches Some(a) && strings_in(a) == kept_keywords(
        first_items(events_keywords(events_of_kind(day, Some(false))), 5),
        keywords,
    ) && a.len() == strings_in(a).len()
    &&& field_arr(r, "avoid_keywords"@) matches Some(a) && strings_in(a) == seq!["overpromise"@, "overinterpretation"@]
        && a.len() == 2
}

/// The events at the given positions.
pub open spec fn picked(events: Seq<JsonValue>, idx: Seq<usize>) -> Seq<JsonValue> {
    idx.map_values(|k: usize| events[k as int])
}

/// The positions of the first four events on a date.
fn day_event_positions(events: &Vec<JsonValue>, date: &str) -> (r: Vec<usize>)
    ensures
        picked(events@, r@) == day_events(events@, date@),
        forall|k: int| 0 <= k < r@.len() ==> #[trigger] r@[k] < events@.len(),
{
    let n = events.len();
    let mut out: Vec<usize> = Vec::new();
    let mut i: usize = 0;
    while i < n && out.len() < 4
        invariant
            n == events@.len(),
            i <= n,
            out@.len() <= 4,
            picked(events@, out@) == events_on(events@.take(i as int), date@),
            forall|k: int| 0 <= k < out@.len() ==> #[trigger] out@[k] < i,
        decreases n - i,
    {
        proof {
            assert(events@.take(i + 1).drop_last() =~= events@.take(i as int));
            assert(events@.take(i + 1).last() == events@[i as int]);
        }
        let on_date = match events[i].field_str("date") {
            Some(d) => str_equal(d, date),
            None => false,
        };
        if on_date {
            let ghost before = out@;
            out.push(i);
            assert(picked(events@, out@) =~= picked(events@, before).push(events@[i as int]));
        }
        i = i + 1;
    }
    proof {
        lemma_events_on_prefix(events@, date@, i as int);
        if i == n {
            assert(events@.take(n as int) =~= events@);
        } else {
            assert(first_items(events_on(events@, date@), 4) =~= events_on(events@, date@).take(4));
        }
    }
    out
}

proof fn lemma_events_on_prefix(events: Seq<JsonValue>, date: Seq<char>, i: int)
    requires
        0 <= i <= events.len(),
    ensures
        events_on(events.take(i), date).len() <= events_on(events, date).len(),
        events_on(events, date).take(events_on(events.take(i), date).len() as int) == events_on(events.take(i), date),
    decreases events.len() - i,
{
    if i == events.len() {
        assert(events.take(i) =~= events);
        assert(events_on(events, date).take(events_on(events, date).len() as int) =~= events_on(events, date));
    } else {
        lemma_events_on_prefix(events, date, i + 1);
        let a = events_on(events.take(i), date);
        let b = events_on(events.take(i + 1), date);
        let d = events_on(events, date);
        assert(events.take(i + 1).drop_last() =~= events.take(i));
        if b.len() != a.len() {
            assert(d.take(a.len() as int) =~= b.take(a.len() as int));
            assert(b.take(a.len() as int) =~= a);
        }
    }
}

/// The strings under `key` of the picked events.
fn strings_at(events: &Vec<JsonValue>, idx: &Vec<usize>, key: &str) -> (r: Vec<String>)
    requires
        forall|k: int| 0 <= k < idx@.len() ==> #[trigger] idx@[k] < events@.len(),
    ensures
        string_views(r@) == member_strings(picked(events@, idx@), key@),
{
    let n = idx.len();
    let mut out: Vec<String> = Vec::new();
    let mut i: usize = 0;
    while i < n
        invariant
            n == idx@.len(),
            i <= n,
            forall|k: int| 0 <= k < idx@.len() ==> #[trigger] idx@[k] < events@.len(),
            string_views(out@) == member_strings(picked(events@, idx@).take(i as int), key@),
        decreases n - i,
    {
        proof {
            assert(picked(events@, idx@).take(i + 1).drop_last() =~= picked(events@, idx@).take(i as int));
            assert(picked(events@, idx@).take(i + 1).last() == events@[idx@[i as int] as int]);
        }
        match events[idx[i]].field_str(key) {
            Some(t) => {
                let ghost before = string_views(out@);
                out.push(t.to_owned());
                assert(string_views(out@) =~= before.push(t@));
            },
            None => {},
        }
        i = i + 1;
    }
    assert(picked(events@, idx@).take(n as int) =~= picked(events@, idx@));
    out
}

/// The evidence keys the picked events cite.
fn evidence_at(events: &Vec<JsonValue>, idx: &Vec<usize>) -> (r: Vec<String>)
    requires
        forall|k: int| 0 <= k < idx@.len() ==> #[trigger] idx@[k] < events@.len(),
    ensures
        string_views(r@) == evidence_strings(picked(events@, idx@)),
{
    let n = idx.len();
    let mut out: Vec<String> = Vec::new();
    let mut i: usize = 0;
    while i < n
        invariant
            n == idx@.len(),
            i <= n,
            forall|k: int| 0 <= k < idx@.len() ==> #[trigger] idx@[k] < events@.len(),
            string_views(out@) == evidence_strings(picked(events@, idx@).take(i as int)),
        decreases n - i,
    {
        proof {
            assert(picked(events@, idx@).take(i + 1).drop_last() =~= picked(events@, idx@).take(i as int));
            assert(picked(events@, idx@).take(i + 1).last() == events@[idx@[i as int] as int]);
        }
        match events[idx[i]].field_arr("evidence_keys") {
            Some(items) => {
                let m = items.len();
                let ghost before = string_views(out@);
                let mut j: usize = 0;
                while j < m
                    invariant
                        m == items@.len(),
                        j <= m,
                        string_views(out@) == before + strings_in(items@.take(j as int)),
                    decreases m - j,
                {
                    proof {
                        assert(items@.take(j + 1).drop_last() =~= items@.take(j as int));
                        assert(items@.take(j + 1).last() == items@[j as int]);
                    }
                    match items[j].as_str() {
                        Some(t) => {
                            let ghost b2 = string_views(out@);
                            out.push(t.to_owned());
                            assert(string_views(out@) =~= b2.push(t@));
                        },
                        None => {},
                    }
                    j = j + 1;
                }
                assert(items@.take(m as int) =~= items@);
            },
            None => {},
        }
        i = i + 1;
    }
    assert(picked(events@, idx@).take(n as int) =~= picked(events@, idx@));
    out
}

/// The keywords of the picked events of a kind, event after event.
fn keywords_at(events: &Vec<JsonValue>, idx: &Vec<usize>, kind: Option<bool>) -> (r: Vec<String>)
    requires
        forall|k: int| 0 <= k < idx@.len() ==> #[trigger] idx@[k] < events@.len(),
    ensures
        string_views(r@) == events_keywords(events_of_kind(picked(events@, idx@), kind)),
{
    let n = idx.len();
    let mut out: Vec<String> = Vec::new();
    let mut i: usize = 0;
    while i < n
        invariant
            n == idx@.len(),
            i <= n,
            forall|k: int| 0 <= k < idx@.len() ==> #[trigger] idx@[k] < events@.len(),
            string_views(out@) == events_keywords(events_of_kind(picked(events@, idx@).take(i as int), kind)),
        decreases n - i,
    {
        let ghost pk = picked(events@, idx@);
        proof {
            assert(pk.take(i + 1).drop_last() =~= pk.take(i as int));
            assert(pk.take(i + 1).last() == events@[idx@[i as int] as int]);
        }
        let e = &events[idx[i]];
        let keep = match kind {
            Some(true) => is_period_best_candidate(e),
            Some(false) => is_period_watch_event(e),
            None => true,
        };
        if keep {
            let ks = period_keywords_for_fact(e);
            let ghost before = string_views(out@);
            let ghost prev_kind = events_of_kind(pk.take(i as int), kind);
            assert(events_of_kind(pk.take(i + 1), kind) == prev_kind.push(*e));
            assert(prev_kind.push(*e).drop_last() =~= prev_kind);
            let m = ks.len();
            let mut j: usize = 0;
            while j < m
                invariant
                    m == ks@.len(),
                    j <= m,
                    string_views(out@) == before + string_views(ks@).take(j as int),
                decreases m - j,
            {
                let ghost b2 = string_views(out@);
                out.push(ks[j].clone());
                assert(string_views(out@) =~= b2.push(ks@[j as int]@));
                assert(string_views(ks@).take(j + 1) =~= string_views(ks@).take(j as int).push(ks@[j as int]@));
                j = j + 1;
            }
            assert(string_views(ks@).take(m as int) =~= string_views(ks@));
        } else {
            assert(events_of_kind(pk.take(i + 1), kind) == events_of_kind(pk.take(i as int), kind));
        }
        i = i + 1;
    }
    assert(picked(events@, idx@).take(n as int) =~= picked(events@, idx@));
    out
}

/// At most `limit` strings from the start of a list.
fn first_strings(values: &Vec<String>, limit: usize) -> (r: Vec<String>)
    ensures
        string_views(r@) == first_items(string_views(values@), limit as nat),
{
    let n = values.len();
    let mut out: Vec<String> = Vec::new();
    let mut i: usize = 0;
    while i < n && i < limit
        invariant
            n == values@.len(),
            i <= n,
            i <= limit,
            string_views(out@) == string_views(values@).take(i as int),
        decreases n - i,
    {
        let ghost before = string_views(out@);
        out.push(values[i].clone());
        assert(string_views(out@) =~= before.push(values@[i as int]@));
        assert(string_views(values@).take(i + 1) =~= string_views(values@).take(i as int).push(values@[i as int]@));
        i = i + 1;
    }
    proof {
        if i == n {
            assert(string_views(values@).take(n as int) =~= string_views(values@));
        }
    }
    out
}

proof fn lemma_summary_keys()
    ensures
        "date"@.len() > 2 && "date"@[0] == 'd' && "date"@[1] == 'a',
        "day_index"@.len() > 2 && "day_index"@[0] == 'd' && "day_index"@[1] == 'a' && "day_index"@[2] == 'y',
        "main_event_keys"@.len() > 2 && "main_event_keys"@[0] == 'm',
        "evidence_keys"@.len() > 2 && "evidence_keys"@[0] == 'e',
        "theme_codes"@.len() > 2 && "theme_codes"@[0] == 't' && "theme_codes"@[1] == 'h',
        "tone_codes"@.len() > 2 && "tone_codes"@[0] == 't' && "tone_codes"@[1] == 'o',
        "intensity"@.len() > 2 && "intensity"@[0] == 'i',
        "role_hint"@.len() > 2 && "role_hint"@[0] == 'r',
        "keywords"@.len() > 2 && "keywords"@[0] == 'k',
        "opportunity_keywords"@.len() > 2 && "opportunity_keywords"@[0] == 'o',
        "risk_keywords"@.len() > 2 && "risk_keywords"@[0] == 'r' && "risk_keywords"@[1] == 'i',
        "role_hint"@[1] == 'o',
        "avoid_keywords"@.len() > 2 && "avoid_keywords"@[0] == 'a',
        "date"@[2] == 't',
{
    reveal_strlit("date");
    reveal_strlit("day_index");
    reveal_strlit("main_event_keys");
    reveal_strlit("evidence_keys");
    reveal_strlit("theme_codes");
    reveal_strlit("tone_codes");
    reveal_strlit("intensity");
    reveal_strlit("role_hint");
    reveal_strlit("keywords");
    reveal_strlit("opportunity_keywords");
    reveal_strlit("risk_keywords");
    reveal_strlit("avoid_keywords");
}

/// What a day signals (see `daily_summary`).
pub fn build_daily_signal_summary_v2(date: &str, index: usize, events: &Vec<JsonValue>) -> (r: JsonValue)
    ensures
        daily_summary(date@, index as nat, events@, r),
{
    let idx = day_event_positions(events, date);
    let ghost day = day_events(events@, date@);
    let event_keys = strings_at(events, &idx, "event_key");
    let main_keys = first_strings(&event_keys, 3);
    let evidence_all = evidence_at(events, &idx);
    let evidence_keys = crate::keywords::first_seen_upto(&evidence_all, true, 4);
    let themes = strings_at(events, &idx, "theme_code");
    let theme_codes = crate::keywords::first_seen_upto(&themes, false, 3);
    let tones = strings_at(events, &idx, "tone");
    let tone_codes = crate::keywords::first_seen_upto(&tones, false, 3);
    let intensity = if idx.len() > 0 {
        match events[idx[0]].field_str("intensity") {
            Some(t) => t,
            None => "medium",
        }
    } else {
        "medium"
    };
    let all_keywords = keywords_at(events, &idx, None);
    assert(events_of_kind(day, None) =~= day) by {
        lemma_kind_all(day);
    }
    let keywords = unique_keywords(all_keywords, 8);
    let best_all = keywords_at(events, &idx, Some(true));
    let best_first = first_strings(&best_all, 5);
    let watch_all = keywords_at(events, &idx, Some(false));
    let watch_first = first_strings(&watch_all, 5);
    let opportunity = non_empty_keywords(best_first, &keywords);
    let risk = non_empty_keywords(watch_first, &keywords);
    let mut daily_fallback: Vec<String> = Vec::new();
    daily_fallback.push("daily_signal".to_owned());
    assert(string_views(daily_fallback@) =~= seq!["daily_signal"@]);
    let kept = non_empty_keywords(keywords, &daily_fallback);
    let mut avoid: Vec<String> = Vec::new();
    avoid.push("overpromise".to_owned());
    avoid.push("overinterpretation".to_owned());
    assert(string_views(avoid@) =~= seq!["overpromise"@, "overinterpretation"@]);
    let mut r = JsonValue::Null;
    set_member(&mut r, "date", JsonValue::Str(date.to_owned()));
    set_member(&mut r, "day_index", crate::json::json_count(index));
    set_member(&mut r, "main_event_keys", strings_json(main_keys));
    set_member(&mut r, "evidence_keys", strings_json(evidence_keys));
    set_member(&mut r, "theme_codes", strings_json(theme_codes));
    set_member(&mut r, "tone_codes", strings_json(tone_codes));
    set_member(&mut r, "intensity", JsonValue::Str(intensity.to_owned()));
    set_member(&mut r, "role_hint", JsonValue::Str(period_role_hint(index).to_owned()));
    set_member(&mut r, "keywords", strings_json(kept));
    set_member(&mut r, "opportunity_keywords", strings_json(opportunity));
    set_member(&mut r, "risk_keywords", strings_json(risk));
    set_member(&mut r, "avoid_keywords", strings_json(avoid));
    proof {
        lemma_summary_keys();
    }
    r
}

proof fn lemma_kind_all(events: Seq<JsonValue>)
    ensures
        events_of_kind(events, None) == events,
    decreases events.len(),
{
    if events.len() > 0 {
        lemma_kind_all(events.drop_last());
        assert(events.drop_last().push(events.last()) =~= events);
    } else {
        assert(events =~= seq![]);
    }
}

// ---------------------------------------------------------------------------------------------
// The period and the evidence the writer sees
// ---------------------------------------------------------------------------------------------

/// Why a period cannot be written with the seven-day contract: another profile than the next
/// seven days, or other than seven included dates or a duration of other than seven days.
pub open spec fn next_7_days_failure(period_resolution: JsonValue) -> Option<Seq<char>> {
    if field_str(period_resolution, "period_profile_code"@) != Some("next_7_days"@) {
        Some("HOROSCOPE_PERIOD_PROFILE_UNSUPPORTED"@)
    } else if !(field_arr(period_resolution, "included_dates"@) matches Some(dates) && dates.len() == 7 && json_int(
        json_at(period_resolution, "duration_days"@),
    ) == Some(7i64)) {
        Some("HOROSCOPE_PERIOD_DATE_RANGE_MISMATCH"@)
    } else {
        None
    }
}

/// Refuses a period that is not the next seven days (see `next_7_days_failure`).
pub fn validate_period_writer_v2_next_7_days_contract(period_resolution: &JsonValue) -> (r: Result<(), GenerationError>)
    ensures
        outcome(r) == next_7_days_failure(*period_resolution),
{
    let profile_ok = match period_resolution.field_str("period_profile_code") {
        Some(p) => str_equal(p, "next_7_days"),
        None => false,
    };
    if !profile_ok {
        return Err(horoscope_error("HOROSCOPE_PERIOD_PROFILE_UNSUPPORTED"));
    }
    let dates = match period_resolution.field_arr("included_dates") {
        Some(d) => d,
        None => {
            return Err(horoscope_error("HOROSCOPE_PERIOD_DATE_RANGE_MISMATCH"));
        },
    };
    let duration = match period_resolution.get("duration_days") {
        Some(v) => v.as_i64(),
        None => None,
    };
    let seven_days = match duration {
        Some(d) => d == 7,
        None => false,
    };
    if dates.len() != 7 || !seven_days {
        return Err(horoscope_error("HOROSCOPE_PERIOD_DATE_RANGE_MISMATCH"));
    }
    Ok(())
}

/// An evidence item as the writer sees it: its key, snapshot, date, kind, bodies, aspect,
/// natal target and house, theme, tone (read from `tone`) and score, each a copy.
pub open spec fn writer_evidence(item: JsonValue, r: JsonValue) -> bool {
    &&& r is Object
    &&& copied(r, "evidence_key"@, item, "evidence_key"@)
    &&& copied(r, "snapshot_key"@, item, "snapshot_key"@)
    &&& copied(r, "date"@, item, "date"@)
    &&& copied(r, "fact_type"@, item, "fact_type"@)
    &&& copied(r, "transiting_object"@, item, "transiting_object"@)
    &&& copied(r, "aspect"@, item, "aspect"@)
    &&& copied(r, "natal_target"@, item, "natal_target"@)
    &&& copied(r, "natal_house"@, item, "natal_house"@)
    &&& copied(r, "theme_code"@, item, "theme_code"@)
    &&& copied(r, "tone_code"@, item, "tone"@)
    &&& copied(r, "score"@, item, "score"@)
}

/// `r[to]` is a copy of `src[from]` (`null` where it is missing).
pub open spec fn copied(r: JsonValue, to: Seq<char>, src: JsonValue, from: Seq<char>) -> bool {
    json_get(r, to) matches Some(x) && json_same(x, json_at(src, from))
}

proof fn lemma_evidence_keys()
    ensures
        "evidence_key"@.len() == 12 && "evidence_key"@[0] == 'e',
        "snapshot_key"@.len() == 12 && "snapshot_key"@[0] == 's',
        "date"@.len() == 4,
        "fact_type"@.len() == 9 && "fact_type"@[0] == 'f',
        "transiting_object"@.len() == 17,
        "aspect"@.len() == 6,
        "natal_target"@.len() == 12 && "natal_target"@[0] == 'n',
        "natal_house"@.len() == 11,
        "theme_code"@.len() == 10,
        "tone_code"@.len() == 9 && "tone_code"@[0] == 't',
        "score"@.len() == 5,
{
    reveal_strlit("evidence_key");
    reveal_strlit("snapshot_key");
    reveal_strlit("date");
    reveal_strlit("fact_type");
    reveal_strlit("transiting_object");
    reveal_strlit("aspect");
    reveal_strlit("natal_target");
    reveal_strlit("natal_house");
    reveal_strlit("theme_code");
    reveal_strlit("tone_code");
    reveal_strlit("score");
}

fn writer_evidence_item(item: &JsonValue) -> (r: JsonValue)
    ensures
        writer_evidence(*item, r),
{
    let mut r = JsonValue::Null;
    set_member(&mut r, "evidence_key", member_copy(item, "evidence_key"));
    set_member(&mut r, "snapshot_key", member_copy(item, "snapshot_key"));
    set_member(&mut r, "date", member_copy(item, "date"));
    set_member(&mut r, "fact_type", member_copy(item, "fact_type"));
    set_member(&mut r, "transiting_object", member_copy(item, "transiting_object"));
    set_member(&mut r, "aspect", member_copy(item, "aspect"));
    set_member(&mut r, "natal_target", member_copy(item, "natal_target"));
    set_member(&mut r, "natal_house", member_copy(item, "natal_house"));
    set_member(&mut r, "theme_code", member_copy(item, "theme_code"));
    set_member(&mut r, "tone_code", member_copy(item, "tone"));
    set_member(&mut r, "score", member_copy(item, "score"));
    proof {
        lemma_evidence_keys();
    }
    r
}

/// The evidence as the writer sees it, item by item (see `writer_evidence`).
pub fn sanitize_writer_v2_evidence(items: &Vec<JsonValue>) -> (r: Vec<JsonValue>)
    ensures
        r@.len() == items@.len(),
        forall|k: int| 0 <= k < items@.len() ==> writer_evidence(items@[k], #[trigger] r@[k]),
{
    let n = items.len();
    let mut out: Vec<JsonValue> = Vec::new();
    let mut i: usize = 0;
    while i < n
        invariant
            n == items@.len(),
            i <= n,
            out@.len() == i,
            forall|k: int| 0 <= k < i ==> writer_evidence(items@[k], #[trigger] out@[k]),
        decreases n - i,
    {
        out.push(writer_evidence_item(&items[i]));
        i = i + 1;
    }
    out
}

/// The roles of the sections of a premium reading, as the writer is told them.
pub open spec fn section_role_texts() -> Seq<(Seq<char>, Seq<char>)> {
    seq![
        ("overview_role"@, "trajectoire de période, pas résumé des sept jours"@),
        ("timeline_role"@, "vécu quotidien différencié, un usage concret par date"@),
        ("domains_role"@, "synthèse transversale, sans recopier la timeline"@),
        ("best_window_role"@, "créneaux d'usage concret liés à l'heure"@),
        ("watch_window_role"@, "ralentir ou vérifier seulement si fourni"@),
        ("strategy_role"@, "arbitrage final sans refaire le calendrier"@),
    ]
}

/// The roles of the sections of a premium reading: six named texts, in order.
pub fn build_period_premium_section_roles_v2() -> (r: JsonValue)
    ensures
        r matches JsonValue::Object(es) && es@.len() == 6 && forall|i: int|
            0 <= i < 6 ==> (#[trigger] es@[i]).key@ == section_role_texts()[i].0 && (es@[i].value matches JsonValue::Str(
                t,
            ) && t@ == section_role_texts()[i].1),
{
    let pairs = [
        ("overview_role", "trajectoire de période, pas résumé des sept jours"),
        ("timeline_role", "vécu quotidien différencié, un usage concret par date"),
        ("domains_role", "synthèse transversale, sans recopier la timeline"),
        ("best_window_role", "créneaux d'usage concret liés à l'heure"),
        ("watch_window_role", "ralentir ou vérifier seulement si fourni"),
        ("strategy_role", "arbitrage final sans refaire le calendrier"),
    ];
    let r = crate::error::detail_strs(&pairs);
    proof {
        assert forall|i: int| 0 <= i < 6 implies pairs@[i].0@ == section_role_texts()[i].0 && pairs@[i].1@ == section_role_texts()[i].1 by {
            assert(pairs@.map_values(|p: (&str, &str)| (p.0@, p.1@)) =~= section_role_texts());
            assert(pairs@.map_values(|p: (&str, &str)| (p.0@, p.1@))[i] == section_role_texts()[i]);
        }
    }
    r
}

/// The safety profile of public astrological guidance: its domain, and that medical
/// guidance, fatalism, financial promises and certain predictions are forbidden, that a
/// persona cannot override safety and that evidence keys must come from the request.
pub open spec fn safety_profile(r: JsonValue) -> bool {
    &&& r is Object
    &&& field_str(r, "domain"@) == Some("astrology_public_guidance"@)
    &&& json_get(r, "forbid_medical_guidance"@) == Some(JsonValue::Bool(true))
    &&& json_get(r, "forbid_fatalism"@) == Some(JsonValue::Bool(true))
    &&& json_get(r, "forbid_financial_promises"@) == Some(JsonValue::Bool(true))
    &&& json_get(r, "forbid_certain_predictions"@) == Some(JsonValue::Bool(true))
    &&& json_get(r, "persona_cannot_override_safety"@) == Some(JsonValue::Bool(true))
    &&& json_get(r, "evidence_keys_must_come_from_request"@) == Some(JsonValue::Bool(true))
}

/// The safety profile of public astrological guidance (see `safety_profile`).
pub fn astrology_public_safety_profile() -> (r: JsonValue)
    ensures
        safety_profile(r),
{
    let mut r = JsonValue::Null;
    set_member(&mut r, "domain", JsonValue::Str("astrology_public_guidance".to_owned()));
    set_member(&mut r, "forbid_medical_guidance", JsonValue::Bool(true));
    set_member(&mut r, "forbid_fatalism", JsonValue::Bool(true));
    set_member(&mut r, "forbid_financial_promises", JsonValue::Bool(true));
    set_member(&mut r, "forbid_certain_predictions", JsonValue::Bool(true));
    set_member(&mut r, "persona_cannot_override_safety", JsonValue::Bool(true));
    set_member(&mut r, "evidence_keys_must_come_from_request", JsonValue::Bool(true));
    proof {
        lemma_safety_keys();
    }
    r
}

proof fn lemma_safety_keys()
    ensures
        "domain"@.len() == 6,
        "forbid_medical_guidance"@.len() == 23,
        "forbid_fatalism"@.len() == 15,
        "forbid_financial_promises"@.len() == 25,
        "forbid_certain_predictions"@.len() == 26,
        "persona_cannot_override_safety"@.len() == 30,
        "evidence_keys_must_come_from_request"@.len() == 36,
{
    reveal_strlit("domain");
    reveal_strlit("forbid_medical_guidance");
    reveal_strlit("forbid_fatalism");
    reveal_strlit("forbid_financial_promises");
    reveal_strlit("forbid_certain_predictions");
    reveal_strlit("persona_cannot_override_safety");
    reveal_strlit("evidence_keys_must_come_from_request");
}

// ---------------------------------------------------------------------------------------------
// Editorial angles
// ---------------------------------------------------------------------------------------------

/// The theme a day summary leads with: its first theme code, `organization` where it has
/// none.
pub open spec fn lead_theme(day: JsonValue) -> Seq<char> {
    match field_arr(day, "theme_codes"@) {
        Some(a) => if a.len() > 0 && crate::json::json_str(a[0]) is Some {
            crate::json::json_str(a[0])->0
        } else {
            "organization"@
        },
        None => "organization"@,
    }
}

/// The angle a day takes given the angle codes already used.
pub open spec fn angle_given(used: Seq<Seq<char>>, theme: Seq<char>, index: nat) -> (Seq<char>, Seq<char>) {
    if used.contains(preferred_angle(theme).0) {
        fallback_angle(index)
    } else {
        preferred_angle(theme)
    }
}

/// The angle codes used by the first `n` days.
pub open spec fn angles_used(days: Seq<JsonValue>, n: nat) -> Seq<Seq<char>>
    decreases n,
{
    if n == 0 {
        seq![]
    } else {
        let used = angles_used(days, (n - 1) as nat);
        with_code(used, angle_given(used, lead_theme(days[n - 1]), (n - 1) as nat).0)
    }
}

/// The editorial angle of a day: its date, its angle (its theme's while no earlier day took
/// it, else that of its place in the week) and how to vary its theme.
pub open spec fn editorial_angle(days: Seq<JsonValue>, i: int, r: JsonValue) -> bool {
    let angle = angle_given(angles_used(days, i as nat), lead_theme(days[i]), i as nat);
    &&& r is Object
    &&& copied(r, "date"@, days[i], "date"@)
    &&& field_str(r, "angle_code"@) == Some(angle.0)
    &&& field_str(r, "angle_hint"@) == Some(angle.1)
    &&& field_str(r, "avoid_repetition_hint"@) == Some(repetition_hint(lead_theme(days[i])))
}

fn lead_theme_of(day: &JsonValue) -> (r: &str)
    ensures
        r@ == lead_theme(*day),
{
    match day.field_arr("theme_codes") {
        Some(a) => {
            if a.len() > 0 {
                match a[0].as_str() {
                    Some(t) => t,
                    None => "organization",
                }
            } else {
                "organization"
            }
        },
        None => "organization",
    }
}

proof fn lemma_angle_keys()
    ensures
        "date"@.len() == 4,
        "angle_code"@.len() == 10,
        "angle_hint"@.len() == 10 && "angle_hint"@[6] == 'h' && "angle_code"@[6] == 'c',
        "avoid_repetition_hint"@.len() == 21,
{
    reveal_strlit("date");
    reveal_strlit("angle_code");
    reveal_strlit("angle_hint");
    reveal_strlit("avoid_repetition_hint");
}

/// The editorial angle of each day of the summary, in order (see `editorial_angle`).
pub fn build_period_editorial_angles_v2(daily_signal_summary: &Vec<JsonValue>) -> (r: Vec<JsonValue>)
    ensures
        r@.len() == daily_signal_summary@.len(),
        forall|i: int| 0 <= i < r@.len() ==> editorial_angle(daily_signal_summary@, i, #[trigger] r@[i]),
{
    let n = daily_signal_summary.len();
    let mut used: Vec<String> = Vec::new();
    let mut out: Vec<JsonValue> = Vec::new();
    let mut i: usize = 0;
    while i < n
        invariant
            n == daily_signal_summary@.len(),
            i <= n,
            out@.len() == i,
            string_views(used@) == angles_used(daily_signal_summary@, i as nat),
            forall|k: int| 0 <= k < i ==> editorial_angle(daily_signal_summary@, k, #[trigger] out@[k]),
        decreases n - i,
    {
        let day = &daily_signal_summary[i];
        let theme = lead_theme_of(day);
        let angle = period_editorial_angle_v2(theme, i, &mut used);
        let mut a = JsonValue::Null;
        set_member(&mut a, "date", member_copy(day, "date"));
        set_member(&mut a, "angle_code", JsonValue::Str(angle.0.to_owned()));
        set_member(&mut a, "angle_hint", JsonValue::Str(angle.1.to_owned()));
        set_member(&mut a, "avoid_repetition_hint", JsonValue::Str(period_editorial_repetition_hint_v2(theme).to_owned()));
        proof {
            lemma_angle_keys();
        }
        out.push(a);
        i = i + 1;
    }
    out
}

// ---------------------------------------------------------------------------------------------
// Repeating arcs
// ---------------------------------------------------------------------------------------------

/// The signature of an event: its transiting body, aspect, natal target and theme, joined by
/// `|` (each empty where missing).
pub open spec fn signature(e: JsonValue) -> Seq<char> {
    str_or_empty(field_str(e, "transiting_object"@)) + seq!['|'] + str_or_empty(field_str(e, "aspect"@)) + seq!['|']
        + str_or_empty(field_str(e, "natal_target"@)) + seq!['|'] + str_or_empty(field_str(e, "theme_code"@))
}

/// The signature of each event, in order.
pub open spec fn signatures(events: Seq<JsonValue>) -> Seq<Seq<char>> {
    events.map_values(|e: JsonValue| signature(e))
}

/// The events with a signature, in order.
pub open spec fn group_of(events: Seq<JsonValue>, sig: Seq<char>) -> Seq<JsonValue>
    decreases events.len(),
{
    if events.len() == 0 {
        seq![]
    } else {
        let prev = group_of(events.drop_last(), sig);
        if signature(events.last()) == sig {
            prev.push(events.last())
        } else {
            prev
        }
    }
}

/// The signatures that more than one event shares, in the order each first appears.
pub open spec fn shared_signatures(events: Seq<JsonValue>, sigs: Seq<Seq<char>>) -> Seq<Seq<char>>
    decreases sigs.len(),
{
    if sigs.len() == 0 {
        seq![]
    } else {
        let prev = shared_signatures(events, sigs.drop_last());
        if group_of(events, sigs.last()).len() > 1 {
            prev.push(sigs.last())
        } else {
            prev
        }
    }
}

/// The arcs that repeat: the signatures more than one event shares, in the order each first
/// appears, at most five.
pub open spec fn repeating_signatures(events: Seq<JsonValue>) -> Seq<Seq<char>> {
    first_items(shared_signatures(events, first_seen(signatures(events), false)), 5)
}

/// A repeating arc: its signature, the first eight distinct dates of its events, their
/// keywords, and the first eight distinct evidence keys they cite.
pub open spec fn repeating_arc(events: Seq<JsonValue>, sig: Seq<char>, r: JsonValue) -> bool {
    let group = group_of(events, sig);
    &&& r is Object
    &&& field_str(r, "signature_code"@) == Some(sig)
    &&& field_arr(r, "dates"@) matches Some(a) && strings_in(a) == first_n(first_seen(member_strings(group, "date"@), true), 8)
        && a.len() == strings_in(a).len()
    &&& field_arr(r, "dominant_keywords"@) matches Some(a) && strings_in(a) == day_keywords(group) && a.len() == strings_in(a).len()
    &&& field_arr(r, "evidence_keys"@) matches Some(a) && strings_in(a) == first_n(first_seen(evidence_strings(group), true), 8)
        && a.len() == strings_in(a).len()
}

fn signature_of(e: &JsonValue) -> (r: String)
    ensures
        r@ == signature(*e),
{
    let mut out = match e.field_str("transiting_object") {
        Some(t) => t.to_owned(),
        None => String::new(),
    };
    out.append("|");
    match e.field_str("aspect") {
        Some(t) => out.append(t),
        None => {},
    }
    out.append("|");
    match e.field_str("natal_target") {
        Some(t) => out.append(t),
        None => {},
    }
    out.append("|");
    match e.field_str("theme_code") {
        Some(t) => out.append(t),
        None => {},
    }
    proof {
        reveal_strlit("|");
        assert("|"@ =~= seq!['|']);
        assert(Seq::<char>::empty() + seq!['|'] =~= seq!['|']);
    }
    out
}

/// The positions of the events with a signature.
fn group_positions(sigs: &Vec<String>, sig: &str) -> (r: Vec<usize>)
    ensures
        forall|k: int| 0 <= k < r@.len() ==> #[trigger] r@[k] < sigs@.len(),
        forall|events: Seq<JsonValue>|
            events.len() == sigs@.len() && string_views(sigs@) == signatures(events) ==> #[trigger] picked(events, r@) == group_of(
                events,
                sig@,
            ),
{
    let n = sigs.len();
    let mut out: Vec<usize> = Vec::new();
    let mut i: usize = 0;
    while i < n
        invariant
            n == sigs@.len(),
            i <= n,
            forall|k: int| 0 <= k < out@.len() ==> #[trigger] out@[k] < i,
            forall|events: Seq<JsonValue>|
                events.len() == sigs@.len() && string_views(sigs@) == signatures(events) ==> #[trigger] picked(events, out@)
                    == group_of(events.take(i as int), sig@),
        decreases n - i,
    {
        let ghost before = out@;
        if str_equal(sigs[i].as_str(), sig) {
            out.push(i);
        }
        proof {
            assert forall|events: Seq<JsonValue>|
                events.len() == sigs@.len() && string_views(sigs@) == signatures(events) implies #[trigger] picked(events, out@)
                    == group_of(events.take(i + 1), sig@) by {
                assert(events.take(i + 1).drop_last() =~= events.take(i as int));
                assert(events.take(i + 1).last() == events[i as int]);
                assert(signatures(events)[i as int] == signature(events[i as int]));
                assert(string_views(sigs@)[i as int] == sigs@[i as int]@);
                assert(picked(events, before) == group_of(events.take(i as int), sig@));
                if sigs@[i as int]@ == sig@ {
                    assert(picked(events, out@) =~= picked(events, before).push(events[i as int]));
                } else {
                    assert(picked(events, out@) =~= picked(events, before));
                }
            }
        }
        i = i + 1;
    }
    proof {
        assert forall|events: Seq<JsonValue>|
            events.len() == sigs@.len() && string_views(sigs@) == signatures(events) implies #[trigger] picked(events, out@)
                == group_of(events, sig@) by {
            assert(events.take(n as int) =~= events);
        }
    }
    out
}

proof fn lemma_arc_keys()
    ensures
        "signature_code"@.len() == 14,
        "dates"@.len() == 5,
        "dominant_keywords"@.len() == 17,
        "evidence_keys"@.len() == 13,
{
    reveal_strlit("signature_code");
    reveal_strlit("dates");
    reveal_strlit("dominant_keywords");
    reveal_strlit("evidence_keys");
}

/// The arcs that repeat over the week (see `repeating_signatures` and `repeating_arc`).
pub fn build_repeating_arcs_v2(events: &Vec<JsonValue>) -> (r: Vec<JsonValue>)
    ensures
        r@.len() == repeating_signatures(events@).len(),
        forall|k: int| 0 <= k < r@.len() ==> repeating_arc(events@, repeating_signatures(events@)[k], #[trigger] r@[k]),
{
    let n = events.len();
    let mut sigs: Vec<String> = Vec::new();
    let mut i: usize = 0;
    while i < n
        invariant
            n == events@.len(),
            i <= n,
            string_views(sigs@) == signatures(events@.take(i as int)),
        decreases n - i,
    {
        let ghost before = string_views(sigs@);
        let sg = signature_of(&events[i]);
        sigs.push(sg);
        assert(string_views(sigs@) =~= before.push(signature(events@[i as int])));
        assert(signatures(events@.take(i + 1)) =~= signatures(events@.take(i as int)).push(signature(events@[i as int])));
        i = i + 1;
    }
    assert(events@.take(n as int) =~= events@);
    let distinct = crate::keywords::first_seen_upto(&sigs, false, usize::MAX);
    proof {
        crate::keywords::lemma_first_seen_len(signatures(events@), false);
    }
    let ghost fs = first_seen(signatures(events@), false);
    assert(string_views(distinct@) == fs);
    let m = distinct.len();
    let mut out: Vec<JsonValue> = Vec::new();
    let mut j: usize = 0;
    while j < m && out.len() < 5
        invariant
            m == distinct@.len(),
            j <= m,
            out@.len() <= 5,
            string_views(distinct@) == fs,
            fs == first_seen(signatures(events@), false),
            events@.len() == sigs@.len(),
            string_views(sigs@) == signatures(events@),
            out@.len() == shared_signatures(events@, fs.take(j as int)).len(),
            forall|k: int| 0 <= k < out@.len() ==> repeating_arc(events@, shared_signatures(events@, fs.take(j as int))[k], #[trigger] out@[k]),
        decreases m - j,
    {
        let sig = distinct[j].as_str();
        let idx = group_positions(&sigs, sig);
        let ghost group = group_of(events@, sig@);
        assert(picked(events@, idx@) == group);
        proof {
            assert(fs.take(j + 1).drop_last() =~= fs.take(j as int));
            assert(fs.take(j + 1).last() == sig@);
        }
        if idx.len() > 1 {
            let dates_all = strings_at(events, &idx, "date");
            let dates = crate::keywords::first_seen_upto(&dates_all, true, 8);
            let kw_all = keywords_at(events, &idx, None);
            proof {
                lemma_kind_all(group);
            }
            let keywords = unique_keywords(kw_all, 8);
            let ev_all = evidence_at(events, &idx);
            let evidence = crate::keywords::first_seen_upto(&ev_all, true, 8);
            let mut a = JsonValue::Null;
            set_member(&mut a, "signature_code", JsonValue::Str(distinct[j].clone()));
            set_member(&mut a, "dates", strings_json(dates));
            set_member(&mut a, "dominant_keywords", strings_json(keywords));
            set_member(&mut a, "evidence_keys", strings_json(evidence));
            proof {
                lemma_arc_keys();
            }
            let ghost prev = shared_signatures(events@, fs.take(j as int));
            out.push(a);
            proof {
                assert(shared_signatures(events@, fs.take(j + 1)) == prev.push(sig@));
                assert forall|k: int| 0 <= k < out@.len() implies repeating_arc(
                    events@,
                    shared_signatures(events@, fs.take(j + 1))[k],
                    #[trigger] out@[k],
                ) by {
                    if k < prev.len() {
                        assert(shared_signatures(events@, fs.take(j + 1))[k] == prev[k]);
                    }
                }
            }
        } else {
            assert(shared_signatures(events@, fs.take(j + 1)) == shared_signatures(events@, fs.take(j as int)));
        }
        j = j + 1;
    }
    proof {
        lemma_shared_prefix(events@, fs, j as int);
        if j == m {
            assert(fs.take(m as int) =~= fs);
        } else {
            let all = shared_signatures(events@, fs);
            assert(first_items(all, 5) =~= all.take(5));
        }
    }
    out
}

proof fn lemma_shared_prefix(events: Seq<JsonValue>, sigs: Seq<Seq<char>>, j: int)
    requires
        0 <= j <= sigs.len(),
    ensures
        shared_signatures(events, sigs.take(j)).len() <= shared_signatures(events, sigs).len(),
        shared_signatures(events, sigs).take(shared_signatures(events, sigs.take(j)).len() as int) == shared_signatures(
            events,
            sigs.take(j),
        ),
    decreases sigs.len() - j,
{
    if j == sigs.len() {
        assert(sigs.take(j) =~= sigs);
        assert(shared_signatures(events, sigs).take(shared_signatures(events, sigs).len() as int) =~= shared_signatures(
            events,
            sigs,
        ));
    } else {
        lemma_shared_prefix(events, sigs, j + 1);
        let a = shared_signatures(events, sigs.take(j));
        let b = shared_signatures(events, sigs.take(j + 1));
        let d = shared_signatures(events, sigs);
        assert(sigs.take(j + 1).drop_last() =~= sigs.take(j));
        if b.len() != a.len() {
            assert(d.take(a.len() as int) =~= b.take(a.len() as int));
            assert(b.take(a.len() as int) =~= a);
        }
    }
}

// ---------------------------------------------------------------------------------------------
// The semantic brief
// ---------------------------------------------------------------------------------------------

/// The dates of a period (the strings among its included dates).
pub open spec fn included(period_resolution: JsonValue) -> Seq<Seq<char>> {
    match field_arr(period_resolution, "included_dates"@) {
        Some(a) => strings_in(a),
        None => seq![],
    }
}

/// The strings of an array member of each item, item after item.
pub open spec fn flat_strings(items: Seq<JsonValue>, key: Seq<char>) -> Seq<Seq<char>>
    decreases items.len(),
{
    if items.len() == 0 {
        seq![]
    } else {
        flat_strings(items.drop_last(), key) + match field_arr(items.last(), key) {
            Some(a) => strings_in(a),
            None => seq![],
        }
    }
}

/// The events that can carry a best day on a date none of the excluded ones is.
pub open spec fn best_pool(events: Seq<JsonValue>, excluded: Seq<Seq<char>>) -> Seq<JsonValue>
    decreases events.len(),
{
    if events.len() == 0 {
        seq![]
    } else {
        let prev = best_pool(events.drop_last(), excluded);
        let e = events.last();
        if field_str(e, "date"@) matches Some(d) && !excluded.contains(d) && best_candidate(e) {
            prev.push(e)
        } else {
            prev
        }
    }
}

/// The editorial arc of the dates (see `build_period_editorial_arc_v2`).
pub open spec fn editorial_arc_json(r: JsonValue, dates: Seq<Seq<char>>) -> bool {
    &&& field_str(r, "purpose"@) == Some(arc_purpose())
    &&& field_arr(r, "days"@) matches Some(days) && days.len() == dates.len() && forall|i: int|
        0 <= i < days.len() ==> {
            &&& field_str(#[trigger] days[i], "date"@) == Some(dates[i])
            &&& field_str(days[i], "phase"@) == Some(arc_phase(i as nat))
            &&& field_str(days[i], "editorial_function"@) == Some(arc_function(i as nat))
        }
}

/// The candidate days of events (see `build_day_candidates_v2`).
pub open spec fn day_candidates_json(a: Seq<JsonValue>, events: Seq<JsonValue>, candidate_type: Seq<char>, limit: nat) -> bool {
    &&& a.len() == first_items(fresh_date_events(events, events.len()), limit).len()
    &&& forall|k: int|
        0 <= k < a.len() ==> day_candidate(events[fresh_date_events(events, events.len())[k]], candidate_type, #[trigger] a[k])
}

/// The candidate windows of events that pass a filter (see `build_window_candidates_v2`).
pub open spec fn window_candidates_json(
    a: Seq<JsonValue>,
    events: Seq<JsonValue>,
    times: Seq<(Seq<char>, Seq<(Seq<char>, Seq<char>)>)>,
    ok: spec_fn(JsonValue) -> bool,
    limit: nat,
) -> bool {
    &&& a.len() == window_picks(events, times, ok, limit, events.len()).len()
    &&& forall|k: int|
        0 <= k < a.len() ==> window_candidate(events[window_picks(events, times, ok, limit, events.len())[k]], times, #[trigger] a[k])
}

/// The events that may open a best window.
pub open spec fn best_filter() -> spec_fn(JsonValue) -> bool {
    |e: JsonValue| best_candidate(e)
}

/// The events that may open a watch window once the excluded snapshots are taken.
pub open spec fn watch_filter(excluded: Seq<Seq<char>>) -> spec_fn(JsonValue) -> bool {
    |e: JsonValue| watch_ok(e, excluded)
}

/// The best candidate windows of a brief: none where the profile leaves them out.
pub open spec fn best_windows_of(
    events: Seq<JsonValue>,
    scan_plan: JsonValue,
    detail: PeriodDetailProfile,
    a: Seq<JsonValue>,
) -> bool {
    if detail.include_best_windows {
        window_candidates_json(
            a,
            events,
            snapshot_times(scan_plan),
            best_filter(),
            detail.max_best_windows as nat,
        )
    } else {
        a.len() == 0
    }
}

/// The semantic brief of a seven-day period: its editorial arc and angles, the roles of its
/// sections, its keywords, tones and intensity, what each included date signals, its
/// candidate days (key days; watch days and best days, on other dates than key and watch
/// days, where the profile includes them), its candidate windows (best windows, then watch
/// windows on snapshots no best window took, where the profile includes them), its domain
/// candidates and its repeating arcs.
pub open spec fn semantic_brief(
    period_resolution: JsonValue,
    scan_plan: JsonValue,
    events: Seq<JsonValue>,
    detail: PeriodDetailProfile,
    week_intensity: Seq<char>,
    domain_candidates: Seq<JsonValue>,
    b: JsonValue,
) -> bool {
    &&& b is Object
    &&& brief_arc(b, included(period_resolution))
    &&& brief_days(b, included(period_resolution), events)
    &&& brief_roles(b)
    &&& brief_keywords(b, events, week_intensity)
    &&& brief_day_candidates(b, events, detail)
    &&& brief_windows(b, events, scan_plan, detail)
    &&& json_get(b, "domain_candidates"@) matches Some(JsonValue::Array(d)) && d@ == domain_candidates
    &&& brief_arcs(b, events)
}

/// The editorial arc of a brief, over the included dates.
pub open spec fn brief_arc(b: JsonValue, dates: Seq<Seq<char>>) -> bool {
    json_get(b, "editorial_arc"@) matches Some(a) && editorial_arc_json(a, dates)
}

/// What each included date signals, and the editorial angle of each of those days.
pub open spec fn brief_days(b: JsonValue, dates: Seq<Seq<char>>, events: Seq<JsonValue>) -> bool {
    match (field_arr(b, "daily_signal_summary"@), field_arr(b, "editorial_angles"@)) {
        (Some(d), Some(g)) => {
            &&& d.len() == dates.len()
            &&& forall|i: int| 0 <= i < d.len() ==> daily_summary(dates[i], i as nat, events, #[trigger] d[i])
            &&& g.len() == d.len()
            &&& forall|i: int| 0 <= i < g.len() ==> editorial_angle(d, i, #[trigger] g[i])
        },
        _ => false,
    }
}

/// The section roles of a brief.
pub open spec fn brief_roles(b: JsonValue) -> bool {
    json_get(b, "section_roles"@) matches Some(JsonValue::Object(es)) && es@.len() == 6 && forall|i: int|
        0 <= i < 6 ==> (#[trigger] es@[i]).key@ == section_role_texts()[i].0 && (es@[i].value matches JsonValue::Str(t) && t@
            == section_role_texts()[i].1)
}

/// The keywords, tones and intensity of the week.
pub open spec fn brief_keywords(b: JsonValue, events: Seq<JsonValue>, week_intensity: Seq<char>) -> bool {
    &&& field_arr(b, "period_arc_keywords"@) matches Some(a) && strings_in(a) == arc_keywords(events, 8) && a.len() == strings_in(a).len()
    &&& field_arr(b, "dominant_keywords"@) matches Some(a) && strings_in(a) == day_keywords(events) && a.len() == strings_in(a).len()
    &&& field_arr(b, "week_tone_codes"@) matches Some(a) && strings_in(a) == tone_codes(events, 4) && a.len() == strings_in(a).len()
    &&& field_str(b, "week_intensity"@) == Some(week_intensity)
}

/// The candidate days of a brief: key days; watch days and best days (on other dates than
/// the key and watch days) where the profile includes them.
pub open spec fn brief_day_candidates(b: JsonValue, events: Seq<JsonValue>, detail: PeriodDetailProfile) -> bool {
    match (field_arr(b, "key_day_candidates"@), field_arr(b, "watch_day_candidates"@), field_arr(b, "best_day_candidates"@)) {
        (Some(k), Some(w), Some(bd)) => {
            &&& day_candidates_json(k, events, "key"@, detail.max_key_days as nat)
            &&& if detail.include_watch_days {
                day_candidates_json(w, events_of_kind(events, Some(false)), "watch"@, detail.max_watch_days as nat)
            } else {
                w.len() == 0
            }
            &&& if detail.include_best_days {
                day_candidates_json(
                    bd,
                    best_pool(events, member_strings(w, "date"@) + member_strings(k, "date"@)),
                    "best"@,
                    detail.max_best_days as nat,
                )
            } else {
                bd.len() == 0
            }
        },
        _ => false,
    }
}

/// The candidate windows of a brief split where the best ones end.
pub open spec fn windows_split(
    wc: Seq<JsonValue>,
    n: int,
    events: Seq<JsonValue>,
    scan_plan: JsonValue,
    detail: PeriodDetailProfile,
) -> bool {
    &&& 0 <= n <= wc.len()
    &&& best_windows_of(events, scan_plan, detail, wc.take(n))
    &&& if detail.include_watch_windows {
        window_candidates_json(
            wc.skip(n),
            events,
            snapshot_times(scan_plan),
            watch_filter(flat_strings(wc.take(n), "source_snapshot_keys"@)),
            detail.max_watch_windows as nat,
        )
    } else {
        n == wc.len()
    }
}

/// The number of best windows of a brief.
pub open spec fn best_window_count(events: Seq<JsonValue>, scan_plan: JsonValue, detail: PeriodDetailProfile) -> int {
    if detail.include_best_windows {
        window_picks(events, snapshot_times(scan_plan), best_filter(), detail.max_best_windows as nat, events.len()).len() as int
    } else {
        0
    }
}

/// The candidate windows of a brief: best windows, then watch windows on snapshots no best
/// window took, each where the profile includes them.
pub open spec fn brief_windows(b: JsonValue, events: Seq<JsonValue>, scan_plan: JsonValue, detail: PeriodDetailProfile) -> bool {
    match field_arr(b, "window_candidates"@) {
        Some(wc) => windows_split(wc, best_window_count(events, scan_plan, detail), events, scan_plan, detail),
        None => false,
    }
}

/// The repeating arcs of a brief.
pub open spec fn brief_arcs(b: JsonValue, events: Seq<JsonValue>) -> bool {
    field_arr(b, "repeating_arcs"@) matches Some(a) && a.len() == repeating_signatures(events).len() && forall|k: int|
        0 <= k < a.len() ==> repeating_arc(events, repeating_signatures(events)[k], #[trigger] a[k])
}

proof fn lemma_brief_keys()
    ensures
        "editorial_arc"@.len() == 13 && "editorial_arc"@[0] == 'e',
        "editorial_angles"@.len() == 16,
        "section_roles"@.len() == 13 && "section_roles"@[0] == 's',
        "period_arc_keywords"@.len() == 19 && "period_arc_keywords"@[0] == 'p',
        "dominant_keywords"@.len() == 17 && "dominant_keywords"@[0] == 'd' && "dominant_keywords"@[3] == 'i',
        "week_tone_codes"@.len() == 15,
        "week_intensity"@.len() == 14 && "week_intensity"@[0] == 'w',
        "daily_signal_summary"@.len() == 20 && "daily_signal_summary"@[0] == 'd',
        "best_day_candidates"@.len() == 19 && "best_day_candidates"@[0] == 'b',
        "watch_day_candidates"@.len() == 20 && "watch_day_candidates"@[0] == 'w',
        "key_day_candidates"@.len() == 18,
        "window_candidates"@.len() == 17 && "window_candidates"@[0] == 'w',
        "domain_candidates"@.len() == 17 && "domain_candidates"@[0] == 'd' && "domain_candidates"@[3] == 'a',
        "repeating_arcs"@.len() == 14 && "repeating_arcs"@[0] == 'r',
{
    reveal_strlit("editorial_arc");
    reveal_strlit("editorial_angles");
    reveal_strlit("section_roles");
    reveal_strlit("period_arc_keywords");
    reveal_strlit("dominant_keywords");
    reveal_strlit("week_tone_codes");
    reveal_strlit("week_intensity");
    reveal_strlit("daily_signal_summary");
    reveal_strlit("best_day_candidates");
    reveal_strlit("watch_day_candidates");
    reveal_strlit("key_day_candidates");
    reveal_strlit("window_candidates");
    reveal_strlit("domain_candidates");
    reveal_strlit("repeating_arcs");
}

/// The included dates of a period, as slices.
fn included_dates_of(period_resolution: &JsonValue) -> (r: Vec<&str>)
    ensures
        views(r@) == included(*period_resolution),
{
    let mut out: Vec<&str> = Vec::new();
    match period_resolution.field_arr("included_dates") {
        Some(items) => {
            let n = items.len();
            let mut i: usize = 0;
            while i < n
                invariant
                    n == items@.len(),
                    i <= n,
                    views(out@) == strings_in(items@.take(i as int)),
                decreases n - i,
            {
                proof {
                    assert(items@.take(i + 1).drop_last() =~= items@.take(i as int));
                    assert(items@.take(i + 1).last() == items@[i as int]);
                }
                match items[i].as_str() {
                    Some(t) => {
                        let ghost before = views(out@);
                        out.push(t);
                        assert(views(out@) =~= before.push(t@));
                    },
                    None => {},
                }
                i = i + 1;
            }
            assert(items@.take(n as int) =~= items@);
        },
        None => {
            assert(views(out@) =~= Seq::<Seq<char>>::empty());
        },
    }
    out
}

/// The positions of the events of a kind.
fn kind_positions(events: &Vec<JsonValue>, kind: Option<bool>) -> (r: Vec<usize>)
    ensures
        forall|k: int| 0 <= k < r@.len() ==> #[trigger] r@[k] < events@.len(),
        picked(events@, r@) == events_of_kind(events@, kind),
{
    let n = events.len();
    let mut out: Vec<usize> = Vec::new();
    let mut i: usize = 0;
    while i < n
        invariant
            n == events@.len(),
            i <= n,
            forall|k: int| 0 <= k < out@.len() ==> #[trigger] out@[k] < i,
            picked(events@, out@) == events_of_kind(events@.take(i as int), kind),
        decreases n - i,
    {
        proof {
            assert(events@.take(i + 1).drop_last() =~= events@.take(i as int));
            assert(events@.take(i + 1).last() == events@[i as int]);
        }
        let e = &events[i];
        let keep = match kind {
            Some(true) => is_period_best_candidate(e),
            Some(false) => is_period_watch_event(e),
            None => true,
        };
        if keep {
            let ghost before = out@;
            out.push(i);
            assert(picked(events@, out@) =~= picked(events@, before).push(events@[i as int]));
        }
        i = i + 1;
    }
    assert(events@.take(n as int) =~= events@);
    out
}

/// The positions of the events that can carry a best day on a date none of the excluded
/// ones is.
fn best_pool_positions(events: &Vec<JsonValue>, excluded: &Vec<String>) -> (r: Vec<usize>)
    ensures
        forall|k: int| 0 <= k < r@.len() ==> #[trigger] r@[k] < events@.len(),
        picked(events@, r@) == best_pool(events@, string_views(excluded@)),
{
    let n = events.len();
    let mut out: Vec<usize> = Vec::new();
    let mut i: usize = 0;
    while i < n
        invariant
            n == events@.len(),
            i <= n,
            forall|k: int| 0 <= k < out@.len() ==> #[trigger] out@[k] < i,
            picked(events@, out@) == best_pool(events@.take(i as int), string_views(excluded@)),
        decreases n - i,
    {
        proof {
            assert(events@.take(i + 1).drop_last() =~= events@.take(i as int));
            assert(events@.take(i + 1).last() == events@[i as int]);
        }
        let e = &events[i];
        let keep = match e.field_str("date") {
            Some(d) => !string_list_contains(excluded, d) && is_period_best_candidate(e),
            None => false,
        };
        if keep {
            let ghost before = out@;
            out.push(i);
            assert(picked(events@, out@) =~= picked(events@, before).push(events@[i as int]));
        }
        i = i + 1;
    }
    assert(events@.take(n as int) =~= events@);
    out
}

/// The strings of an array member of each item, item after item.
fn flat_strings_of(items: &Vec<JsonValue>, key: &str) -> (r: Vec<String>)
    ensures
        string_views(r@) == flat_strings(items@, key@),
{
    let n = items.len();
    let mut out: Vec<String> = Vec::new();
    let mut i: usize = 0;
    while i < n
        invariant
            n == items@.len(),
            i <= n,
            string_views(out@) == flat_strings(items@.take(i as int), key@),
        decreases n - i,
    {
        proof {
            assert(items@.take(i + 1).drop_last() =~= items@.take(i as int));
            assert(items@.take(i + 1).last() == items@[i as int]);
        }
        match items[i].field_arr(key) {
            Some(a) => {
                let m = a.len();
                let ghost before = string_views(out@);
                let mut j: usize = 0;
                while j < m
                    invariant
                        m == a@.len(),
                        j <= m,
                        string_views(out@) == before + strings_in(a@.take(j as int)),
                    decreases m - j,
                {
                    proof {
                        assert(a@.take(j + 1).drop_last() =~= a@.take(j as int));
                        assert(a@.take(j + 1).last() == a@[j as int]);
                    }
                    match a[j].as_str() {
                        Some(t) => {
                            let ghost b2 = string_views(out@);
                            out.push(t.to_owned());
                            assert(string_views(out@) =~= b2.push(t@));
                        },
                        None => {},
                    }
                    j = j + 1;
                }
                assert(a@.take(m as int) =~= a@);
            },
            None => {},
        }
        i = i + 1;
    }
    assert(items@.take(n as int) =~= items@);
    out
}

/// The members of a semantic brief, in order.
fn assemble_brief(
    arc: JsonValue,
    angles: Vec<JsonValue>,
    roles: JsonValue,
    arc_keywords_json: JsonValue,
    dominant: JsonValue,
    tones: JsonValue,
    week_intensity: &str,
    daily: Vec<JsonValue>,
    best_days: Vec<JsonValue>,
    watch_days: Vec<JsonValue>,
    key_days: Vec<JsonValue>,
    windows: Vec<JsonValue>,
    domain_candidates: Vec<JsonValue>,
    arcs: Vec<JsonValue>,
) -> (b: JsonValue)
    ensures
        b is Object,
        json_get(b, "editorial_arc"@) == Some(arc),
        field_arr(b, "editorial_angles"@) == Some(angles@),
        json_get(b, "section_roles"@) == Some(roles),
        json_get(b, "period_arc_keywords"@) == Some(arc_keywords_json),
        json_get(b, "dominant_keywords"@) == Some(dominant),
        json_get(b, "week_tone_codes"@) == Some(tones),
        field_str(b, "week_intensity"@) == Some(week_intensity@),
        field_arr(b, "daily_signal_summary"@) == Some(daily@),
        field_arr(b, "best_day_candidates"@) == Some(best_days@),
        field_arr(b, "watch_day_candidates"@) == Some(watch_days@),
        field_arr(b, "key_day_candidates"@) == Some(key_days@),
        field_arr(b, "window_candidates"@) == Some(windows@),
        json_get(b, "domain_candidates"@) == Some(JsonValue::Array(domain_candidates)),
        field_arr(b, "repeating_arcs"@) == Some(arcs@),
{
    let mut b = JsonValue::Null;
    set_member(&mut b, "editorial_arc", arc);
    set_member(&mut b, "editorial_angles", JsonValue::Array(angles));
    set_member(&mut b, "section_roles", roles);
    set_member(&mut b, "period_arc_keywords", arc_keywords_json);
    set_member(&mut b, "dominant_keywords", dominant);
    set_member(&mut b, "week_tone_codes", tones);
    set_member(&mut b, "week_intensity", JsonValue::Str(week_intensity.to_owned()));
    set_member(&mut b, "daily_signal_summary", JsonValue::Array(daily));
    set_member(&mut b, "best_day_candidates", JsonValue::Array(best_days));
    set_member(&mut b, "watch_day_candidates", JsonValue::Array(watch_days));
    set_member(&mut b, "key_day_candidates", JsonValue::Array(key_days));
    set_member(&mut b, "window_candidates", JsonValue::Array(windows));
    set_member(&mut b, "domain_candidates", JsonValue::Array(domain_candidates));
    set_member(&mut b, "repeating_arcs", JsonValue::Array(arcs));
    proof {
        lemma_brief_keys();
    }
    b
}

/// The semantic brief of a seven-day period (see `semantic_brief`); refused where the period
/// is not the next seven days (see `next_7_days_failure`). The week's intensity and the
/// domain candidates, which rest on the events' floating-point scores, are given.
#[verifier::rlimit(40)]
pub fn build_period_semantic_brief(
    period_resolution: &JsonValue,
    scan_plan: &JsonValue,
    events: &Vec<JsonValue>,
    detail: &PeriodDetailProfile,
    week_intensity: &str,
    domain_candidates: Vec<JsonValue>,
) -> (r: Result<JsonValue, GenerationError>)
    ensures
        outcome(r) == next_7_days_failure(*period_resolution),
        r matches Ok(b) ==> semantic_brief(*period_resolution, *scan_plan, events@, *detail, week_intensity@, domain_candidates@, b),
{
    let dates = included_dates_of(period_resolution);
    match validate_period_writer_v2_next_7_days_contract(period_resolution) {
        Ok(()) => {},
        Err(e) => {
            return Err(e);
        },
    }
    let ghost ds = included(*period_resolution);
    // What each day signals.
    let n = dates.len();
    let mut daily: Vec<JsonValue> = Vec::new();
    let mut i: usize = 0;
    while i < n
        invariant
            n == dates@.len(),
            views(dates@) == ds,
            i <= n,
            daily@.len() == i,
            forall|k: int| 0 <= k < i ==> daily_summary(ds[k], k as nat, events@, #[trigger] daily@[k]),
        decreases n - i,
    {
        daily.push(build_daily_signal_summary_v2(dates[i], i, events));
        i = i + 1;
    }
    let angles = build_period_editorial_angles_v2(&daily);
    let dominant = crate::keywords::dominant_keywords_v2(events, 8);
    let arc_keywords_list = crate::keywords::period_arc_keywords_v2(events, 8);
    let tones = crate::keywords::dominant_tone_codes_v2(events, 4);
    // Candidate days.
    let key_days = build_day_candidates_v2(events, "key", detail.max_key_days);
    let watch_days = if detail.include_watch_days {
        let idx = kind_positions(events, Some(false));
        day_candidates_at(events, &idx, "watch", detail.max_watch_days)
    } else {
        Vec::new()
    };
    let mut excluded = crate::semantic_brief::collect_member_strings(Some(&watch_days), "date");
    let key_dates = crate::semantic_brief::collect_member_strings(Some(&key_days), "date");
    let ghost ex_before = string_views(excluded@);
    let mut j: usize = 0;
    while j < key_dates.len()
        invariant
            j <= key_dates@.len(),
            string_views(excluded@) == ex_before + string_views(key_dates@).take(j as int),
        decreases key_dates@.len() - j,
    {
        let ghost b2 = string_views(excluded@);
        excluded.push(key_dates[j].clone());
        assert(string_views(excluded@) =~= b2.push(key_dates@[j as int]@));
        assert(string_views(key_dates@).take(j + 1) =~= string_views(key_dates@).take(j as int).push(key_dates@[j as int]@));
        j = j + 1;
    }
    assert(string_views(key_dates@).take(key_dates@.len() as int) =~= string_views(key_dates@));
    let best_days = if detail.include_best_days {
        let idx = best_pool_positions(events, &excluded);
        day_candidates_at(events, &idx, "best", detail.max_best_days)
    } else {
        Vec::new()
    };
    // Candidate windows.
    let mut windows: Vec<JsonValue> = if detail.include_best_windows {
        build_window_candidates_v2(events, scan_plan, "best", detail.max_best_windows, &WindowFilter::Best)
    } else {
        Vec::new()
    };
    let ghost best_part = windows@;
    let ghost times = snapshot_times(*scan_plan);
    proof {
        assert((|e: JsonValue| filter_ok(WindowFilter::Best, e)) =~= best_filter());
    }
    assert(best_windows_of(events@, *scan_plan, *detail, best_part));
    if detail.include_watch_windows {
        let taken = flat_strings_of(&windows, "source_snapshot_keys");
        let filter = WindowFilter::Watch(taken);
        let watch_windows = build_window_candidates_v2(events, scan_plan, "watch", detail.max_watch_windows, &filter);
        proof {
            assert((|e: JsonValue| filter_ok(filter, e)) =~= watch_filter(flat_strings(best_part, "source_snapshot_keys"@)));
        }
        let ghost watch_part = watch_windows@;
        let mut w = watch_windows;
        windows.append(&mut w);
        proof {
            assert(windows@.take(best_part.len() as int) =~= best_part);
            assert(windows@.skip(best_part.len() as int) =~= watch_part);
        }
    } else {
        assert(windows@.take(windows@.len() as int) =~= windows@);
    }
    assert(windows@.take(best_part.len() as int) == best_part);
    let arcs = build_repeating_arcs_v2(events);
    let ghost watch_days_v = watch_days@;
    let ghost key_days_v = key_days@;
    let ghost windows_v = windows@;
    let b = assemble_brief(
        build_period_editorial_arc_v2(dates.as_slice()),
        angles,
        build_period_premium_section_roles_v2(),
        strings_json(arc_keywords_list),
        strings_json(dominant),
        strings_json(tones),
        week_intensity,
        daily,
        best_days,
        watch_days,
        key_days,
        windows,
        domain_candidates,
        arcs,
    );
    proof {
        let dts = included(*period_resolution);
        let wc = windows_v;
        let nb = best_part.len() as int;
        assert(windows_split(wc, nb, events@, *scan_plan, *detail));
        assert(field_arr(b, "window_candidates"@) == Some(wc));
        assert(nb == best_window_count(events@, *scan_plan, *detail));
        assert(brief_windows(b, events@, *scan_plan, *detail));
        assert(brief_arc(b, dts));
        assert(brief_days(b, dts, events@));
        assert(brief_roles(b));
        assert(brief_keywords(b, events@, week_intensity@));
        assert(brief_day_candidates(b, events@, *detail));
        assert(brief_arcs(b, events@));
    }
    Ok(b)
}

/// An event set in the eighth or twelfth natal house.
pub open spec fn in_hidden_house(e: JsonValue) -> bool {
    json_int(json_at(e, "natal_house"@)) == Some(8i64) || json_int(json_at(e, "natal_house"@)) == Some(12i64)
}

proof fn lemma_picks_pass_filter(
    events: Seq<JsonValue>,
    times: Seq<(Seq<char>, Seq<(Seq<char>, Seq<char>)>)>,
    f: spec_fn(JsonValue) -> bool,
    limit: nat,
    n: nat,
)
    requires
        n <= events.len(),
    ensures
        forall|k: int| 0 <= k < window_picks(events, times, f, limit, n).len() ==> f(events[#[trigger] window_picks(events, times, f, limit, n)[k]]),
    decreases n,
{
    if n > 0 {
        lemma_picks_pass_filter(events, times, f, limit, (n - 1) as nat);
        let prev = window_picks(events, times, f, limit, (n - 1) as nat);
        assert forall|k: int| 0 <= k < window_picks(events, times, f, limit, n).len() implies f(
            events[#[trigger] window_picks(events, times, f, limit, n)[k]],
        ) by {
            if k < prev.len() {
                assert(window_picks(events, times, f, limit, n)[k] == prev[k]);
            }
        }
    }
}

/// No best window is built from an event of the eighth or twelfth natal house: every event the
/// best filter (`best_filter`, that of the brief's best windows) picks for a window lies in
/// another house.
pub proof fn law_best_windows_skip_hidden_houses(
    events: Seq<JsonValue>,
    times: Seq<(Seq<char>, Seq<(Seq<char>, Seq<char>)>)>,
    limit: nat,
)
    ensures
        forall|k: int|
            0 <= k < window_picks(events, times, best_filter(), limit, events.len()).len()
                ==> !in_hidden_house(
                events[#[trigger] window_picks(events, times, best_filter(), limit, events.len())[k]],
            ),
{
    lemma_picks_pass_filter(events, times, best_filter(), limit, events.len());
}

/// No best day is drawn from an event of the eighth or twelfth natal house: the events that can
/// carry a best day, with or without excluded dates, all lie in other houses.
pub proof fn law_best_days_skip_hidden_houses(events: Seq<JsonValue>, excluded: Seq<Seq<char>>)
    ensures
        forall|i: int| 0 <= i < events_of_kind(events, Some(true)).len() ==> !in_hidden_house(#[trigger] events_of_kind(events, Some(true))[i]),
        forall|i: int| 0 <= i < best_pool(events, excluded).len() ==> !in_hidden_house(#[trigger] best_pool(events, excluded)[i]),
    decreases events.len(),
{
    if events.len() > 0 {
        law_best_days_skip_hidden_houses(events.drop_last(), excluded);
        let a = events_of_kind(events.drop_last(), Some(true));
        let b = best_pool(events.drop_last(), excluded);
        assert forall|i: int| 0 <= i < events_of_kind(events, Some(true)).len() implies !in_hidden_house(
            #[trigger] events_of_kind(events, Some(true))[i],
        ) by {
            if i < a.len() {
                assert(events_of_kind(events, Some(true))[i] == a[i]);
            }
        }
        assert forall|i: int| 0 <= i < best_pool(events, excluded).len() implies !in_hidden_house(#[trigger] best_pool(events, excluded)[i]) by {
            if i < b.len() {
                assert(best_pool(events, excluded)[i] == b[i]);
            }
        }
    }
}

} // verus!
