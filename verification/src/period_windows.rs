//! Time windows of a seven-day reading: the snapshot times of each date of the scan plan, and
//! the best or watch window that an event opens between its snapshot and the next.
use vstd::prelude::*;

use crate::json::{JsonValue, field_arr, field_str, json_arr, json_at, json_clone, json_get, json_same, set_member};
use crate::keywords::{first_seen, text_less, text_lt};
use crate::period_labels::{period_public_theme_field, period_theme_public_label, period_tone_public_label, theme_field, tone_label};
use crate::period_payload::str_or_empty;
use crate::semantic_brief::{member_strings, strings_in};
use crate::text::{is_blank, str_equal, string_views};

verus! {

// ---------------------------------------------------------------------------------------------
// Snapshot times by date
// ---------------------------------------------------------------------------------------------

/// The snapshots of a scan plan (none where it has no array of them).
pub open spec fn plan_snapshots(scan_plan: JsonValue) -> Seq<JsonValue> {
    match field_arr(scan_plan, "snapshots"@) {
        Some(items) => items,
        None => seq![],
    }
}

/// A text, or a default where there is none.
pub open spec fn text_or(o: Option<Seq<char>>, default: Seq<char>) -> Seq<char> {
    match o {
        Some(t) => t,
        None => default,
    }
}

/// The local time and key of a snapshot (noon and an empty key where they are missing).
pub open spec fn snapshot_pair(s: JsonValue) -> (Seq<char>, Seq<char>) {
    (text_or(field_str(s, "reference_time_local"@), "12:00"@), str_or_empty(field_str(s, "snapshot_key"@)))
}

/// The time and key of each snapshot of a date, in the order of the plan.
pub open spec fn date_pairs(snaps: Seq<JsonValue>, date: Seq<char>) -> Seq<(Seq<char>, Seq<char>)>
    decreases snaps.len(),
{
    if snaps.len() == 0 {
        seq![]
    } else {
        let prev = date_pairs(snaps.drop_last(), date);
        if field_str(snaps.last(), "date"@) == Some(date) {
            prev.push(snapshot_pair(snaps.last()))
        } else {
            prev
        }
    }
}

/// A pair placed after every pair whose time is not later than its own.
pub open spec fn insert_by_time(s: Seq<(Seq<char>, Seq<char>)>, p: (Seq<char>, Seq<char>)) -> Seq<(Seq<char>, Seq<char>)>
    decreases s.len(),
{
    if s.len() == 0 {
        seq![p]
    } else if text_lt(p.0, s.last().0) {
        insert_by_time(s.drop_last(), p).push(s.last())
    } else {
        s.push(p)
    }
}

/// The pairs ordered by time, pairs of the same time keeping their order (a stable sort).
pub open spec fn sort_by_time(s: Seq<(Seq<char>, Seq<char>)>) -> Seq<(Seq<char>, Seq<char>)>
    decreases s.len(),
{
    if s.len() == 0 {
        seq![]
    } else {
        insert_by_time(sort_by_time(s.drop_last()), s.last())
    }
}

/// Each date of the scan plan, at its first occurrence, with the time and key of its
/// snapshots ordered by time.
pub open spec fn snapshot_times(scan_plan: JsonValue) -> Seq<(Seq<char>, Seq<(Seq<char>, Seq<char>)>)> {
    let snaps = plan_snapshots(scan_plan);
    first_seen(member_strings(snaps, "date"@), false).map_values(
        |d: Seq<char>| (d, sort_by_time(date_pairs(snaps, d))),
    )
}

/// The texts of a list of pairs of strings.
pub open spec fn pair_views(v: Seq<(String, String)>) -> Seq<(Seq<char>, Seq<char>)> {
    v.map_values(|p: (String, String)| (p.0@, p.1@))
}

/// The texts of a list of dates with their pairs.
pub open spec fn times_view(v: Seq<(String, Vec<(String, String)>)>) -> Seq<(Seq<char>, Seq<(Seq<char>, Seq<char>)>)> {
    v.map_values(|e: (String, Vec<(String, String)>)| (e.0@, pair_views(e.1@)))
}

/// The pairs of a date: those of its first entry (`HashMap::get`).
pub open spec fn lookup_times(
    t: Seq<(Seq<char>, Seq<(Seq<char>, Seq<char>)>)>,
    date: Seq<char>,
) -> Option<Seq<(Seq<char>, Seq<char>)>>
    decreases t.len(),
{
    if t.len() == 0 {
        None
    } else if t[0].0 == date {
        Some(t[0].1)
    } else {
        lookup_times(t.drop_first(), date)
    }
}

fn snapshot_pair_of(s: &JsonValue) -> (r: (String, String))
    ensures
        (r.0@, r.1@) == snapshot_pair(*s),
{
    let time = match s.field_str("reference_time_local") {
        Some(t) => t.to_owned(),
        None => "12:00".to_owned(),
    };
    let key = match s.field_str("snapshot_key") {
        Some(k) => k.to_owned(),
        None => String::new(),
    };
    (time, key)
}

fn insert_pair_by_time(out: &mut Vec<(String, String)>, p: (String, String))
    ensures
        pair_views(final(out)@) == insert_by_time(pair_views(old(out)@), (p.0@, p.1@)),
{
    let ghost pv = (p.0@, p.1@);
    let ghost orig = pair_views(out@);
    let mut k: usize = out.len();
    proof {
        assert(orig.take(k as int) =~= orig);
        assert(orig.skip(k as int) =~= Seq::<(Seq<char>, Seq<char>)>::empty());
    }
    // Find the place: the first position from which every pair is later than `p`.
    while k > 0
        invariant
            k <= out@.len(),
            pair_views(out@) == orig,
            pv == (p.0@, p.1@),
            insert_by_time(orig, pv) == insert_by_time(orig.take(k as int), pv) + orig.skip(k as int),
        ensures
            k <= out@.len(),
            pair_views(out@) == orig,
            insert_by_time(orig, pv) == insert_by_time(orig.take(k as int), pv) + orig.skip(k as int),
            k > 0 ==> !text_lt(pv.0, orig[k - 1].0),
        decreases k,
    {
        if !text_less(p.0.as_str(), out[k - 1].0.as_str()) {
            break;
        }
        proof {
            let t = orig.take(k as int);
            assert(t.last() == orig[k - 1]);
            assert(t.drop_last() =~= orig.take(k - 1));
            assert(insert_by_time(t, pv) == insert_by_time(orig.take(k - 1), pv).push(orig[k - 1]));
            assert(orig.skip(k - 1) =~= seq![orig[k - 1]] + orig.skip(k as int));
            assert(insert_by_time(orig.take(k - 1), pv).push(orig[k - 1]) + orig.skip(k as int) =~= insert_by_time(
                orig.take(k - 1),
                pv,
            ) + orig.skip(k - 1));
        }
        k = k - 1;
    }
    proof {
        let t = orig.take(k as int);
        if k > 0 {
            assert(t.last() == orig[k - 1]);
            assert(insert_by_time(t, pv) == t.push(pv));
        } else {
            assert(insert_by_time(t, pv) == seq![pv]);
            assert(t.push(pv) =~= seq![pv]);
        }
    }
    out.insert(k, p);
    proof {
        assert(pair_views(out@) =~= orig.take(k as int).push(pv) + orig.skip(k as int));
    }
}

fn pairs_of_date(snaps: &Vec<JsonValue>, date: &str) -> (r: Vec<(String, String)>)
    ensures
        pair_views(r@) == sort_by_time(date_pairs(snaps@, date@)),
{
    let n = snaps.len();
    let mut out: Vec<(String, String)> = Vec::new();
    let mut i: usize = 0;
    while i < n
        invariant
            n == snaps@.len(),
            i <= n,
            pair_views(out@) == sort_by_time(date_pairs(snaps@.take(i as int), date@)),
        decreases n - i,
    {
        proof {
            assert(snaps@.take(i + 1).drop_last() =~= snaps@.take(i as int));
            assert(snaps@.take(i + 1).last() == snaps@[i as int]);
        }
        let s = &snaps[i];
        let on_date = match s.field_str("date") {
            Some(d) => str_equal(d, date),
            None => false,
        };
        if on_date {
            let p = snapshot_pair_of(s);
            assert(date_pairs(snaps@.take(i + 1), date@) == date_pairs(snaps@.take(i as int), date@).push(
                snapshot_pair(snaps@[i as int]),
            ));
            let ghost prev = date_pairs(snaps@.take(i as int), date@);
            assert(prev.push(snapshot_pair(snaps@[i as int])).drop_last() =~= prev);
            insert_pair_by_time(&mut out, p);
        } else {
            assert(date_pairs(snaps@.take(i + 1), date@) == date_pairs(snaps@.take(i as int), date@));
        }
        i = i + 1;
    }
    proof {
        assert(snaps@.take(n as int) =~= snaps@);
    }
    out
}

/// The snapshot times of each date of the scan plan: each date at its first occurrence, with
/// the local time and key of its snapshots ordered by time (stably; noon and an empty key
/// where a snapshot lacks them). Snapshots without a date are left out.
pub fn scan_plan_snapshot_keys_by_date(scan_plan: &JsonValue) -> (r: Vec<(String, Vec<(String, String)>)>)
    ensures
        times_view(r@) == snapshot_times(*scan_plan),
{
    let empty: Vec<JsonValue> = Vec::new();
    let snaps = match scan_plan.field_arr("snapshots") {
        Some(a) => a,
        None => &empty,
    };
    assert(snaps@ == plan_snapshots(*scan_plan));
    let total = snaps.len();
    let dates_all = crate::semantic_brief::collect_member_strings(Some(snaps), "date");
    let dates = crate::keywords::first_seen_upto(&dates_all, false, usize::MAX);
    proof {
        crate::keywords::lemma_first_seen_len(member_strings(snaps@, "date"@), false);
        lemma_member_strings_len(snaps@, "date"@);
    }
    assert(string_views(dates@) == first_seen(member_strings(snaps@, "date"@), false));
    let ghost fs = first_seen(member_strings(snaps@, "date"@), false);
    let n = dates.len();
    let mut out: Vec<(String, Vec<(String, String)>)> = Vec::new();
    let mut i: usize = 0;
    while i < n
        invariant
            n == dates@.len(),
            i <= n,
            string_views(dates@) == fs,
            snaps@ == plan_snapshots(*scan_plan),
            fs == first_seen(member_strings(plan_snapshots(*scan_plan), "date"@), false),
            times_view(out@) == snapshot_times(*scan_plan).take(i as int),
        decreases n - i,
    {
        let pairs = pairs_of_date(snaps, dates[i].as_str());
        let ghost before = times_view(out@);
        out.push((dates[i].clone(), pairs));
        proof {
            assert(times_view(out@) =~= before.push((dates@[i as int]@, pair_views(pairs@))));
            assert(snapshot_times(*scan_plan)[i as int] == (fs[i as int], sort_by_time(date_pairs(snaps@, fs[i as int]))));
            assert(snapshot_times(*scan_plan).take(i + 1) =~= snapshot_times(*scan_plan).take(i as int).push(
                snapshot_times(*scan_plan)[i as int],
            ));
        }
        i = i + 1;
    }
    proof {
        assert(snapshot_times(*scan_plan).take(n as int) =~= snapshot_times(*scan_plan));
    }
    out
}

proof fn lemma_member_strings_len(items: Seq<JsonValue>, key: Seq<char>)
    ensures
        member_strings(items, key).len() <= items.len(),
    decreases items.len(),
{
    if items.len() > 0 {
        lemma_member_strings_len(items.drop_last(), key);
    }
}

/// The snapshot times of a date (`HashMap::get`).
pub fn times_of_date<'a>(by_date: &'a Vec<(String, Vec<(String, String)>)>, date: &str) -> (r: Option<&'a Vec<(String, String)>>)
    ensures
        match r {
            Some(v) => lookup_times(times_view(by_date@), date@) == Some(pair_views(v@)),
            None => lookup_times(times_view(by_date@), date@) is None,
        },
{
    let n = by_date.len();
    let mut i: usize = 0;
    proof {
        assert(times_view(by_date@).skip(0) =~= times_view(by_date@));
    }
    while i < n
        invariant
            n == by_date@.len(),
            i <= n,
            lookup_times(times_view(by_date@), date@) == lookup_times(times_view(by_date@).skip(i as int), date@),
        decreases n - i,
    {
        proof {
            assert(times_view(by_date@).skip(i as int)[0] == times_view(by_date@)[i as int]);
            assert(times_view(by_date@).skip(i as int).drop_first() =~= times_view(by_date@).skip(i + 1));
        }
        if str_equal(by_date[i].0.as_str(), date) {
            return Some(&by_date[i].1);
        }
        i = i + 1;
    }
    None
}

// ---------------------------------------------------------------------------------------------
// Windows
// ---------------------------------------------------------------------------------------------

/// The position of the first pair with a key, if any.
pub open spec fn key_index(pairs: Seq<(Seq<char>, Seq<char>)>, key: Seq<char>) -> Option<int>
    decreases pairs.len(),
{
    if pairs.len() == 0 {
        None
    } else if pairs[0].1 == key {
        Some(0)
    } else {
        match key_index(pairs.drop_first(), key) {
            Some(i) => Some(i + 1),
            None => None,
        }
    }
}

/// The snapshot an event starts from: the one with its snapshot key, else the first.
pub open spec fn start_index(pairs: Seq<(Seq<char>, Seq<char>)>, key: Option<Seq<char>>) -> int {
    match key {
        Some(k) => match key_index(pairs, k) {
            Some(i) => i,
            None => 0,
        },
        None => 0,
    }
}

/// The snapshot times of an event's date and the position it starts from, where the event
/// has a date that has snapshots.
pub open spec fn window_times(
    event: JsonValue,
    times: Seq<(Seq<char>, Seq<(Seq<char>, Seq<char>)>)>,
) -> Option<(Seq<(Seq<char>, Seq<char>)>, int)> {
    match field_str(event, "date"@) {
        Some(d) => match lookup_times(times, d) {
            Some(pairs) => {
                let i = start_index(pairs, field_str(event, "snapshot_key"@));
                if i < pairs.len() {
                    Some((pairs, i))
                } else {
                    None
                }
            },
            None => None,
        },
        None => None,
    }
}

/// Two texts joined by a space.
pub open spec fn spaced(a: Seq<char>, b: Seq<char>) -> Seq<char> {
    a + seq![' '] + b
}

/// The window an event opens: on its date, from its snapshot's time to the next snapshot's
/// (midnight after the last), citing that snapshot and the event's evidence, titled by the
/// public label of its theme and the starting time, with the public labels of its theme
/// (`organization` by default) and tone (`focused` by default); a watch window says what to
/// watch, a best window why and for what it serves (the theme's domain focus, its code where
/// the table has none).
pub open spec fn window_matches(
    event: JsonValue,
    pairs: Seq<(Seq<char>, Seq<char>)>,
    i: int,
    watch: bool,
    themes: Seq<JsonValue>,
    tones: Seq<JsonValue>,
    w: JsonValue,
) -> bool {
    let start = pairs[i].0;
    let end = if i + 1 < pairs.len() { pairs[i + 1].0 } else { "00:00"@ };
    let theme = text_or(field_str(event, "theme_code"@), "organization"@);
    let tone = text_or(field_str(event, "tone"@), "focused"@);
    let label = theme_field(themes, theme, "public_label"@, theme);
    let focus = theme_field(themes, theme, "domain_focus"@, theme);
    &&& w is Object
    &&& field_str(w, "date"@) == field_str(event, "date"@)
    &&& field_str(w, "time_range_label"@) == Some(start + seq!['–'] + end)
    &&& field_arr(w, "source_snapshot_keys"@) matches Some(keys) && keys.len() == 1 && strings_in(keys) == seq![pairs[i].1]
    &&& field_str(w, "title"@) == Some(spaced(label, start))
    &&& field_str(w, "theme"@) == Some(label)
    &&& field_str(w, "tone"@) == Some(tone_label(tones, tone))
    &&& json_get(w, "evidence_keys"@) matches Some(k) && json_same(k, json_at(event, "evidence_keys"@))
    &&& if watch {
        &&& field_str(w, "watch_point"@) == Some(theme_field(themes, theme, "watch_window_point"@, theme))
        &&& json_get(w, "reason"@) is None
        &&& json_get(w, "best_for"@) is None
    } else {
        &&& field_str(w, "reason"@) == Some(focus)
        &&& field_arr(w, "best_for"@) matches Some(b) && b.len() == 2 && strings_in(b) == seq![spaced(label, start), focus]
        &&& json_get(w, "watch_point"@) is None
    }
}

proof fn lemma_window_keys()
    ensures
        "date"@.len() > 2 && "date"@[0] == 'd',
        "time_range_label"@.len() > 2 && "time_range_label"@[0] == 't' && "time_range_label"@[1] == 'i' && "time_range_label"@[2] == 'm',
        "title"@.len() > 2 && "title"@[0] == 't' && "title"@[1] == 'i' && "title"@[2] == 't',
        "theme"@.len() > 2 && "theme"@[0] == 't' && "theme"@[1] == 'h',
        "tone"@.len() > 2 && "tone"@[0] == 't' && "tone"@[1] == 'o',
        "source_snapshot_keys"@.len() > 2 && "source_snapshot_keys"@[0] == 's',
        "watch_point"@.len() > 2 && "watch_point"@[0] == 'w',
        "reason"@.len() > 2 && "reason"@[0] == 'r',
        "best_for"@.len() > 2 && "best_for"@[0] == 'b',
        "evidence_keys"@.len() > 2 && "evidence_keys"@[0] == 'e',
{
    reveal_strlit("date");
    reveal_strlit("time_range_label");
    reveal_strlit("title");
    reveal_strlit("theme");
    reveal_strlit("tone");
    reveal_strlit("source_snapshot_keys");
    reveal_strlit("watch_point");
    reveal_strlit("reason");
    reveal_strlit("best_for");
    reveal_strlit("evidence_keys");
}

fn spaced_string(a: &str, b: &str) -> (r: String)
    ensures
        r@ == spaced(a@, b@),
{
    let mut out = a.to_owned();
    out.append(" ");
    out.append(b);
    proof {
        reveal_strlit(" ");
        assert(" "@ =~= seq![' ']);
    }
    out
}

fn string_array(items: Vec<String>) -> (r: JsonValue)
    ensures
        r matches JsonValue::Array(a) && a@.len() == items@.len() && strings_in(a@) == string_views(items@),
{
    let n = items.len();
    let mut out: Vec<JsonValue> = Vec::new();
    let mut i: usize = 0;
    while i < n
        invariant
            n == items@.len(),
            i <= n,
            out@.len() == i,
            strings_in(out@) == string_views(items@).take(i as int),
        decreases n - i,
    {
        let ghost before = out@;
        out.push(JsonValue::Str(items[i].clone()));
        proof {
            assert(out@.drop_last() =~= before);
            assert(string_views(items@).take(i + 1) =~= string_views(items@).take(i as int).push(items@[i as int]@));
        }
        i = i + 1;
    }
    assert(string_views(items@).take(n as int) =~= string_views(items@));
    JsonValue::Array(out)
}

fn key_index_of(pairs: &Vec<(String, String)>, key: &str) -> (r: Option<usize>)
    ensures
        match r {
            Some(i) => key_index(pair_views(pairs@), key@) == Some(i as int),
            None => key_index(pair_views(pairs@), key@) is None,
        },
{
    let n = pairs.len();
    let mut i: usize = 0;
    let ghost pv = pair_views(pairs@);
    proof {
        assert(pv.skip(0) =~= pv);
    }
    while i < n
        invariant
            n == pairs@.len(),
            i <= n,
            pv == pair_views(pairs@),
            forall|j: int| 0 <= j < i ==> pv[j].1 != key@,
            key_index(pv, key@) == match key_index(pv.skip(i as int), key@) {
                Some(x) => Some(x + i),
                None => None,
            },
        decreases n - i,
    {
        proof {
            assert(pv.skip(i as int)[0] == pv[i as int]);
            assert(pv.skip(i as int).drop_first() =~= pv.skip(i + 1));
        }
        if str_equal(pairs[i].1.as_str(), key) {
            return Some(i);
        }
        i = i + 1;
    }
    None
}

/// The window an event opens, if its date has snapshots and its starting snapshot exists.
/// The occurrence index plays no part.
pub fn build_period_window(
    event: &JsonValue,
    snapshot_keys: &Vec<(String, Vec<(String, String)>)>,
    watch: bool,
    occurrence_index: usize,
    themes: &Vec<JsonValue>,
    tones: &Vec<JsonValue>,
) -> (r: Option<JsonValue>)
    ensures
        r is Some <==> window_times(*event, times_view(snapshot_keys@)) is Some,
        r matches Some(w) ==> (window_times(*event, times_view(snapshot_keys@)) matches Some((pairs, i))
            && window_matches(*event, pairs, i, watch, themes@, tones@, w)),
{
    let _ = occurrence_index;
    let date = match event.field_str("date") {
        Some(d) => d,
        None => {
            return None;
        },
    };
    let snapshots = match times_of_date(snapshot_keys, date) {
        Some(s) => s,
        None => {
            return None;
        },
    };
    let ghost pv = pair_views(snapshots@);
    let index = match event.field_str("snapshot_key") {
        Some(k) => match key_index_of(snapshots, k) {
            Some(i) => i,
            None => 0,
        },
        None => 0,
    };
    assert(index as int == start_index(pv, field_str(*event, "snapshot_key"@)));
    if index >= snapshots.len() {
        return None;
    }
    let start_label = snapshots[index].0.clone();
    let source_key = snapshots[index].1.clone();
    let end_label = if index + 1 < snapshots.len() {
        snapshots[index + 1].0.clone()
    } else {
        "00:00".to_owned()
    };
    let theme = match event.field_str("theme_code") {
        Some(t) => t,
        None => "organization",
    };
    let tone = match event.field_str("tone") {
        Some(t) => t,
        None => "focused",
    };
    let mut range = start_label.clone();
    range.append("–");
    range.append(end_label.as_str());
    proof {
        reveal_strlit("–");
        assert("–"@ =~= seq!['–']);
    }
    let label = period_theme_public_label(theme, themes);
    let title = spaced_string(label.as_str(), start_label.as_str());
    let evidence = match event.get("evidence_keys") {
        Some(k) => json_clone(k),
        None => JsonValue::Null,
    };
    let mut keys: Vec<String> = Vec::new();
    keys.push(source_key);
    let keys_json = string_array(keys);
    let mut w = JsonValue::Null;
    set_member(&mut w, "date", JsonValue::Str(date.to_owned()));
    set_member(&mut w, "time_range_label", JsonValue::Str(range));
    set_member(&mut w, "source_snapshot_keys", keys_json);
    set_member(&mut w, "title", JsonValue::Str(title));
    set_member(&mut w, "theme", JsonValue::Str(label.clone()));
    set_member(&mut w, "tone", JsonValue::Str(period_tone_public_label(tone, tones)));
    if watch {
        let point = period_public_theme_field(theme, "watch_window_point", theme, themes);
        set_member(&mut w, "watch_point", JsonValue::Str(point));
    } else {
        let focus = period_public_theme_field(theme, "domain_focus", theme, themes);
        set_member(&mut w, "reason", JsonValue::Str(focus.clone()));
        let mut uses: Vec<String> = Vec::new();
        uses.push(spaced_string(label.as_str(), start_label.as_str()));
        uses.push(focus);
        set_member(&mut w, "best_for", string_array(uses));
    }
    set_member(&mut w, "evidence_keys", evidence);
    proof {
        lemma_window_keys();
        assert(json_same(JsonValue::Null, json_at(*event, "evidence_keys"@)) || json_get(*event, "evidence_keys"@) is Some);
        assert(window_times(*event, times_view(snapshot_keys@)) == Some((pv, index as int)));
        assert(w is Object);
        assert(field_str(w, "date"@) == field_str(*event, "date"@));
        assert(field_str(w, "time_range_label"@) == Some(pv[index as int].0 + seq!['–'] + (if index + 1 < pv.len() { pv[index + 1].0 } else { "00:00"@ })));
        assert(field_str(w, "title"@) == Some(spaced(label@, pv[index as int].0)));
        assert(field_str(w, "theme"@) == Some(label@));
        assert(json_get(w, "evidence_keys"@) matches Some(k) && json_same(k, json_at(*event, "evidence_keys"@)));
        assert(field_arr(w, "source_snapshot_keys"@) matches Some(keys) && keys.len() == 1 && strings_in(keys) == seq![pv[index as int].1]);
        assert(field_str(w, "tone"@) == Some(tone_label(tones@, tone@)));
        assert(theme@ == text_or(field_str(*event, "theme_code"@), "organization"@));
        assert(tone@ == text_or(field_str(*event, "tone"@), "focused"@));
        if watch {
            assert(field_str(w, "watch_point"@) == Some(theme_field(themes@, theme@, "watch_window_point"@, theme@)));
            assert(json_get(w, "reason"@) is None);
            assert(json_get(w, "best_for"@) is None);
        } else {
            assert(json_get(w, "watch_point"@) is None);
            assert(field_str(w, "reason"@) == Some(theme_field(themes@, theme@, "domain_focus"@, theme@)));
            assert(field_arr(w, "best_for"@) matches Some(b) && b.len() == 2 && strings_in(b) == seq![spaced(label@, pv[index as int].0), theme_field(themes@, theme@, "domain_focus"@, theme@)]);
        }
    }
    Some(w)
}

// ---------------------------------------------------------------------------------------------
// Window markers of a writer request
// ---------------------------------------------------------------------------------------------

/// The window candidates of a writer request's semantic brief (none where it lists none).
pub open spec fn window_candidates(request: JsonValue) -> Seq<JsonValue> {
    match field_arr(json_at(request, "semantic_brief"@), "window_candidates"@) {
        Some(items) => items,
        None => seq![],
    }
}

/// The identity of the window at `i` (`None` where none is given).
pub open spec fn identity_at(ids: Seq<Option<String>>, i: int) -> Option<Seq<char>> {
    if 0 <= i < ids.len() {
        match ids[i] {
            Some(s) => Some(s@),
            None => None,
        }
    } else {
        None
    }
}

/// The window at `i` is left out: its identity is one of the excluded.
pub open spec fn left_out(ids: Seq<Option<String>>, excluded: Seq<Seq<char>>, i: int) -> bool {
    identity_at(ids, i) matches Some(t) && excluded.contains(t)
}

/// A window suits a list of markers by its tone: careful windows for the watch list, the others
/// for any other list.
pub open spec fn window_suits(w: JsonValue, kind: Seq<char>) -> bool {
    let tone = text_or(field_str(w, "tone_code"@), ""@);
    if kind == "watch"@ {
        tone == "careful"@
    } else {
        tone != "careful"@
    }
}

/// The positions, among the first `n` windows, of those that suit the list and are not left out.
pub open spec fn suited_upto(ws: Seq<JsonValue>, ids: Seq<Option<String>>, excluded: Seq<Seq<char>>, kind: Seq<char>, n: int) -> Seq<int>
    decreases n,
{
    if n <= 0 {
        seq![]
    } else {
        let prev = suited_upto(ws, ids, excluded, kind, n - 1);
        if window_suits(ws[n - 1], kind) && !left_out(ids, excluded, n - 1) {
            prev.push(n - 1)
        } else {
            prev
        }
    }
}

/// The position of the first of the first `n` windows that is not left out.
pub open spec fn first_kept(ids: Seq<Option<String>>, excluded: Seq<Seq<char>>, n: int) -> Option<int>
    decreases n,
{
    if n <= 0 {
        None
    } else {
        match first_kept(ids, excluded, n - 1) {
            Some(i) => Some(i),
            None => if left_out(ids, excluded, n - 1) {
                None
            } else {
                Some(n - 1)
            },
        }
    }
}

/// The windows a list draws on, by position: those that suit it and are not left out; where
/// there is none, the first window not left out.
pub open spec fn chosen_windows(ws: Seq<JsonValue>, ids: Seq<Option<String>>, excluded: Seq<Seq<char>>, kind: Seq<char>) -> Seq<int> {
    let s = suited_upto(ws, ids, excluded, kind, ws.len() as int);
    if s.len() > 0 {
        s
    } else {
        match first_kept(ids, excluded, ws.len() as int) {
            Some(i) => seq![i],
            None => seq![],
        }
    }
}

/// How many markers a list holds at most: two best windows where there are several, else three.
pub open spec fn marker_limit(kind: Seq<char>, count: nat) -> nat {
    if kind == "best"@ && count > 1 {
        2
    } else {
        3
    }
}

/// A text, unless it is missing or blank: then the default.
pub open spec fn text_unless_blank(o: Option<Seq<char>>, default: Seq<char>) -> Seq<char> {
    match o {
        Some(t) => if is_blank(t) {
            default
        } else {
            t
        },
        None => default,
    }
}

/// The public label of a window's theme (`thème` where it has no theme code).
pub open spec fn marker_theme(w: JsonValue, rows: Seq<JsonValue>) -> Seq<char> {
    match field_str(w, "theme_code"@) {
        Some(c) => theme_field(rows, c, "public_label"@, c),
        None => "thème"@,
    }
}

/// The public label of a window's tone (`ton` where it has no tone code).
pub open spec fn marker_tone(w: JsonValue, rows: Seq<JsonValue>) -> Seq<char> {
    match field_str(w, "tone_code"@) {
        Some(c) => tone_label(rows, c),
        None => "ton"@,
    }
}

/// The member `k` of `m` is a copy of that of `w` (`null` where `w` has none).
pub open spec fn copied_from(m: JsonValue, w: JsonValue, k: Seq<char>) -> bool {
    json_get(m, k) matches Some(x) && json_same(x, json_at(w, k))
}

/// The marker of a window: its date, time range, snapshot keys and evidence keys copied, a title
/// made of the day's label and the time range, the public labels of its theme and tone, and
/// for a watch list what to watch, for another list why it is good and what for (its own
/// `best_for`, else its theme); no other member.
pub open spec fn window_marker(w: JsonValue, kind: Seq<char>, rows: Seq<JsonValue>, m: JsonValue) -> bool {
    &&& m is Object
    &&& copied_from(m, w, "date"@)
    &&& copied_from(m, w, "time_range_label"@)
    &&& copied_from(m, w, "source_snapshot_keys"@)
    &&& copied_from(m, w, "evidence_keys"@)
    &&& field_str(m, "title"@) == Some(
        spaced(crate::period_labels::day_label(text_or(field_str(w, "date"@), ""@)), text_or(field_str(w, "time_range_label"@), ""@)),
    )
    &&& field_str(m, "theme"@) == Some(marker_theme(w, rows))
    &&& field_str(m, "tone"@) == Some(marker_tone(w, rows))
    &&& if kind == "watch"@ {
        &&& field_str(m, "watch_point"@) == Some(text_unless_blank(field_str(w, "watch_point"@), "Repère à vérifier avant de répondre."@))
        &&& json_get(m, "reason"@) is None
        &&& json_get(m, "best_for"@) is None
    } else {
        &&& field_str(m, "reason"@) == Some(text_unless_blank(field_str(w, "reason"@), "Repère utile pour agir sans surcharge."@))
        &&& json_get(m, "best_for"@) matches Some(b) && match json_get(w, "best_for"@) {
            Some(x) => json_same(b, x),
            None => json_arr(b) matches Some(a) && strings_in(a) == seq![marker_theme(w, rows)] && a.len() == 1,
        }
        &&& json_get(m, "watch_point"@) is None
    }
    &&& forall|k: Seq<char>|
        !(k == "date"@ || k == "time_range_label"@ || k == "source_snapshot_keys"@ || k == "evidence_keys"@ || k == "title"@
            || k == "theme"@ || k == "tone"@ || k == "watch_point"@ || k == "reason"@ || k == "best_for"@) ==> #[trigger] json_get(m, k)
            is None
}

/// The markers of a list: one per chosen window, in order, up to the list's limit.
pub open spec fn window_markers_of(
    request: JsonValue,
    ids: Seq<Option<String>>,
    excluded: Seq<Seq<char>>,
    kind: Seq<char>,
    rows: Seq<JsonValue>,
    r: Seq<JsonValue>,
) -> bool {
    let ws = window_candidates(request);
    let chosen = chosen_windows(ws, ids, excluded, kind);
    let n = if chosen.len() < marker_limit(kind, chosen.len()) {
        chosen.len()
    } else {
        marker_limit(kind, chosen.len())
    };
    &&& r.len() == n
    &&& forall|i: int| 0 <= i < n ==> window_marker(ws[chosen[i]], kind, rows, #[trigger] r[i])
}

proof fn lemma_marker_words()
    ensures
        "date"@.len() == 4 && "tone"@.len() == 4 && "date"@[0] == 'd' && "tone"@[0] == 't',
        "title"@.len() == 5 && "theme"@.len() == 5 && "title"@[1] == 'i' && "theme"@[1] == 'h',
        "time_range_label"@.len() == 16 && "source_snapshot_keys"@.len() == 20 && "evidence_keys"@.len() == 13,
        "watch_point"@.len() == 11 && "reason"@.len() == 6 && "best_for"@.len() == 8,
        "watch"@.len() == 5 && "best"@.len() == 4,
{
    reveal_strlit("date");
    reveal_strlit("tone");
    reveal_strlit("title");
    reveal_strlit("theme");
    reveal_strlit("time_range_label");
    reveal_strlit("source_snapshot_keys");
    reveal_strlit("evidence_keys");
    reveal_strlit("watch_point");
    reveal_strlit("reason");
    reveal_strlit("best_for");
    reveal_strlit("watch");
    reveal_strlit("best");
}

fn member_or_null(w: &JsonValue, k: &str) -> (r: JsonValue)
    ensures
        json_same(r, json_at(*w, k@)),
{
    match w.get(k) {
        Some(x) => json_clone(x),
        None => JsonValue::Null,
    }
}

fn text_unless_blank_of(w: &JsonValue, k: &str, default: &str) -> (r: String)
    ensures
        r@ == text_unless_blank(field_str(*w, k@), default@),
{
    match w.field_str(k) {
        Some(t) => if crate::text::str_is_blank(t) {
            default.to_owned()
        } else {
            t.to_owned()
        },
        None => default.to_owned(),
    }
}

fn excluded_has(excluded: &Vec<String>, t: &str) -> (r: bool)
    ensures
        r == string_views(excluded@).contains(t@),
{
    let n = excluded.len();
    let mut i: usize = 0;
    while i < n
        invariant
            n == excluded@.len(),
            i <= n,
            forall|j: int| 0 <= j < i ==> string_views(excluded@)[j] != t@,
        decreases n - i,
    {
        if str_equal(excluded[i].as_str(), t) {
            assert(string_views(excluded@)[i as int] == t@);
            return true;
        }
        i = i + 1;
    }
    false
}

fn is_left_out(ids: &Vec<Option<String>>, excluded: &Vec<String>, i: usize) -> (r: bool)
    ensures
        r == left_out(ids@, string_views(excluded@), i as int),
{
    if i < ids.len() {
        match &ids[i] {
            Some(t) => excluded_has(excluded, t.as_str()),
            None => false,
        }
    } else {
        false
    }
}

/// The marker of a window (see `window_marker`).
fn window_marker_of(w: &JsonValue, kind: &str, rows: &Vec<JsonValue>) -> (r: JsonValue)
    ensures
        window_marker(*w, kind@, rows@, r),
{
    proof {
        lemma_marker_words();
    }
    let date = match w.field_str("date") {
        Some(d) => d,
        None => "",
    };
    let range = match w.field_str("time_range_label") {
        Some(t) => t,
        None => "",
    };
    proof {
        reveal_strlit("");
    }
    let title = spaced_string(crate::period_labels::public_day_label(date).as_str(), range);
    let theme = match w.field_str("theme_code") {
        Some(c) => period_theme_public_label(c, rows),
        None => "thème".to_owned(),
    };
    let tone = match w.field_str("tone_code") {
        Some(c) => period_tone_public_label(c, rows),
        None => "ton".to_owned(),
    };
    let mut m = JsonValue::Null;
    set_member(&mut m, "date", member_or_null(w, "date"));
    set_member(&mut m, "time_range_label", member_or_null(w, "time_range_label"));
    set_member(&mut m, "source_snapshot_keys", member_or_null(w, "source_snapshot_keys"));
    set_member(&mut m, "title", JsonValue::Str(title));
    if str_equal(kind, "watch") {
        set_member(&mut m, "theme", JsonValue::Str(theme));
        set_member(&mut m, "tone", JsonValue::Str(tone));
        set_member(&mut m, "watch_point", JsonValue::Str(text_unless_blank_of(w, "watch_point", "Repère à vérifier avant de répondre.")));
    } else {
        let best_for = match w.get("best_for") {
            Some(b) => json_clone(b),
            None => {
                let mut one: Vec<String> = Vec::new();
                one.push(theme.clone());
                proof {
                    assert(string_views(one@) =~= seq![theme@]);
                }
                string_array(one)
            },
        };
        set_member(&mut m, "theme", JsonValue::Str(theme));
        set_member(&mut m, "tone", JsonValue::Str(tone));
        set_member(&mut m, "reason", JsonValue::Str(text_unless_blank_of(w, "reason", "Repère utile pour agir sans surcharge.")));
        set_member(&mut m, "best_for", best_for);
    }
    set_member(&mut m, "evidence_keys", member_or_null(w, "evidence_keys"));
    m
}

/// The markers of the best or watch windows of a writer request (see `window_markers_of`): the
/// candidates of its semantic brief that suit the list and whose identity, where `ids` gives
/// one for the window at the same position, is not excluded.
pub fn window_markers_from_candidates_v2(
    request: &JsonValue,
    candidate_type: &str,
    ids: &Vec<Option<String>>,
    excluded: &Vec<String>,
    rows: &Vec<JsonValue>,
) -> (r: Vec<JsonValue>)
    ensures
        window_markers_of(*request, ids@, string_views(excluded@), candidate_type@, rows@, r@),
{
    let empty: Vec<JsonValue> = Vec::new();
    let ws: &Vec<JsonValue> = match request.get("semantic_brief") {
        Some(s) => match s.field_arr("window_candidates") {
            Some(items) => items,
            None => &empty,
        },
        None => &empty,
    };
    assert(ws@ == window_candidates(*request));
    let ghost ex = string_views(excluded@);
    let watch = str_equal(candidate_type, "watch");
    let n = ws.len();
    let mut chosen: Vec<usize> = Vec::new();
    let mut first: Option<usize> = None;
    let mut i: usize = 0;
    while i < n
        invariant
            n == ws@.len(),
            ws@ == window_candidates(*request),
            watch == (candidate_type@ == "watch"@),
            ex == string_views(excluded@),
            i <= n,
            chosen@.len() == suited_upto(ws@, ids@, ex, candidate_type@, i as int).len(),
            forall|j: int| 0 <= j < chosen@.len() ==> chosen@[j] as int == #[trigger] suited_upto(ws@, ids@, ex, candidate_type@, i as int)[j],
            match first {
                Some(f) => first_kept(ids@, ex, i as int) == Some(f as int),
                None => first_kept(ids@, ex, i as int) is None,
            },
            forall|j: int| 0 <= j < chosen@.len() ==> chosen@[j] < n,
            first matches Some(f) ==> f < n,
        decreases n - i,
    {
        let out = is_left_out(ids, excluded, i);
        let tone = match ws[i].field_str("tone_code") {
            Some(t) => t,
            None => "",
        };
        proof {
            reveal_strlit("");
        }
        let careful = str_equal(tone, "careful");
        let suits = if watch {
            careful
        } else {
            !careful
        };
        let ghost prev = suited_upto(ws@, ids@, ex, candidate_type@, i as int);
        proof {
            assert(suits == window_suits(ws@[i as int], candidate_type@));
            assert(suited_upto(ws@, ids@, ex, candidate_type@, i + 1) == if suits && !out {
                prev.push(i as int)
            } else {
                prev
            });
        }
        if suits && !out {
            chosen.push(i);
            proof {
                assert forall|j: int| 0 <= j < chosen@.len() implies chosen@[j] as int == #[trigger] suited_upto(
                    ws@,
                    ids@,
                    ex,
                    candidate_type@,
                    i + 1,
                )[j] by {
                    if j < prev.len() {
                        assert(prev.push(i as int)[j] == prev[j]);
                    }
                }
            }
        }
        if first.is_none() && !out {
            first = Some(i);
        }
        i = i + 1;
    }
    let picks: Vec<usize> = if chosen.len() > 0 {
        chosen
    } else {
        let mut one: Vec<usize> = Vec::new();
        match first {
            Some(f) => one.push(f),
            None => {},
        }
        one
    };
    let ghost cw = chosen_windows(ws@, ids@, ex, candidate_type@);
    assert(picks@.len() == cw.len());
    assert(forall|j: int| 0 <= j < picks@.len() ==> picks@[j] as int == cw[j]);
    let best = str_equal(candidate_type, "best");
    let limit: usize = if best && picks.len() > 1 {
        2
    } else {
        3
    };
    let count = if picks.len() < limit {
        picks.len()
    } else {
        limit
    };
    let mut out: Vec<JsonValue> = Vec::new();
    let mut k: usize = 0;
    while k < count
        invariant
            count <= picks@.len(),
            picks@.len() == cw.len(),
            forall|j: int| 0 <= j < picks@.len() ==> #[trigger] picks@[j] as int == cw[j] && picks@[j] < ws@.len(),
            k <= count,
            out@.len() == k,
            forall|j: int| 0 <= j < k ==> window_marker(ws@[cw[j]], candidate_type@, rows@, #[trigger] out@[j]),
        decreases count - k,
    {
        out.push(window_marker_of(&ws[picks[k]], candidate_type, rows));
        k = k + 1;
    }
    proof {
        assert(marker_limit(candidate_type@, cw.len()) == limit as nat);
    }
    out
}

} // verus!
