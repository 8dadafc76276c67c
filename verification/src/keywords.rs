//! Keyword lists of the semantic brief: first occurrences up to a limit, and sorted sets of the
//! codes that describe an event.
use vstd::prelude::*;

use crate::json::JsonValue;
use crate::period_payload::views;
use crate::period_quality::key_texts;
use crate::prior_usage::append_new;
use crate::semantic_brief::member_strings;
use crate::text::{chars_of, is_blank, str_equal, str_is_blank, string_list_contains, string_views, trim, trim_str};

verus! {

// ---------------------------------------------------------------------------------------------
// The order of texts
// ---------------------------------------------------------------------------------------------

/// `a < b` for texts: the order of `str`, character by character by code point, a proper
/// prefix coming first.
pub open spec fn text_lt(a: Seq<char>, b: Seq<char>) -> bool
    decreases a.len(),
{
    if b.len() == 0 {
        false
    } else if a.len() == 0 {
        true
    } else if a[0] != b[0] {
        (a[0] as int) < (b[0] as int)
    } else {
        text_lt(a.drop_first(), b.drop_first())
    }
}

/// No text is below itself.
pub proof fn lemma_text_lt_irreflexive(a: Seq<char>)
    ensures
        !text_lt(a, a),
    decreases a.len(),
{
    if a.len() > 0 {
        lemma_text_lt_irreflexive(a.drop_first());
    }
}

/// The order of texts is transitive.
pub proof fn lemma_text_lt_transitive(a: Seq<char>, b: Seq<char>, c: Seq<char>)
    requires
        text_lt(a, b),
        text_lt(b, c),
    ensures
        text_lt(a, c),
    decreases a.len(),
{
    if a.len() > 0 && b.len() > 0 && c.len() > 0 && a[0] == b[0] && b[0] == c[0] {
        lemma_text_lt_transitive(a.drop_first(), b.drop_first(), c.drop_first());
    }
}

/// Of two distinct texts, one is below the other.
pub proof fn lemma_text_lt_total(a: Seq<char>, b: Seq<char>)
    requires
        a != b,
    ensures
        text_lt(a, b) || text_lt(b, a),
    decreases a.len(),
{
    if a.len() == 0 && b.len() == 0 {
        assert(a =~= b);
    } else if a.len() > 0 && b.len() > 0 && a[0] != b[0] {
        assert((a[0] as int) != (b[0] as int));
    } else if a.len() > 0 && b.len() > 0 && a[0] == b[0] {
        if a.drop_first() == b.drop_first() {
            assert(a =~= seq![a[0]] + a.drop_first());
            assert(b =~= seq![b[0]] + b.drop_first());
        }
        lemma_text_lt_total(a.drop_first(), b.drop_first());
    }
}

/// `a < b` for texts.
pub fn text_less(a: &str, b: &str) -> (r: bool)
    ensures
        r == text_lt(a@, b@),
{
    let ac = chars_of(a);
    let bc = chars_of(b);
    let mut k: usize = 0;
    proof {
        assert(a@.skip(0) =~= a@);
        assert(b@.skip(0) =~= b@);
    }
    while k < ac.len() && k < bc.len()
        invariant
            ac@ == a@,
            bc@ == b@,
            k <= ac@.len(),
            k <= bc@.len(),
            text_lt(a@, b@) == text_lt(a@.skip(k as int), b@.skip(k as int)),
        decreases ac@.len() - k,
    {
        let x = ac[k];
        let y = bc[k];
        proof {
            assert(a@.skip(k as int)[0] == x);
            assert(b@.skip(k as int)[0] == y);
        }
        if x != y {
            return x < y;
        }
        proof {
            assert(a@.skip(k as int).drop_first() =~= a@.skip(k + 1));
            assert(b@.skip(k as int).drop_first() =~= b@.skip(k + 1));
        }
        k = k + 1;
    }
    k < bc.len()
}

/// Texts in strictly increasing order (so no text occurs twice).
pub open spec fn sorted_texts(s: Seq<Seq<char>>) -> bool {
    forall|i: int, j: int| 0 <= i < j < s.len() ==> text_lt(#[trigger] s[i], #[trigger] s[j])
}

fn insert_sorted(out: &mut Vec<String>, x: &str)
    requires
        sorted_texts(string_views(old(out)@)),
    ensures
        sorted_texts(string_views(final(out)@)),
        forall|y: Seq<char>| #[trigger] string_views(final(out)@).contains(y) <==> (string_views(old(out)@).contains(y) || y == x@),
{
    let ghost before = string_views(out@);
    let n = out.len();
    let mut i: usize = 0;
    while i < n && text_less(out[i].as_str(), x)
        invariant
            n == out@.len(),
            i <= n,
            before == string_views(out@),
            forall|j: int| 0 <= j < i ==> text_lt(#[trigger] before[j], x@),
        decreases n - i,
    {
        i = i + 1;
    }
    if i < n && str_equal(out[i].as_str(), x) {
        assert(before[i as int] == x@);
        assert forall|y: Seq<char>| #[trigger] before.contains(y) <==> (before.contains(y) || y == x@) by {
            if y == x@ {
                assert(before[i as int] == y);
            }
        }
        return;
    }
    proof {
        if i < n {
            assert(before[i as int] != x@);
            lemma_text_lt_total(before[i as int], x@);
        }
    }
    out.insert(i, x.to_owned());
    let ghost after = string_views(out@);
    proof {
        assert(after =~= before.insert(i as int, x@));
        assert forall|p: int, q: int| 0 <= p < q < after.len() implies text_lt(#[trigger] after[p], #[trigger] after[q]) by {
            if q < i {
            } else if q == i {
                assert(after[p] == before[p]);
            } else if p < i {
                assert(after[q] == before[q - 1]);
                assert(text_lt(before[p], x@));
                lemma_text_lt_transitive(before[p], x@, before[i as int]);
                if q - 1 > i {
                    lemma_text_lt_transitive(before[p], before[i as int], before[q - 1]);
                }
            } else if p == i {
                assert(after[q] == before[q - 1]);
                if q - 1 > i {
                    lemma_text_lt_transitive(x@, before[i as int], before[q - 1]);
                }
            } else {
                assert(after[p] == before[p - 1]);
                assert(after[q] == before[q - 1]);
            }
        }
        assert forall|y: Seq<char>| #[trigger] after.contains(y) <==> (before.contains(y) || y == x@) by {
            if after.contains(y) {
                let k = choose|k: int| 0 <= k < after.len() && after[k] == y;
                if k < i {
                    assert(before[k] == y);
                } else if k > i {
                    assert(before[k - 1] == y);
                }
            }
            if before.contains(y) {
                let k = choose|k: int| 0 <= k < before.len() && before[k] == y;
                if k < i {
                    assert(after[k] == y);
                } else {
                    assert(after[k + 1] == y);
                }
            }
            if y == x@ {
                assert(after[i as int] == y);
            }
        }
    }
}

// ---------------------------------------------------------------------------------------------
// Sorted sets of texts
// ---------------------------------------------------------------------------------------------

/// Two lists that hold the same texts.
pub open spec fn same_texts(a: Seq<Seq<char>>, b: Seq<Seq<char>>) -> bool {
    forall|y: Seq<char>| #![trigger a.contains(y)] #![trigger b.contains(y)] a.contains(y) <==> b.contains(y)
}

/// The texts of a list, each once, in increasing order.
pub open spec fn sorted_set_of(values: Seq<Seq<char>>) -> Seq<Seq<char>> {
    choose|s: Seq<Seq<char>>| sorted_texts(s) && same_texts(s, values)
}

/// Two sorted lists that hold the same texts are one list.
pub proof fn lemma_sorted_unique(a: Seq<Seq<char>>, b: Seq<Seq<char>>)
    requires
        sorted_texts(a),
        sorted_texts(b),
        same_texts(a, b),
    ensures
        a == b,
    decreases a.len(),
{
    if a.len() == 0 {
        if b.len() > 0 {
            assert(b.contains(b[0]));
        }
        assert(a =~= b);
    } else {
        assert(a.contains(a[0]));
        assert(b.len() > 0);
        assert(b.contains(b[0]));
        let k = choose|k: int| 0 <= k < b.len() && b[k] == a[0];
        let m = choose|m: int| 0 <= m < a.len() && a[m] == b[0];
        if k > 0 && m > 0 {
            assert(text_lt(b[0], b[k]));
            assert(text_lt(a[0], a[m]));
            lemma_text_lt_transitive(a[0], b[0], a[0]);
            lemma_text_lt_irreflexive(a[0]);
        }
        if k > 0 && m == 0 {
            assert(text_lt(b[0], b[k]));
            lemma_text_lt_irreflexive(b[0]);
        }
        if k == 0 && m > 0 {
            assert(text_lt(a[0], a[m]));
            lemma_text_lt_irreflexive(a[0]);
        }
        assert(a[0] == b[0]);
        let a1 = a.drop_first();
        let b1 = b.drop_first();
        assert forall|y: Seq<char>| #[trigger] a1.contains(y) <==> b1.contains(y) by {
            if a1.contains(y) {
                let i = choose|i: int| 0 <= i < a1.len() && a1[i] == y;
                assert(a[i + 1] == y);
                assert(text_lt(a[0], a[i + 1]));
                assert(a.contains(y));
                assert(b.contains(y));
                let j = choose|j: int| 0 <= j < b.len() && b[j] == y;
                if j == 0 {
                    lemma_text_lt_irreflexive(a[0]);
                }
                assert(b1[j - 1] == y);
            }
            if b1.contains(y) {
                let i = choose|i: int| 0 <= i < b1.len() && b1[i] == y;
                assert(b[i + 1] == y);
                assert(text_lt(b[0], b[i + 1]));
                assert(b.contains(y));
                assert(a.contains(y));
                let j = choose|j: int| 0 <= j < a.len() && a[j] == y;
                if j == 0 {
                    lemma_text_lt_irreflexive(b[0]);
                }
                assert(a1[j - 1] == y);
            }
        }
        lemma_sorted_unique(a1, b1);
        assert(a =~= seq![a[0]] + a1);
        assert(b =~= seq![b[0]] + b1);
    }
}

/// A sorted list holding the texts of `values` is their sorted set.
pub proof fn lemma_is_sorted_set(s: Seq<Seq<char>>, values: Seq<Seq<char>>)
    requires
        sorted_texts(s),
        same_texts(s, values),
    ensures
        sorted_set_of(values) == s,
{
    let t = sorted_set_of(values);
    assert(sorted_texts(t) && same_texts(t, values));
    assert(same_texts(t, s)) by {
        assert forall|y: Seq<char>| #[trigger] t.contains(y) <==> s.contains(y) by {
            assert(t.contains(y) <==> values.contains(y));
            assert(s.contains(y) <==> values.contains(y));
        }
    }
    lemma_sorted_unique(t, s);
}

/// The texts sorted in increasing order, each once (`sort` then `dedup`).
pub fn sort_dedup(values: &Vec<String>) -> (r: Vec<String>)
    ensures
        string_views(r@) == sorted_set_of(string_views(values@)),
{
    let n = values.len();
    let mut out: Vec<String> = Vec::new();
    let mut i: usize = 0;
    while i < n
        invariant
            n == values@.len(),
            i <= n,
            sorted_texts(string_views(out@)),
            forall|y: Seq<char>| #[trigger] string_views(out@).contains(y) <==> string_views(values@).take(i as int).contains(y),
        decreases n - i,
    {
        insert_sorted(&mut out, values[i].as_str());
        proof {
            let tk = string_views(values@).take(i + 1);
            assert(tk =~= string_views(values@).take(i as int).push(values@[i as int]@));
            assert forall|y: Seq<char>| #[trigger] string_views(out@).contains(y) <==> tk.contains(y) by {
                if y == values@[i as int]@ {
                    assert(tk[i as int] == y);
                }
                if tk.contains(y) {
                    let k = choose|k: int| 0 <= k < tk.len() && tk[k] == y;
                    if k < i {
                        assert(string_views(values@).take(i as int)[k] == y);
                    }
                }
                if string_views(values@).take(i as int).contains(y) {
                    let k = choose|k: int| 0 <= k < i && string_views(values@).take(i as int)[k] == y;
                    assert(tk[k] == y);
                }
            }
        }
        i = i + 1;
    }
    proof {
        assert(string_views(values@).take(n as int) =~= string_views(values@));
        lemma_is_sorted_set(string_views(out@), string_views(values@));
    }
    out
}

// ---------------------------------------------------------------------------------------------
// First occurrences
// ---------------------------------------------------------------------------------------------

/// The texts at their first occurrence, in order, blank ones left out where `skip_blank`.
pub open spec fn first_seen(values: Seq<Seq<char>>, skip_blank: bool) -> Seq<Seq<char>>
    decreases values.len(),
{
    if values.len() == 0 {
        seq![]
    } else {
        let prev = first_seen(values.drop_last(), skip_blank);
        if (skip_blank && is_blank(values.last())) || prev.contains(values.last()) {
            prev
        } else {
            prev.push(values.last())
        }
    }
}

/// The first `n` items of a list (all of them where it is shorter).
pub open spec fn first_n(s: Seq<Seq<char>>, n: nat) -> Seq<Seq<char>> {
    if n < s.len() {
        s.take(n as int)
    } else {
        s
    }
}

/// Keeping first occurrences never lengthens a list.
pub proof fn lemma_first_seen_len(values: Seq<Seq<char>>, skip_blank: bool)
    ensures
        first_seen(values, skip_blank).len() <= values.len(),
    decreases values.len(),
{
    if values.len() > 0 {
        lemma_first_seen_len(values.drop_last(), skip_blank);
    }
}

proof fn lemma_first_seen_extends(values: Seq<Seq<char>>, skip_blank: bool, i: int)
    requires
        0 <= i <= values.len(),
    ensures
        first_seen(values.take(i), skip_blank).len() <= first_seen(values, skip_blank).len(),
        first_seen(values, skip_blank).take(first_seen(values.take(i), skip_blank).len() as int) == first_seen(
            values.take(i),
            skip_blank,
        ),
    decreases values.len() - i,
{
    let d = first_seen(values, skip_blank);
    if i == values.len() {
        assert(values.take(i) =~= values);
        assert(d.take(d.len() as int) =~= d);
    } else {
        lemma_first_seen_extends(values, skip_blank, i + 1);
        let a = first_seen(values.take(i), skip_blank);
        let b = first_seen(values.take(i + 1), skip_blank);
        assert(values.take(i + 1).drop_last() =~= values.take(i));
        assert(values.take(i + 1).last() == values[i]);
        assert(d.take(b.len() as int) == b);
        if b.len() != a.len() {
            assert(b == a.push(values[i]));
            assert(d.take(a.len() as int) =~= b.take(a.len() as int));
            assert(b.take(a.len() as int) =~= a);
        }
    }
}

/// The texts at their first occurrence, in order, up to `limit` of them, blank ones left out
/// where `skip_blank`.
pub fn first_seen_upto(values: &Vec<String>, skip_blank: bool, limit: usize) -> (r: Vec<String>)
    ensures
        string_views(r@) == first_n(first_seen(string_views(values@), skip_blank), limit as nat),
{
    let n = values.len();
    let mut out: Vec<String> = Vec::new();
    let mut i: usize = 0;
    while i < n && out.len() < limit
        invariant
            n == values@.len(),
            i <= n,
            out@.len() <= limit,
            string_views(out@) == first_seen(string_views(values@).take(i as int), skip_blank),
        decreases n - i,
    {
        let ghost prev = string_views(out@);
        proof {
            assert(string_views(values@).take(i + 1).drop_last() =~= string_views(values@).take(i as int));
            assert(string_views(values@).take(i + 1).last() == values@[i as int]@);
        }
        let blank = skip_blank && str_is_blank(values[i].as_str());
        if !blank && !string_list_contains(&out, values[i].as_str()) {
            out.push(values[i].clone());
            assert(string_views(out@) =~= prev.push(values@[i as int]@));
        }
        i = i + 1;
    }
    proof {
        let vs = string_views(values@);
        lemma_first_seen_extends(vs, skip_blank, i as int);
        let d = first_seen(vs, skip_blank);
        if i == n {
            assert(vs.take(i as int) =~= vs);
        } else {
            assert(d.take(limit as int) =~= string_views(out@));
        }
    }
    out
}

/// The texts of a list of slices, as owned strings.
fn owned_all(values: &[&str]) -> (r: Vec<String>)
    ensures
        string_views(r@) == views(values@),
{
    let n = values.len();
    let mut out: Vec<String> = Vec::new();
    let mut i: usize = 0;
    while i < n
        invariant
            n == values@.len(),
            i <= n,
            string_views(out@) == views(values@).take(i as int),
        decreases n - i,
    {
        let ghost prev = string_views(out@);
        out.push(values[i].to_owned());
        assert(string_views(out@) =~= prev.push(values@[i as int]@));
        assert(views(values@).take(i + 1) =~= views(values@).take(i as int).push(values@[i as int]@));
        i = i + 1;
    }
    assert(views(values@).take(n as int) =~= views(values@));
    out
}

/// The non-blank values, each at its first occurrence, up to `limit` of them.
pub fn unique_string_values_from_iter(values: &[&str], limit: usize) -> (r: Vec<String>)
    ensures
        string_views(r@) == first_n(first_seen(views(values@), true), limit as nat),
{
    let owned = owned_all(values);
    first_seen_upto(&owned, true, limit)
}

/// A keyword list, or the generic weekly keyword where it is empty.
pub open spec fn or_weekly_signal(s: Seq<Seq<char>>) -> Seq<Seq<char>> {
    if s.len() == 0 {
        seq!["weekly_signal"@]
    } else {
        s
    }
}

/// The non-blank keywords, each at its first occurrence, up to `limit` of them; the generic
/// weekly keyword where none is left.
pub fn unique_keywords(values: Vec<String>, limit: usize) -> (r: Vec<String>)
    ensures
        string_views(r@) == or_weekly_signal(first_n(first_seen(string_views(values@), true), limit as nat)),
{
    let mut out = first_seen_upto(&values, true, limit);
    if out.len() == 0 {
        out.push("weekly_signal".to_owned());
        assert(string_views(out@) =~= seq!["weekly_signal"@]);
    }
    out
}

/// The strings found under `field` in the events, each at its first occurrence, up to
/// `limit` of them.
pub fn unique_event_strings(events: &Vec<JsonValue>, field: &str, limit: usize) -> (r: Vec<String>)
    ensures
        string_views(r@) == first_n(first_seen(member_strings(events@, field@), false), limit as nat),
{
    let all = crate::semantic_brief::collect_member_strings(Some(events), field);
    first_seen_upto(&all, false, limit)
}

// ---------------------------------------------------------------------------------------------
// The keywords of an event
// ---------------------------------------------------------------------------------------------

/// The fields of an event that name its kind, theme, tone and bodies.
pub open spec fn fact_fields() -> Seq<Seq<char>> {
    seq![
        "theme_code"@, "tone"@, "tone_code"@, "fact_type"@, "transiting_object"@, "aspect"@,
        "natal_target"@, "candidate_type"@,
    ]
}

/// The non-blank texts, trimmed, in order.
pub open spec fn trimmed_nonblank(ts: Seq<Seq<char>>) -> Seq<Seq<char>>
    decreases ts.len(),
{
    if ts.len() == 0 {
        seq![]
    } else {
        let prev = trimmed_nonblank(ts.drop_last());
        if is_blank(ts.last()) {
            prev
        } else {
            prev.push(trim(ts.last()))
        }
    }
}

/// The keywords of an event: its non-blank codes, trimmed, each once, in increasing order.
pub open spec fn fact_keywords(v: JsonValue) -> Seq<Seq<char>> {
    sorted_set_of(trimmed_nonblank(key_texts(v, fact_fields())))
}

/// The keywords of an event: its non-blank codes, trimmed, each once, in increasing order.
pub fn period_keywords_for_fact(value: &JsonValue) -> (r: Vec<String>)
    ensures
        string_views(r@) == fact_keywords(*value),
{
    let fields = [
        "theme_code", "tone", "tone_code", "fact_type", "transiting_object", "aspect", "natal_target",
        "candidate_type",
    ];
    assert(views(fields@) =~= fact_fields());
    let texts = crate::period_validators::collect_key_texts(value, &fields);
    let n = texts.len();
    let mut raw: Vec<String> = Vec::new();
    let mut i: usize = 0;
    while i < n
        invariant
            n == texts@.len(),
            i <= n,
            string_views(raw@) == trimmed_nonblank(string_views(texts@).take(i as int)),
        decreases n - i,
    {
        proof {
            assert(string_views(texts@).take(i + 1).drop_last() =~= string_views(texts@).take(i as int));
            assert(string_views(texts@).take(i + 1).last() == texts@[i as int]@);
        }
        if !str_is_blank(texts[i].as_str()) {
            let ghost prev = string_views(raw@);
            raw.push(trim_str(texts[i].as_str()));
            assert(string_views(raw@) =~= prev.push(trim(texts@[i as int]@)));
        }
        i = i + 1;
    }
    proof {
        assert(string_views(texts@).take(n as int) =~= string_views(texts@));
    }
    sort_dedup(&raw)
}

/// The non-blank texts, in order.
pub open spec fn nonblank(ts: Seq<Seq<char>>) -> Seq<Seq<char>>
    decreases ts.len(),
{
    if ts.len() == 0 {
        seq![]
    } else if is_blank(ts.last()) {
        nonblank(ts.drop_last())
    } else {
        nonblank(ts.drop_last()).push(ts.last())
    }
}

/// The non-blank keywords, each once, in increasing order; the first fallback keyword (if
/// any) where none is left.
pub fn non_empty_keywords(values: Vec<String>, fallback: &Vec<String>) -> (r: Vec<String>)
    ensures
        string_views(r@) == if nonblank(string_views(values@)).len() == 0 {
            string_views(fallback@).take(if fallback@.len() > 0 { 1int } else { 0int })
        } else {
            sorted_set_of(nonblank(string_views(values@)))
        },
{
    let n = values.len();
    let mut kept: Vec<String> = Vec::new();
    let mut i: usize = 0;
    while i < n
        invariant
            n == values@.len(),
            i <= n,
            string_views(kept@) == nonblank(string_views(values@).take(i as int)),
        decreases n - i,
    {
        proof {
            assert(string_views(values@).take(i + 1).drop_last() =~= string_views(values@).take(i as int));
            assert(string_views(values@).take(i + 1).last() == values@[i as int]@);
        }
        if !str_is_blank(values[i].as_str()) {
            let ghost prev = string_views(kept@);
            kept.push(values[i].clone());
            assert(string_views(kept@) =~= prev.push(values@[i as int]@));
        }
        i = i + 1;
    }
    proof {
        assert(string_views(values@).take(n as int) =~= string_views(values@));
    }
    if kept.len() == 0 {
        let mut out: Vec<String> = Vec::new();
        if fallback.len() > 0 {
            out.push(fallback[0].clone());
        }
        assert(string_views(out@) =~= string_views(fallback@).take(if fallback@.len() > 0 { 1int } else { 0int }));
        return out;
    }
    sort_dedup(&kept)
}

/// The keywords of the events, event after event.
pub open spec fn events_keywords(events: Seq<JsonValue>) -> Seq<Seq<char>>
    decreases events.len(),
{
    if events.len() == 0 {
        seq![]
    } else {
        events_keywords(events.drop_last()) + fact_keywords(events.last())
    }
}

/// The keywords of the events, each at its first occurrence, up to `limit` of them; the
/// generic weekly keyword where there is none.
pub fn dominant_keywords_v2(events: &Vec<JsonValue>, limit: usize) -> (r: Vec<String>)
    ensures
        string_views(r@) == or_weekly_signal(first_n(first_seen(events_keywords(events@), true), limit as nat)),
{
    let n = events.len();
    let mut all: Vec<String> = Vec::new();
    let mut i: usize = 0;
    while i < n
        invariant
            n == events@.len(),
            i <= n,
            string_views(all@) == events_keywords(events@.take(i as int)),
        decreases n - i,
    {
        let ks = period_keywords_for_fact(&events[i]);
        let m = ks.len();
        let ghost before = string_views(all@);
        let mut j: usize = 0;
        while j < m
            invariant
                m == ks@.len(),
                j <= m,
                string_views(all@) == before + string_views(ks@).take(j as int),
            decreases m - j,
        {
            let ghost prev = string_views(all@);
            all.push(ks[j].clone());
            assert(string_views(all@) =~= prev.push(ks@[j as int]@));
            assert(string_views(ks@).take(j + 1) =~= string_views(ks@).take(j as int).push(ks@[j as int]@));
            assert(string_views(all@) =~= before + string_views(ks@).take(j + 1));
            j = j + 1;
        }
        proof {
            assert(string_views(ks@).take(m as int) =~= string_views(ks@));
            assert(events@.take(i + 1).drop_last() =~= events@.take(i as int));
            assert(events@.take(i + 1).last() == events@[i as int]);
        }
        i = i + 1;
    }
    proof {
        assert(events@.take(n as int) =~= events@);
    }
    unique_keywords(all, limit)
}

/// The themes, then the kinds, of the events (each at its first occurrence, up to `limit` of
/// each), as keywords up to `limit`; the generic weekly keyword where there is none.
pub open spec fn arc_keywords(events: Seq<JsonValue>, limit: nat) -> Seq<Seq<char>> {
    or_weekly_signal(
        first_n(
            first_seen(
                first_n(first_seen(member_strings(events, "theme_code"@), false), limit) + first_n(
                    first_seen(member_strings(events, "fact_type"@), false),
                    limit,
                ),
                true,
            ),
            limit,
        ),
    )
}

/// The themes, then the kinds, of the events (each at its first occurrence, up to `limit` of
/// each), as keywords up to `limit`.
pub fn period_arc_keywords_v2(events: &Vec<JsonValue>, limit: usize) -> (r: Vec<String>)
    ensures
        string_views(r@) == arc_keywords(events@, limit as nat),
{
    let mut values = unique_event_strings(events, "theme_code", limit);
    let kinds = unique_event_strings(events, "fact_type", limit);
    let ghost head = string_views(values@);
    let m = kinds.len();
    let mut j: usize = 0;
    while j < m
        invariant
            m == kinds@.len(),
            j <= m,
            string_views(values@) == head + string_views(kinds@).take(j as int),
        decreases m - j,
    {
        let ghost prev = string_views(values@);
        values.push(kinds[j].clone());
        assert(string_views(values@) =~= prev.push(kinds@[j as int]@));
        assert(string_views(kinds@).take(j + 1) =~= string_views(kinds@).take(j as int).push(kinds@[j as int]@));
        assert(string_views(values@) =~= head + string_views(kinds@).take(j + 1));
        j = j + 1;
    }
    assert(string_views(kinds@).take(m as int) =~= string_views(kinds@));
    unique_keywords(values, limit)
}

/// The tones of the events, each at its first occurrence, up to `limit` of them; `focused`
/// where there is none.
pub open spec fn tone_codes(events: Seq<JsonValue>, limit: nat) -> Seq<Seq<char>> {
    if first_n(first_seen(member_strings(events, "tone"@), false), limit).len() == 0 {
        seq!["focused"@]
    } else {
        first_n(first_seen(member_strings(events, "tone"@), false), limit)
    }
}

/// The tones of the events, each at its first occurrence, up to `limit`; `focused` where
/// there is none.
pub fn dominant_tone_codes_v2(events: &Vec<JsonValue>, limit: usize) -> (r: Vec<String>)
    ensures
        string_views(r@) == tone_codes(events@, limit as nat),
{
    let mut values = unique_event_strings(events, "tone", limit);
    if values.len() == 0 {
        values.push("focused".to_owned());
        assert(string_views(values@) =~= seq!["focused"@]);
    }
    values
}

} // verus!
