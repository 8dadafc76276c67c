//! The domain candidates of a seven-day reading: the evidence grouped by theme, heaviest
//! themes first.
use vstd::prelude::*;

use crate::json::{JsonValue, field_str};
use crate::keywords::{fact_keywords, first_n, first_seen, first_seen_upto, lemma_first_seen_len, or_weekly_signal, period_keywords_for_fact, unique_keywords};
use crate::period_windows::text_or;
use crate::semantic_brief::member_strings;
use crate::text::{str_equal, string_views};

verus! {

/// The theme of an evidence item (`organization` where it has none).
pub open spec fn theme_of(item: JsonValue) -> Seq<char> {
    text_or(field_str(item, "theme_code"@), "organization"@)
}

/// The themes of the evidence, each once, in the order first seen.
pub open spec fn evidence_themes(items: Seq<JsonValue>) -> Seq<Seq<char>> {
    first_seen(items.map_values(|v: JsonValue| theme_of(v)), false)
}

/// The items of a theme, in order.
pub open spec fn items_of_theme(items: Seq<JsonValue>, t: Seq<char>) -> Seq<JsonValue>
    decreases items.len(),
{
    if items.len() == 0 {
        seq![]
    } else if theme_of(items.last()) == t {
        items_of_theme(items.drop_last(), t).push(items.last())
    } else {
        items_of_theme(items.drop_last(), t)
    }
}

/// The keywords of the items, item after item.
pub open spec fn keywords_of_items(items: Seq<JsonValue>) -> Seq<Seq<char>>
    decreases items.len(),
{
    if items.len() == 0 {
        seq![]
    } else {
        keywords_of_items(items.drop_last()) + fact_keywords(items.last())
    }
}

/// The weight of a theme, scaled to integers: its share of the sections, `count / max`, at most
/// 1, is ordered as `count` capped at `max` (a limit of 0 counting as 1).
pub open spec fn capped_count(count: nat, max_sections: nat) -> nat {
    let m = if max_sections == 0 { 1 } else { max_sections };
    if count < m {
        count
    } else {
        m
    }
}

/// `order` with position `i` inserted after every position whose weight is at least its own (a
/// stable sort, heaviest first).
pub open spec fn insert_by_weight(order: Seq<int>, i: int, ws: Seq<nat>) -> Seq<int>
    decreases order.len(),
{
    if order.len() == 0 {
        seq![i]
    } else if ws[i] > ws[order.last()] {
        insert_by_weight(order.drop_last(), i, ws).push(order.last())
    } else {
        order.push(i)
    }
}

/// The first `n` positions ordered by weight, heaviest first, equal weights in their order.
pub open spec fn order_by_weight(n: nat, ws: Seq<nat>) -> Seq<int>
    decreases n,
{
    if n == 0 {
        seq![]
    } else {
        insert_by_weight(order_by_weight((n - 1) as nat, ws), n - 1, ws)
    }
}

/// The weights of the themes of the evidence.
pub open spec fn theme_weights(items: Seq<JsonValue>, max_sections: nat) -> Seq<nat> {
    let ts = evidence_themes(items);
    Seq::new(ts.len(), |i: int| capped_count(items_of_theme(items, ts[i]).len(), max_sections))
}

/// The themes of the evidence by position, heaviest first.
pub open spec fn domain_order(items: Seq<JsonValue>, max_sections: nat) -> Seq<int> {
    order_by_weight(evidence_themes(items).len(), theme_weights(items, max_sections))
}

/// A theme of the evidence: its code, how many items carry it, their keywords (each once, at
/// most eight, the weekly keyword where none) and their evidence keys (each once, at most four).
pub struct DomainCandidate {
    pub domain_code: String,
    pub count: usize,
    pub keywords: Vec<String>,
    pub evidence_keys: Vec<String>,
}

/// The candidate of the theme `t` of the evidence.
pub open spec fn domain_candidate(items: Seq<JsonValue>, t: Seq<char>, c: DomainCandidate) -> bool {
    let of = items_of_theme(items, t);
    &&& c.domain_code@ == t
    &&& c.count == of.len()
    &&& string_views(c.keywords@) == or_weekly_signal(first_n(first_seen(keywords_of_items(of), true), 8))
    &&& string_views(c.evidence_keys@) == first_n(first_seen(member_strings(of, "evidence_key"@), true), 4)
}

proof fn lemma_order_len(n: nat, ws: Seq<nat>)
    ensures
        order_by_weight(n, ws).len() == n,
        forall|k: int| 0 <= k < n ==> 0 <= #[trigger] order_by_weight(n, ws)[k] < n,
    decreases n,
{
    if n > 0 {
        lemma_order_len((n - 1) as nat, ws);
        lemma_insert_len(order_by_weight((n - 1) as nat, ws), n - 1, ws, n as int);
    }
}

proof fn lemma_insert_len(order: Seq<int>, i: int, ws: Seq<nat>, bound: int)
    requires
        0 <= i < bound,
        forall|k: int| 0 <= k < order.len() ==> 0 <= #[trigger] order[k] < bound,
    ensures
        insert_by_weight(order, i, ws).len() == order.len() + 1,
        forall|k: int| 0 <= k < order.len() + 1 ==> 0 <= #[trigger] insert_by_weight(order, i, ws)[k] < bound,
    decreases order.len(),
{
    if order.len() > 0 && ws[i] > ws[order.last()] {
        lemma_insert_len(order.drop_last(), i, ws, bound);
        let r = insert_by_weight(order.drop_last(), i, ws);
        assert forall|k: int| 0 <= k < order.len() + 1 implies 0 <= #[trigger] r.push(order.last())[k] < bound by {
            if k < r.len() {
                assert(r.push(order.last())[k] == r[k]);
            }
        }
    } else if order.len() > 0 {
        assert forall|k: int| 0 <= k < order.len() + 1 implies 0 <= #[trigger] order.push(i)[k] < bound by {
            if k < order.len() {
                assert(order.push(i)[k] == order[k]);
            }
        }
    }
}

/// Inserts position `i` into an order by weight (see `insert_by_weight`).
fn insert_position(order: &mut Vec<usize>, i: usize, ws: &Vec<usize>)
    requires
        i < ws@.len(),
        forall|k: int| 0 <= k < old(order)@.len() ==> #[trigger] old(order)@[k] < ws@.len(),
    ensures
        final(order)@.map_values(|x: usize| x as int) == insert_by_weight(
            old(order)@.map_values(|x: usize| x as int),
            i as int,
            ws@.map_values(|x: usize| x as nat),
        ),
{
    let ghost w = ws@.map_values(|x: usize| x as nat);
    let ghost orig = order@.map_values(|x: usize| x as int);
    let mut k: usize = order.len();
    proof {
        assert(orig.take(k as int) =~= orig);
        assert(orig.skip(k as int) =~= Seq::<int>::empty());
    }
    while k > 0
        invariant
            k <= order@.len(),
            order@.map_values(|x: usize| x as int) == orig,
            w == ws@.map_values(|x: usize| x as nat),
            i < ws@.len(),
            forall|q: int| 0 <= q < order@.len() ==> #[trigger] order@[q] < ws@.len(),
            insert_by_weight(orig, i as int, w) == insert_by_weight(orig.take(k as int), i as int, w) + orig.skip(k as int),
        ensures
            k <= order@.len(),
            order@.map_values(|x: usize| x as int) == orig,
            insert_by_weight(orig, i as int, w) == insert_by_weight(orig.take(k as int), i as int, w) + orig.skip(k as int),
            k > 0 ==> !(w[i as int] > w[orig[k - 1]]),
        decreases k,
    {
        let prev = order[k - 1];
        if !(ws[i] > ws[prev]) {
            proof {
                assert(orig[k - 1] == prev as int);
            }
            break;
        }
        proof {
            let t = orig.take(k as int);
            assert(orig[k - 1] == prev as int);
            assert(t.last() == orig[k - 1]);
            assert(t.drop_last() =~= orig.take(k - 1));
            assert(insert_by_weight(t, i as int, w) == insert_by_weight(orig.take(k - 1), i as int, w).push(orig[k - 1]));
            assert(orig.skip(k - 1) =~= seq![orig[k - 1]] + orig.skip(k as int));
            assert(insert_by_weight(orig.take(k - 1), i as int, w).push(orig[k - 1]) + orig.skip(k as int) =~= insert_by_weight(
                orig.take(k - 1),
                i as int,
                w,
            ) + orig.skip(k - 1));
        }
        k = k - 1;
    }
    proof {
        let t = orig.take(k as int);
        if k > 0 {
            assert(t.last() == orig[k - 1]);
            assert(insert_by_weight(t, i as int, w) == t.push(i as int));
        } else {
            assert(insert_by_weight(t, i as int, w) == seq![i as int]);
            assert(t.push(i as int) =~= seq![i as int]);
        }
    }
    order.insert(k, i);
    proof {
        assert(order@.map_values(|x: usize| x as int) =~= orig.take(k as int).push(i as int) + orig.skip(k as int));
    }
}

fn copy_strings(v: &Vec<String>) -> (r: Vec<String>)
    ensures
        string_views(r@) == string_views(v@),
{
    let mut out: Vec<String> = Vec::new();
    let n = v.len();
    let mut i: usize = 0;
    while i < n
        invariant
            n == v@.len(),
            i <= n,
            string_views(out@) == string_views(v@).take(i as int),
        decreases n - i,
    {
        let ghost before = string_views(out@);
        out.push(v[i].clone());
        proof {
            assert(string_views(out@) =~= before.push(v@[i as int]@));
            assert(string_views(v@).take(i + 1) =~= string_views(v@).take(i as int).push(v@[i as int]@));
        }
        i = i + 1;
    }
    assert(string_views(v@).take(n as int) =~= string_views(v@));
    out
}

fn copy_candidate(c: &DomainCandidate) -> (r: DomainCandidate)
    ensures
        r.domain_code@ == c.domain_code@,
        r.count == c.count,
        string_views(r.keywords@) == string_views(c.keywords@),
        string_views(r.evidence_keys@) == string_views(c.evidence_keys@),
{
    DomainCandidate {
        domain_code: c.domain_code.clone(),
        count: c.count,
        keywords: copy_strings(&c.keywords),
        evidence_keys: copy_strings(&c.evidence_keys),
    }
}

/// The candidate of one theme of the evidence.
fn candidate_of_theme(evidence: &Vec<JsonValue>, t: &str) -> (r: DomainCandidate)
    ensures
        domain_candidate(evidence@, t@, r),
{
    let n = evidence.len();
    let mut keywords: Vec<String> = Vec::new();
    let mut keys: Vec<String> = Vec::new();
    let mut count: usize = 0;
    let mut i: usize = 0;
    proof {
        assert(evidence@.take(0) =~= Seq::<JsonValue>::empty());
        assert(string_views(keywords@) =~= Seq::<Seq<char>>::empty());
        assert(string_views(keys@) =~= Seq::<Seq<char>>::empty());
    }
    while i < n
        invariant
            n == evidence@.len(),
            i <= n,
            count as nat == items_of_theme(evidence@.take(i as int), t@).len(),
            count <= i,
            string_views(keywords@) == keywords_of_items(items_of_theme(evidence@.take(i as int), t@)),
            string_views(keys@) == member_strings(items_of_theme(evidence@.take(i as int), t@), "evidence_key"@),
        decreases n - i,
    {
        let ghost pre = items_of_theme(evidence@.take(i as int), t@);
        proof {
            assert(evidence@.take(i + 1).drop_last() =~= evidence@.take(i as int));
            assert(evidence@.take(i + 1).last() == evidence@[i as int]);
        }
        let item = &evidence[i];
        let theme = match item.field_str("theme_code") {
            Some(c) => c,
            None => "organization",
        };
        if str_equal(theme, t) {
            proof {
                assert(items_of_theme(evidence@.take(i + 1), t@) == pre.push(*item));
                assert(pre.push(*item).drop_last() =~= pre);
            }
            let ghost kw0 = string_views(keywords@);
            let mut more = period_keywords_for_fact(item);
            let ghost kw1 = string_views(more@);
            keywords.append(&mut more);
            assert(string_views(keywords@) =~= kw0 + kw1);
            match item.field_str("evidence_key") {
                Some(k) => {
                    let ghost k0 = string_views(keys@);
                    keys.push(k.to_owned());
                    assert(string_views(keys@) =~= k0.push(k@));
                },
                None => {},
            }
            count = count + 1;
        } else {
            assert(items_of_theme(evidence@.take(i + 1), t@) == pre);
        }
        i = i + 1;
    }
    proof {
        assert(evidence@.take(n as int) =~= evidence@);
    }
    DomainCandidate {
        domain_code: t.to_owned(),
        count,
        keywords: unique_keywords(keywords, 8),
        evidence_keys: first_seen_upto(&keys, true, 4),
    }
}

/// The domain candidates of the evidence (see `domain_candidate`): one per theme, heaviest
/// first (a theme weighs its share of the sections, `count / max_sections`, at most 1; themes of
/// equal weight keep the order they were first seen in), at most `max_sections` of them.
pub fn build_domain_candidates_v2(evidence: &Vec<JsonValue>, max_sections: usize) -> (r: Vec<DomainCandidate>)
    ensures
        r@.len() == if max_sections < evidence_themes(evidence@).len() {
            max_sections as nat
        } else {
            evidence_themes(evidence@).len()
        },
        forall|k: int|
            0 <= k < r@.len() ==> domain_candidate(
                evidence@,
                evidence_themes(evidence@)[domain_order(evidence@, max_sections as nat)[k]],
                #[trigger] r@[k],
            ),
{
    let n = evidence.len();
    let mut all: Vec<String> = Vec::new();
    let mut i: usize = 0;
    while i < n
        invariant
            n == evidence@.len(),
            i <= n,
            string_views(all@) == evidence@.take(i as int).map_values(|v: JsonValue| theme_of(v)),
        decreases n - i,
    {
        let theme = match evidence[i].field_str("theme_code") {
            Some(c) => c,
            None => "organization",
        };
        let ghost before = string_views(all@);
        all.push(theme.to_owned());
        proof {
            assert(string_views(all@) =~= before.push(theme_of(evidence@[i as int])));
            assert(evidence@.take(i + 1).map_values(|v: JsonValue| theme_of(v)) =~= evidence@.take(i as int).map_values(
                |v: JsonValue| theme_of(v),
            ).push(theme_of(evidence@[i as int])));
        }
        i = i + 1;
    }
    proof {
        assert(evidence@.take(n as int) =~= evidence@);
        lemma_first_seen_len(string_views(all@), false);
    }
    let themes = first_seen_upto(&all, false, n);
    let ghost ts = evidence_themes(evidence@);
    assert(string_views(themes@) == ts);
    let m = themes.len();
    let mut cands: Vec<DomainCandidate> = Vec::new();
    let mut weights: Vec<usize> = Vec::new();
    let cap: usize = if max_sections == 0 {
        1
    } else {
        max_sections
    };
    let mut j: usize = 0;
    while j < m
        invariant
            m == themes@.len(),
            string_views(themes@) == ts,
            ts == evidence_themes(evidence@),
            cap as nat == (if max_sections == 0 { 1nat } else { max_sections as nat }),
            j <= m,
            cands@.len() == j,
            weights@.len() == j,
            forall|q: int| 0 <= q < j ==> domain_candidate(evidence@, ts[q], #[trigger] cands@[q]),
            forall|q: int| 0 <= q < j ==> #[trigger] weights@[q] as nat == theme_weights(evidence@, max_sections as nat)[q],
        decreases m - j,
    {
        let c = candidate_of_theme(evidence, themes[j].as_str());
        assert(themes@[j as int]@ == ts[j as int]);
        let w = if c.count < cap {
            c.count
        } else {
            cap
        };
        weights.push(w);
        cands.push(c);
        j = j + 1;
    }
    let ghost ws = theme_weights(evidence@, max_sections as nat);
    assert(weights@.map_values(|x: usize| x as nat) =~= ws);
    let mut order: Vec<usize> = Vec::new();
    let mut k: usize = 0;
    proof {
        assert(order@.map_values(|x: usize| x as int) =~= order_by_weight(0, ws));
    }
    while k < m
        invariant
            m == weights@.len(),
            weights@.map_values(|x: usize| x as nat) == ws,
            k <= m,
            order@.map_values(|x: usize| x as int) == order_by_weight(k as nat, ws),
            forall|q: int| 0 <= q < order@.len() ==> #[trigger] order@[q] < k,
            order@.len() == k,
        decreases m - k,
    {
        proof {
            lemma_order_len(k as nat, ws);
        }
        insert_position(&mut order, k, &weights);
        proof {
            lemma_order_len((k + 1) as nat, ws);
            assert forall|q: int| 0 <= q < order@.len() implies #[trigger] order@[q] < k + 1 by {
                assert(order@.map_values(|x: usize| x as int)[q] == order@[q] as int);
            }
        }
        k = k + 1;
    }
    let limit = if max_sections < m {
        max_sections
    } else {
        m
    };
    let ghost dorder = domain_order(evidence@, max_sections as nat);
    assert(dorder == order_by_weight(m as nat, ws));
    let mut out: Vec<DomainCandidate> = Vec::new();
    let mut p: usize = 0;
    while p < limit
        invariant
            limit <= m,
            m == order@.len(),
            m == cands@.len(),
            order@.map_values(|x: usize| x as int) == dorder,
            forall|z: int| 0 <= z < order@.len() ==> #[trigger] order@[z] < m,
            forall|z: int| 0 <= z < m ==> domain_candidate(evidence@, ts[z], #[trigger] cands@[z]),
            p <= limit,
            out@.len() == p,
            forall|z: int| 0 <= z < p ==> domain_candidate(evidence@, ts[dorder[z]], #[trigger] out@[z]),
        decreases limit - p,
    {
        let idx = order[p];
        proof {
            assert(dorder[p as int] == idx as int);
        }
        out.push(copy_candidate(&cands[idx]));
        p = p + 1;
    }
    out
}

} // verus!
