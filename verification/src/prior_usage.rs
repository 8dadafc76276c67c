//! The semantic keys that earlier chapters of a reading already used, so that later chapters
//! avoid repeating them.
use vstd::prelude::*;

use crate::text::{str_equal, string_views};

verus! {

/// The family of a piece of interpretive evidence, as far as the usage record tells them apart.
#[derive(Debug, Clone, Copy, PartialEq, Eq, Structural)]
pub enum EvidenceFamily {
    Aspect,
    Dignity,
    Other,
}

/// A piece of interpretive evidence: its semantic key, its kind code and its family.
#[derive(Debug)]
pub struct InterpretiveEvidence {
    pub semantic_fact_key: String,
    pub kind_code: String,
    pub family: EvidenceFamily,
}

/// The evidence that one chapter cited, by role.
#[derive(Debug)]
pub struct ChapterEvidencePack {
    pub core: Vec<InterpretiveEvidence>,
    pub supporting: Vec<InterpretiveEvidence>,
    pub nuance: Vec<InterpretiveEvidence>,
}

/// How many earlier chapters cited a key as supporting evidence.
#[derive(Debug)]
pub struct SupportingCount {
    pub key: String,
    pub chapters: u8,
}

/// The keys that the chapters recorded so far used.
#[derive(Debug)]
pub struct PriorChapterUsage {
    pub core_keys: Vec<String>,
    aspect_keys: Vec<String>,
    dignity_keys: Vec<String>,
    supporting_semantic_chapter_count: Vec<SupportingCount>,
}

/// Evidence about an aspect.
pub open spec fn is_aspect_evidence(ev: InterpretiveEvidence) -> bool {
    ev.kind_code@ == "aspect"@ || ev.family == EvidenceFamily::Aspect
}

/// Evidence about a dignity.
pub open spec fn is_dignity_evidence(ev: InterpretiveEvidence) -> bool {
    ev.kind_code@ == "essential_dignity"@ || ev.kind_code@ == "accidental_dignity"@ || ev.family
        == EvidenceFamily::Dignity
}

/// The semantic keys of the evidence, in order.
pub open spec fn keys_of(evs: Seq<InterpretiveEvidence>) -> Seq<Seq<char>> {
    evs.map_values(|ev: InterpretiveEvidence| ev.semantic_fact_key@)
}

/// The semantic keys of the aspect evidence, in order.
pub open spec fn aspect_keys_of(evs: Seq<InterpretiveEvidence>) -> Seq<Seq<char>>
    decreases evs.len(),
{
    if evs.len() == 0 {
        seq![]
    } else if is_aspect_evidence(evs.last()) {
        aspect_keys_of(evs.drop_last()).push(evs.last().semantic_fact_key@)
    } else {
        aspect_keys_of(evs.drop_last())
    }
}

/// The semantic keys of the dignity evidence, in order.
pub open spec fn dignity_keys_of(evs: Seq<InterpretiveEvidence>) -> Seq<Seq<char>>
    decreases evs.len(),
{
    if evs.len() == 0 {
        seq![]
    } else if is_dignity_evidence(evs.last()) {
        dignity_keys_of(evs.drop_last()).push(evs.last().semantic_fact_key@)
    } else {
        dignity_keys_of(evs.drop_last())
    }
}

/// `s` followed by each item of `items` that is not yet in it, in order.
pub open spec fn append_new(s: Seq<Seq<char>>, items: Seq<Seq<char>>) -> Seq<Seq<char>>
    decreases items.len(),
{
    if items.len() == 0 {
        s
    } else {
        let prev = append_new(s, items.drop_last());
        if prev.contains(items.last()) {
            prev
        } else {
            prev.push(items.last())
        }
    }
}

/// No item occurs twice.
pub open spec fn no_dups(s: Seq<Seq<char>>) -> bool {
    forall|i: int, j: int| 0 <= i < j < s.len() ==> s[i] != s[j]
}

proof fn lemma_append_new(s: Seq<Seq<char>>, items: Seq<Seq<char>>)
    requires
        no_dups(s),
    ensures
        no_dups(append_new(s, items)),
        forall|k: Seq<char>| #[trigger] append_new(s, items).contains(k) <==> (s.contains(k) || items.contains(k)),
        append_new(s, items).take(s.len() as int) == s,
        append_new(s, items).len() >= s.len(),
    decreases items.len(),
{
    if items.len() > 0 {
        lemma_append_new(s, items.drop_last());
        let prev = append_new(s, items.drop_last());
        assert forall|k: Seq<char>| #[trigger] append_new(s, items).contains(k) <==> (s.contains(k)
            || items.contains(k)) by {
            if items.contains(k) && !items.drop_last().contains(k) {
                let j = choose|j: int| 0 <= j < items.len() && items[j] == k;
                if j < items.len() - 1 {
                    assert(items.drop_last()[j] == k);
                }
            }
            if items.drop_last().contains(k) {
                let j = choose|j: int| 0 <= j < items.drop_last().len() && items.drop_last()[j] == k;
                assert(items[j] == k);
            }
            if !prev.contains(items.last()) {
                if prev.push(items.last()).contains(k) && k != items.last() {
                    let j = choose|j: int| 0 <= j < prev.push(items.last()).len() && prev.push(items.last())[j] == k;
                    assert(prev[j] == k);
                }
                if prev.contains(k) {
                    let j = choose|j: int| 0 <= j < prev.len() && prev[j] == k;
                    assert(prev.push(items.last())[j] == k);
                }
                if k == items.last() {
                    assert(prev.push(items.last())[prev.len() as int] == k);
                }
            }
            if k == items.last() {
                assert(items[items.len() - 1] == k);
            }
        }
        if !prev.contains(items.last()) {
            assert(prev.push(items.last()).take(s.len() as int) =~= prev.take(s.len() as int));
        }
    }
}

/// The number of earlier chapters that cited `key` as supporting evidence.
pub open spec fn count_of(entries: Seq<SupportingCount>, key: Seq<char>) -> nat
    decreases entries.len(),
{
    if entries.len() == 0 {
        0
    } else if entries.last().key@ == key {
        entries.last().chapters as nat
    } else {
        count_of(entries.drop_last(), key)
    }
}

/// No key is counted twice.
pub open spec fn distinct_counts(entries: Seq<SupportingCount>) -> bool {
    forall|i: int, j: int| 0 <= i < j < entries.len() ==> (#[trigger] entries[i]).key@ != (#[trigger] entries[j]).key@
}

proof fn lemma_count_at(entries: Seq<SupportingCount>, i: int)
    requires
        distinct_counts(entries),
        0 <= i < entries.len(),
    ensures
        count_of(entries, entries[i].key@) == entries[i].chapters as nat,
    decreases entries.len(),
{
    if i < entries.len() - 1 {
        assert(entries.last().key@ != entries[i].key@);
        assert(entries.drop_last()[i] == entries[i]);
        lemma_count_at(entries.drop_last(), i);
    }
}

proof fn lemma_count_absent(entries: Seq<SupportingCount>, key: Seq<char>)
    requires
        forall|i: int| 0 <= i < entries.len() ==> (#[trigger] entries[i]).key@ != key,
    ensures
        count_of(entries, key) == 0,
    decreases entries.len(),
{
    if entries.len() > 0 {
        assert(entries.last() == entries[entries.len() - 1]);
        assert forall|i: int| 0 <= i < entries.drop_last().len() implies (
        #[trigger] entries.drop_last()[i]).key@ != key by {
            assert(entries.drop_last()[i] == entries[i]);
        }
        lemma_count_absent(entries.drop_last(), key);
    }
}

proof fn lemma_count_update_other(entries: Seq<SupportingCount>, i: int, n: u8, key: Seq<char>)
    requires
        0 <= i < entries.len(),
        entries[i].key@ != key,
    ensures
        count_of(entries.update(i, SupportingCount { key: entries[i].key, chapters: n }), key)
            == count_of(entries, key),
    decreases entries.len(),
{
    let updated = entries.update(i, SupportingCount { key: entries[i].key, chapters: n });
    if i == entries.len() - 1 {
        assert(updated.drop_last() =~= entries.drop_last());
    } else {
        assert(updated.last() == entries.last());
        assert(updated.drop_last() =~= entries.drop_last().update(
            i,
            SupportingCount { key: entries[i].key, chapters: n },
        ));
        lemma_count_update_other(entries.drop_last(), i, n, key);
    }
}

/// Whether the list holds the key.
fn list_contains(list: &Vec<String>, key: &str) -> (r: bool)
    ensures
        r == string_views(list@).contains(key@),
{
    let n = list.len();
    let mut i: usize = 0;
    while i < n
        invariant
            n == list@.len(),
            i <= n,
            forall|j: int| 0 <= j < i ==> string_views(list@)[j] != key@,
        decreases n - i,
    {
        if str_equal(list[i].as_str(), key) {
            assert(string_views(list@)[i as int] == key@);
            return true;
        }
        i = i + 1;
    }
    false
}

/// Adds the key where the list does not hold it yet.
fn insert_new(list: &mut Vec<String>, key: &str)
    ensures
        string_views(final(list)@) == append_new(string_views(old(list)@), seq![key@]),
{
    proof {
        assert(seq![key@].drop_last() =~= Seq::<Seq<char>>::empty());
        assert(append_new(string_views(old(list)@), Seq::<Seq<char>>::empty()) == string_views(old(list)@));
    }
    if !list_contains(list, key) {
        list.push(key.to_owned());
        assert(string_views(list@) =~= string_views(old(list)@).push(key@));
    }
}

/// Adds, in order, each item that the list does not hold yet.
fn extend_new(list: &mut Vec<String>, items: &Vec<String>)
    ensures
        string_views(final(list)@) == append_new(string_views(old(list)@), string_views(items@)),
{
    let n = items.len();
    let mut i: usize = 0;
    proof {
        assert(string_views(items@).take(0) =~= Seq::<Seq<char>>::empty());
    }
    while i < n
        invariant
            n == items@.len(),
            i <= n,
            string_views(list@) == append_new(string_views(old(list)@), string_views(items@).take(i as int)),
        decreases n - i,
    {
        proof {
            lemma_append_new_step(string_views(old(list)@), string_views(items@).take(i as int), items@[i as int]@);
            assert(string_views(items@).take(i as int).push(items@[i as int]@) =~= string_views(items@).take(i + 1));
        }
        insert_new(list, items[i].as_str());
        i = i + 1;
    }
    proof {
        assert(string_views(items@).take(n as int) =~= string_views(items@));
    }
}

proof fn lemma_append_new_step(s: Seq<Seq<char>>, items: Seq<Seq<char>>, k: Seq<char>)
    ensures
        append_new(append_new(s, items), seq![k]) == append_new(s, items.push(k)),
{
    assert(items.push(k).drop_last() =~= items);
    assert(seq![k].drop_last() =~= Seq::<Seq<char>>::empty());
    assert(append_new(append_new(s, items), Seq::<Seq<char>>::empty()) == append_new(s, items));
}

proof fn lemma_push_contains(s: Seq<Seq<char>>, x: Seq<char>)
    ensures
        forall|k: Seq<char>| #[trigger] s.push(x).contains(k) <==> (s.contains(k) || k == x),
{
    assert forall|k: Seq<char>| #[trigger] s.push(x).contains(k) <==> (s.contains(k) || k == x) by {
        if s.push(x).contains(k) && k != x {
            let t = choose|t: int| 0 <= t < s.push(x).len() && s.push(x)[t] == k;
            assert(s[t] == k);
        }
        if s.contains(k) {
            let t = choose|t: int| 0 <= t < s.len() && s[t] == k;
            assert(s.push(x)[t] == k);
        }
        if k == x {
            assert(s.push(x)[s.len() as int] == k);
        }
    }
}

proof fn lemma_aspect_keys_concat(a: Seq<InterpretiveEvidence>, b: Seq<InterpretiveEvidence>)
    ensures
        aspect_keys_of(a + b) == aspect_keys_of(a) + aspect_keys_of(b),
    decreases b.len(),
{
    if b.len() == 0 {
        assert(a + b =~= a);
    } else {
        assert((a + b).drop_last() =~= a + b.drop_last());
        assert((a + b).last() == b.last());
        lemma_aspect_keys_concat(a, b.drop_last());
    }
}

proof fn lemma_dignity_keys_concat(a: Seq<InterpretiveEvidence>, b: Seq<InterpretiveEvidence>)
    ensures
        dignity_keys_of(a + b) == dignity_keys_of(a) + dignity_keys_of(b),
    decreases b.len(),
{
    if b.len() == 0 {
        assert(a + b =~= a);
    } else {
        assert((a + b).drop_last() =~= a + b.drop_last());
        assert((a + b).last() == b.last());
        lemma_dignity_keys_concat(a, b.drop_last());
    }
}

proof fn lemma_append_new_concat(s: Seq<Seq<char>>, x: Seq<Seq<char>>, y: Seq<Seq<char>>)
    ensures
        append_new(append_new(s, x), y) == append_new(s, x + y),
    decreases y.len(),
{
    if y.len() == 0 {
        assert(x + y =~= x);
    } else {
        assert((x + y).drop_last() =~= x + y.drop_last());
        assert((x + y).last() == y.last());
        lemma_append_new_concat(s, x, y.drop_last());
    }
}

impl PriorChapterUsage {
    /// The core keys of every chapter recorded, in order.
    pub closed spec fn core_key_list(&self) -> Seq<Seq<char>> {
        string_views(self.core_keys@)
    }

    /// The aspect keys recorded, in the order first seen.
    pub closed spec fn aspect_key_list(&self) -> Seq<Seq<char>> {
        string_views(self.aspect_keys@)
    }

    /// The dignity keys recorded, in the order first seen.
    pub closed spec fn dignity_key_list(&self) -> Seq<Seq<char>> {
        string_views(self.dignity_keys@)
    }

    /// The number of earlier chapters that cited the key as supporting evidence.
    pub closed spec fn supporting_count(&self, key: Seq<char>) -> nat {
        count_of(self.supporting_semantic_chapter_count@, key)
    }

    /// The keys a planner should avoid: the core keys, then the aspect and dignity keys not
    /// listed yet, each once.
    pub open spec fn planner_keys(&self) -> Seq<Seq<char>> {
        append_new(append_new(append_new(seq![], self.core_key_list()), self.aspect_key_list()), self.dignity_key_list())
    }

    /// The record's internal consistency: no key twice in a set, no key counted twice.
    pub closed spec fn wf(&self) -> bool {
        &&& no_dups(string_views(self.aspect_keys@))
        &&& no_dups(string_views(self.dignity_keys@))
        &&& distinct_counts(self.supporting_semantic_chapter_count@)
    }

    /// An empty record.
    pub fn new() -> (r: Self)
        ensures
            r.wf(),
            r.core_key_list().len() == 0,
            r.aspect_key_list().len() == 0,
            r.dignity_key_list().len() == 0,
            forall|k: Seq<char>| r.supporting_count(k) == 0,
    {
        let r = PriorChapterUsage {
            core_keys: Vec::new(),
            aspect_keys: Vec::new(),
            dignity_keys: Vec::new(),
            supporting_semantic_chapter_count: Vec::new(),
        };
        proof {
            assert(string_views(r.aspect_keys@) =~= Seq::<Seq<char>>::empty());
            assert(string_views(r.dignity_keys@) =~= Seq::<Seq<char>>::empty());
        }
        r
    }

    fn record_sets(&mut self, evs: &Vec<InterpretiveEvidence>)
        requires
            old(self).wf(),
        ensures
            final(self).wf(),
            final(self).core_keys == old(self).core_keys,
            final(self).supporting_semantic_chapter_count == old(self).supporting_semantic_chapter_count,
            final(self).aspect_key_list() == append_new(old(self).aspect_key_list(), aspect_keys_of(evs@)),
            final(self).dignity_key_list() == append_new(old(self).dignity_key_list(), dignity_keys_of(evs@)),
    {
        let n = evs.len();
        let mut i: usize = 0;
        while i < n
            invariant
                n == evs@.len(),
                i <= n,
                self.wf(),
                self.core_keys == old(self).core_keys,
                self.supporting_semantic_chapter_count == old(self).supporting_semantic_chapter_count,
                self.aspect_key_list() == append_new(old(self).aspect_key_list(), aspect_keys_of(evs@.take(i as int))),
                self.dignity_key_list() == append_new(old(self).dignity_key_list(), dignity_keys_of(evs@.take(i as int))),
            decreases n - i,
        {
            let ev = &evs[i];
            proof {
                assert(evs@.take(i + 1).drop_last() =~= evs@.take(i as int));
                assert(evs@.take(i + 1).last() == evs@[i as int]);
            }
            let is_aspect = str_equal(ev.kind_code.as_str(), "aspect") || ev.family == EvidenceFamily::Aspect;
            if is_aspect {
                proof {
                    lemma_append_new_step(old(self).aspect_key_list(), aspect_keys_of(evs@.take(i as int)), ev.semantic_fact_key@);
                    lemma_append_new(string_views(self.aspect_keys@), seq![ev.semantic_fact_key@]);
                }
                insert_new(&mut self.aspect_keys, ev.semantic_fact_key.as_str());
            }
            let is_dignity = str_equal(ev.kind_code.as_str(), "essential_dignity") || str_equal(
                ev.kind_code.as_str(),
                "accidental_dignity",
            ) || ev.family == EvidenceFamily::Dignity;
            if is_dignity {
                proof {
                    lemma_append_new_step(old(self).dignity_key_list(), dignity_keys_of(evs@.take(i as int)), ev.semantic_fact_key@);
                    lemma_append_new(string_views(self.dignity_keys@), seq![ev.semantic_fact_key@]);
                }
                insert_new(&mut self.dignity_keys, ev.semantic_fact_key.as_str());
            }
            i = i + 1;
        }
        proof {
            assert(evs@.take(n as int) =~= evs@);
        }
    }

    /// Adds one chapter to the count of a key.
    fn bump_supporting(&mut self, key: &str)
        requires
            old(self).wf(),
            old(self).supporting_count(key@) < 255,
        ensures
            final(self).wf(),
            final(self).core_keys == old(self).core_keys,
            final(self).aspect_keys == old(self).aspect_keys,
            final(self).dignity_keys == old(self).dignity_keys,
            final(self).supporting_count(key@) == old(self).supporting_count(key@) + 1,
            forall|k: Seq<char>| k != key@ ==> final(self).supporting_count(k) == old(self).supporting_count(k),
    {
        let ghost before = self.supporting_semantic_chapter_count@;
        let n = self.supporting_semantic_chapter_count.len();
        let mut i: usize = 0;
        while i < n
            invariant
                n == self.supporting_semantic_chapter_count@.len(),
                self.supporting_semantic_chapter_count@ == before,
                before == old(self).supporting_semantic_chapter_count@,
                self.core_keys == old(self).core_keys,
                self.aspect_keys == old(self).aspect_keys,
                self.dignity_keys == old(self).dignity_keys,
                self.wf(),
                count_of(before, key@) < 255,
                i <= n,
                forall|j: int| 0 <= j < i ==> (#[trigger] before[j]).key@ != key@,
            decreases n - i,
        {
            if str_equal(self.supporting_semantic_chapter_count[i].key.as_str(), key) {
                proof {
                    lemma_count_at(before, i as int);
                }
                let name = self.supporting_semantic_chapter_count[i].key.clone();
                let c = self.supporting_semantic_chapter_count[i].chapters;
                self.supporting_semantic_chapter_count.set(i, SupportingCount { key: name, chapters: c + 1 });
                proof {
                    let after = self.supporting_semantic_chapter_count@;
                    assert(before[i as int].key@ == key@);
                    assert(after == before.update(i as int, SupportingCount { key: before[i as int].key, chapters: (c + 1) as u8 }));
                    assert(distinct_counts(after)) by {
                        assert forall|a: int, b: int| 0 <= a < b < after.len() implies (
                        #[trigger] after[a]).key@ != (#[trigger] after[b]).key@ by {
                            assert(before[a].key@ != before[b].key@);
                        }
                    }
                    lemma_count_at(after, i as int);
                    assert(count_of(after, key@) == c + 1);
                    assert forall|k: Seq<char>| k != key@ implies count_of(after, k) == count_of(before, k) by {
                        lemma_count_update_other(before, i as int, (c + 1) as u8, k);
                    }
                }
                return;
            }
            i = i + 1;
        }
        proof {
            lemma_count_absent(before, key@);
        }
        self.supporting_semantic_chapter_count.push(SupportingCount { key: key.to_owned(), chapters: 1 });
        proof {
            let after = self.supporting_semantic_chapter_count@;
            assert(after.drop_last() =~= before);
            assert(distinct_counts(after)) by {
                assert forall|a: int, b: int| 0 <= a < b < after.len() implies (
                #[trigger] after[a]).key@ != (#[trigger] after[b]).key@ by {
                    if b < before.len() {
                        assert(before[a].key@ != before[b].key@);
                    } else {
                        assert(after[a] == before[a]);
                    }
                }
            }
        }
    }

    /// The number of earlier chapters that cited the key as supporting evidence (0 for a key
    /// never cited).
    pub fn supporting_semantic_chapters_used(&self, semantic_key: &str) -> (r: u8)
        requires
            self.wf(),
        ensures
            r as nat == self.supporting_count(semantic_key@),
    {
        let n = self.supporting_semantic_chapter_count.len();
        let mut i: usize = 0;
        while i < n
            invariant
                n == self.supporting_semantic_chapter_count@.len(),
                self.wf(),
                i <= n,
                forall|j: int| 0 <= j < i ==> (#[trigger] self.supporting_semantic_chapter_count@[j]).key@ != semantic_key@,
            decreases n - i,
        {
            if str_equal(self.supporting_semantic_chapter_count[i].key.as_str(), semantic_key) {
                proof {
                    lemma_count_at(self.supporting_semantic_chapter_count@, i as int);
                }
                return self.supporting_semantic_chapter_count[i].chapters;
            }
            i = i + 1;
        }
        proof {
            lemma_count_absent(self.supporting_semantic_chapter_count@, semantic_key@);
        }
        0
    }

    /// Whether the key has reached the cap of chapters that may cite it as supporting evidence;
    /// a cap of 0 means no cap.
    pub fn exceeds_supporting_semantic_cap(&self, semantic_key: &str, max_chapters: u8) -> (r: bool)
        requires
            self.wf(),
        ensures
            r == (max_chapters > 0 && self.supporting_count(semantic_key@) >= max_chapters),
    {
        max_chapters > 0 && self.supporting_semantic_chapters_used(semantic_key) >= max_chapters
    }

    /// The keys a planner should avoid: every core, aspect and dignity key, each once.
    pub fn planner_avoid_keys(&self) -> (r: Vec<String>)
        requires
            self.wf(),
        ensures
            no_dups(string_views(r@)),
            forall|k: Seq<char>|
                #[trigger] string_views(r@).contains(k) <==> (self.core_key_list().contains(k)
                    || self.aspect_key_list().contains(k) || self.dignity_key_list().contains(k)),
            string_views(r@) == self.planner_keys(),
    {
        let mut keys: Vec<String> = Vec::new();
        proof {
            assert(string_views(keys@) =~= Seq::<Seq<char>>::empty());
        }
        extend_new(&mut keys, &self.core_keys);
        extend_new(&mut keys, &self.aspect_keys);
        extend_new(&mut keys, &self.dignity_keys);
        proof {
            let e: Seq<Seq<char>> = seq![];
            assert(no_dups(e));
            lemma_append_new(e, self.core_key_list());
            let a = append_new(e, self.core_key_list());
            lemma_append_new(a, self.aspect_key_list());
            let b = append_new(a, self.aspect_key_list());
            lemma_append_new(b, self.dignity_key_list());
        }
        keys
    }

    /// The keys a writer should avoid repeating: the last `max_avoid_repeating` core keys, then
    /// the aspect and dignity keys not listed yet.
    pub fn build_avoid_repeating(&self, max_avoid_repeating: usize) -> (r: Vec<String>)
        requires
            self.wf(),
        ensures
            string_views(r@) == append_new(
                append_new(
                    self.core_key_list().skip(
                        if self.core_key_list().len() > max_avoid_repeating {
                            self.core_key_list().len() - max_avoid_repeating
                        } else {
                            0
                        },
                    ),
                    self.aspect_key_list(),
                ),
                self.dignity_key_list(),
            ),
    {
        let n = self.core_keys.len();
        let skip = n.saturating_sub(max_avoid_repeating);
        let mut out: Vec<String> = Vec::new();
        let mut i: usize = skip;
        while i < n
            invariant
                n == self.core_keys@.len(),
                skip <= i <= n,
                string_views(out@) == self.core_key_list().subrange(skip as int, i as int),
            decreases n - i,
        {
            let ghost prev = string_views(out@);
            out.push(self.core_keys[i].clone());
            proof {
                assert(string_views(out@) =~= prev.push(self.core_keys@[i as int]@));
                assert(self.core_key_list()[i as int] == self.core_keys@[i as int]@);
                assert(string_views(out@) =~= self.core_key_list().subrange(skip as int, i + 1));
            }
            i = i + 1;
        }
        proof {
            assert(self.core_key_list().subrange(skip as int, n as int) =~= self.core_key_list().skip(skip as int));
        }
        extend_new(&mut out, &self.aspect_keys);
        extend_new(&mut out, &self.dignity_keys);
        out
    }

    /// Records the evidence of one more chapter: its aspect and dignity keys join their sets, its
    /// core keys are appended, and each distinct supporting key counts one more chapter.
    pub fn record_pack(&mut self, pack: &ChapterEvidencePack)
        requires
            old(self).wf(),
            forall|k: Seq<char>|
                keys_of(pack.supporting@).contains(k) ==> #[trigger] old(self).supporting_count(k) < 255,
        ensures
            final(self).wf(),
            final(self).aspect_key_list() == append_new(
                old(self).aspect_key_list(),
                aspect_keys_of(pack.core@ + pack.supporting@ + pack.nuance@),
            ),
            final(self).dignity_key_list() == append_new(
                old(self).dignity_key_list(),
                dignity_keys_of(pack.core@ + pack.supporting@ + pack.nuance@),
            ),
            final(self).core_key_list() == old(self).core_key_list() + keys_of(pack.core@),
            forall|k: Seq<char>|
                #[trigger] final(self).supporting_count(k) == old(self).supporting_count(k) + if keys_of(
                    pack.supporting@,
                ).contains(k) {
                    1nat
                } else {
                    0nat
                },
    {
        proof {
            lemma_aspect_keys_concat(pack.core@, pack.supporting@);
            lemma_aspect_keys_concat(pack.core@ + pack.supporting@, pack.nuance@);
            lemma_dignity_keys_concat(pack.core@, pack.supporting@);
            lemma_dignity_keys_concat(pack.core@ + pack.supporting@, pack.nuance@);
            lemma_append_new_concat(old(self).aspect_key_list(), aspect_keys_of(pack.core@), aspect_keys_of(pack.supporting@));
            lemma_append_new_concat(old(self).aspect_key_list(), aspect_keys_of(pack.core@) + aspect_keys_of(pack.supporting@), aspect_keys_of(pack.nuance@));
            lemma_append_new_concat(old(self).dignity_key_list(), dignity_keys_of(pack.core@), dignity_keys_of(pack.supporting@));
            lemma_append_new_concat(old(self).dignity_key_list(), dignity_keys_of(pack.core@) + dignity_keys_of(pack.supporting@), dignity_keys_of(pack.nuance@));
        }
        self.record_sets(&pack.core);
        self.record_sets(&pack.supporting);
        self.record_sets(&pack.nuance);
        let ghost sets_aspects = self.aspect_keys;
        let ghost sets_dignities = self.dignity_keys;
        let ghost sets_counts = self.supporting_semantic_chapter_count;
        let n = pack.core.len();
        let mut i: usize = 0;
        while i < n
            invariant
                n == pack.core@.len(),
                i <= n,
                self.wf(),
                self.aspect_keys == sets_aspects,
                self.dignity_keys == sets_dignities,
                self.supporting_semantic_chapter_count == sets_counts,
                string_views(self.core_keys@) == string_views(old(self).core_keys@) + keys_of(pack.core@.take(i as int)),
            decreases n - i,
        {
            let ghost prev_core = string_views(self.core_keys@);
            self.core_keys.push(pack.core[i].semantic_fact_key.clone());
            proof {
                assert(string_views(self.core_keys@) =~= prev_core.push(pack.core@[i as int].semantic_fact_key@));
                assert(keys_of(pack.core@.take(i + 1)) =~= keys_of(pack.core@.take(i as int)).push(pack.core@[i as int].semantic_fact_key@));
                assert(string_views(self.core_keys@) =~= string_views(old(self).core_keys@) + keys_of(pack.core@.take(i + 1)));
            }
            i = i + 1;
        }
        proof {
            assert(pack.core@.take(n as int) =~= pack.core@);
        }
        let ghost aspects_after = self.aspect_keys;
        let ghost dignities_after = self.dignity_keys;
        let ghost cores_after = self.core_keys;
        let mut seen: Vec<String> = Vec::new();
        let m = pack.supporting.len();
        let mut j: usize = 0;
        proof {
            assert(string_views(seen@) =~= Seq::<Seq<char>>::empty());
        }
        while j < m
            invariant
                m == pack.supporting@.len(),
                j <= m,
                self.wf(),
                no_dups(string_views(seen@)),
                forall|k: Seq<char>| #[trigger] string_views(seen@).contains(k) <==> keys_of(pack.supporting@.take(j as int)).contains(k),
                forall|k: Seq<char>|
                    keys_of(pack.supporting@).contains(k) ==> #[trigger] old(self).supporting_count(k) < 255,
                forall|k: Seq<char>|
                    #[trigger] self.supporting_count(k) == old(self).supporting_count(k) + if string_views(seen@).contains(k) {
                        1nat
                    } else {
                        0nat
                    },
                self.aspect_keys@ == aspects_after@,
                self.dignity_keys@ == dignities_after@,
                self.core_keys@ == cores_after@,
            decreases m - j,
        {
            let key = pack.supporting[j].semantic_fact_key.as_str();
            proof {
                assert(keys_of(pack.supporting@.take(j + 1)) =~= keys_of(pack.supporting@.take(j as int)).push(key@));
                assert(keys_of(pack.supporting@)[j as int] == key@);
            }
            proof {
                lemma_push_contains(keys_of(pack.supporting@.take(j as int)), key@);
                assert(keys_of(pack.supporting@).contains(key@));
            }
            if !list_contains(&seen, key) {
                self.bump_supporting(key);
                let ghost prev_seen = string_views(seen@);
                seen.push(key.to_owned());
                proof {
                    assert(string_views(seen@) =~= prev_seen.push(key@));
                    assert forall|k: Seq<char>| #[trigger] string_views(seen@).contains(k) <==> (prev_seen.contains(k) || k == key@) by {
                        if string_views(seen@).contains(k) && k != key@ {
                            let t = choose|t: int| 0 <= t < string_views(seen@).len() && string_views(seen@)[t] == k;
                            assert(prev_seen[t] == k);
                        }
                        if prev_seen.contains(k) {
                            let t = choose|t: int| 0 <= t < prev_seen.len() && prev_seen[t] == k;
                            assert(string_views(seen@)[t] == k);
                        }
                        if k == key@ {
                            assert(string_views(seen@)[prev_seen.len() as int] == k);
                        }
                    }
                }
            }
            j = j + 1;
        }
        proof {
            assert(pack.supporting@.take(m as int) =~= pack.supporting@);
        }
    }
}

/// All the evidence of a pack: core, then supporting, then nuance.
pub open spec fn pack_evidence(p: ChapterEvidencePack) -> Seq<InterpretiveEvidence> {
    p.core@ + p.supporting@ + p.nuance@
}

/// The core keys a record holds after recording the packs in order (see `record_pack`).
pub open spec fn recorded_core(packs: Seq<ChapterEvidencePack>) -> Seq<Seq<char>>
    decreases packs.len(),
{
    if packs.len() == 0 {
        seq![]
    } else {
        recorded_core(packs.drop_last()) + keys_of(packs.last().core@)
    }
}

/// The aspect keys a record holds after recording the packs in order.
pub open spec fn recorded_aspects(packs: Seq<ChapterEvidencePack>) -> Seq<Seq<char>>
    decreases packs.len(),
{
    if packs.len() == 0 {
        seq![]
    } else {
        append_new(recorded_aspects(packs.drop_last()), aspect_keys_of(pack_evidence(packs.last())))
    }
}

/// The dignity keys a record holds after recording the packs in order.
pub open spec fn recorded_dignities(packs: Seq<ChapterEvidencePack>) -> Seq<Seq<char>>
    decreases packs.len(),
{
    if packs.len() == 0 {
        seq![]
    } else {
        append_new(recorded_dignities(packs.drop_last()), dignity_keys_of(pack_evidence(packs.last())))
    }
}

/// A key a pack asks a later chapter to avoid: a core key, or the key of aspect or dignity
/// evidence anywhere in the pack.
pub open spec fn pack_avoid_key(p: ChapterEvidencePack, k: Seq<char>) -> bool {
    ||| keys_of(p.core@).contains(k)
    ||| aspect_keys_of(pack_evidence(p)).contains(k)
    ||| dignity_keys_of(pack_evidence(p)).contains(k)
}

/// After an empty record has recorded a sequence of packs (`new`, then `record_pack` for each,
/// whose contracts step the key lists as `recorded_core`, `recorded_aspects` and
/// `recorded_dignities` do), `planner_avoid_keys` lists exactly the keys some pack asks to
/// avoid: the core keys of every pack and the aspect and dignity keys of all their evidence.
pub proof fn law_planner_avoid_keys_of_packs(packs: Seq<ChapterEvidencePack>)
    ensures
        no_dups(recorded_aspects(packs)),
        no_dups(recorded_dignities(packs)),
        forall|k: Seq<char>|
            (recorded_core(packs).contains(k) || recorded_aspects(packs).contains(k) || recorded_dignities(packs).contains(k))
                <==> exists|i: int| 0 <= i < packs.len() && #[trigger] pack_avoid_key(packs[i], k),
    decreases packs.len(),
{
    if packs.len() == 0 {
    } else {
        let prev = packs.drop_last();
        let p = packs.last();
        law_planner_avoid_keys_of_packs(prev);
        lemma_append_new(recorded_aspects(prev), aspect_keys_of(pack_evidence(p)));
        lemma_append_new(recorded_dignities(prev), dignity_keys_of(pack_evidence(p)));
        assert forall|k: Seq<char>|
            (recorded_core(packs).contains(k) || recorded_aspects(packs).contains(k) || recorded_dignities(packs).contains(k))
                <==> exists|i: int| 0 <= i < packs.len() && #[trigger] pack_avoid_key(packs[i], k) by {
            let rc = recorded_core(prev);
            let kc = keys_of(p.core@);
            assert(recorded_core(packs) == rc + kc);
            assert((rc + kc).contains(k) <==> (rc.contains(k) || kc.contains(k))) by {
                if (rc + kc).contains(k) {
                    let j = choose|j: int| 0 <= j < (rc + kc).len() && (rc + kc)[j] == k;
                    if j < rc.len() {
                        assert(rc[j] == k);
                    } else {
                        assert(kc[j - rc.len()] == k);
                    }
                }
                if rc.contains(k) {
                    let j = choose|j: int| 0 <= j < rc.len() && rc[j] == k;
                    assert((rc + kc)[j] == k);
                }
                if kc.contains(k) {
                    let j = choose|j: int| 0 <= j < kc.len() && kc[j] == k;
                    assert((rc + kc)[rc.len() + j] == k);
                }
            }
            if exists|i: int| 0 <= i < prev.len() && #[trigger] pack_avoid_key(prev[i], k) {
                let i = choose|i: int| 0 <= i < prev.len() && #[trigger] pack_avoid_key(prev[i], k);
                assert(packs[i] == prev[i]);
            }
            if exists|i: int| 0 <= i < packs.len() && #[trigger] pack_avoid_key(packs[i], k) {
                let i = choose|i: int| 0 <= i < packs.len() && #[trigger] pack_avoid_key(packs[i], k);
                if i < prev.len() {
                    assert(prev[i] == packs[i]);
                } else {
                    assert(packs[i] == p);
                }
            }
            assert(pack_avoid_key(packs[packs.len() - 1], k) == pack_avoid_key(p, k));
        }
    }
}

/// Recording one more pack steps the key lists as `record_pack` does: the pack's core keys are
/// appended, and its aspect and dignity keys join their lists where they are new.
pub proof fn law_record_pack_extends(packs: Seq<ChapterEvidencePack>, p: ChapterEvidencePack)
    ensures
        recorded_core(packs.push(p)) == recorded_core(packs) + keys_of(p.core@),
        recorded_aspects(packs.push(p)) == append_new(recorded_aspects(packs), aspect_keys_of(p.core@ + p.supporting@ + p.nuance@)),
        recorded_dignities(packs.push(p)) == append_new(recorded_dignities(packs), dignity_keys_of(p.core@ + p.supporting@ + p.nuance@)),
{
    assert(packs.push(p).drop_last() =~= packs);
}

/// A record that holds the key lists of a sequence of packs (an empty record, then
/// `record_pack` for each, as `law_record_pack_extends` steps them) gives as planner keys
/// exactly the keys some pack asks to avoid, each once; none for no pack.
pub proof fn law_planner_avoid_keys_after_packs(u: PriorChapterUsage, packs: Seq<ChapterEvidencePack>)
    requires
        u.core_key_list() == recorded_core(packs),
        u.aspect_key_list() == recorded_aspects(packs),
        u.dignity_key_list() == recorded_dignities(packs),
    ensures
        no_dups(u.planner_keys()),
        forall|k: Seq<char>|
            #[trigger] u.planner_keys().contains(k) <==> exists|i: int| 0 <= i < packs.len() && #[trigger] pack_avoid_key(packs[i], k),
        packs.len() == 0 ==> u.planner_keys().len() == 0,
{
    law_planner_avoid_keys_of_packs(packs);
    let e: Seq<Seq<char>> = seq![];
    assert(no_dups(e));
    lemma_append_new(e, u.core_key_list());
    let a = append_new(e, u.core_key_list());
    lemma_append_new(a, u.aspect_key_list());
    let b = append_new(a, u.aspect_key_list());
    lemma_append_new(b, u.dignity_key_list());
    if packs.len() == 0 {
        assert(a =~= e);
        assert(b =~= e);
    }
}

} // verus!
