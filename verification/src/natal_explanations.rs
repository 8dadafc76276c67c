//! The decisions of the natal explanation service: the languages and limits it serves, which
//! cached explanations it reuses, which candidates are still missing after generation, the
//! records it caches, and the status of what it prepared.
use vstd::prelude::*;

use crate::json::{JsonValue, field_arr, field_str, json_clone, json_get, json_same, json_str, set_member};
use crate::public_request::{ascii_lower, to_ascii_lowercase};
use crate::text::{str_equal, string_views, trim, trim_str};

verus! {

/// The version of the prompt the cached explanations were written with.
pub const PROMPT_VERSION: &'static str = "natal_neutral_explanations_v3";

/// The key under which an explanation is cached.
#[derive(Debug)]
pub struct ExplanationCacheKey {
    pub language_code: String,
    pub kind_code: String,
    pub key_hash: String,
    pub key_json: JsonValue,
}

/// A fact that deserves an explanation.
#[derive(Debug)]
pub struct ExplanationCandidate {
    pub fact_id: String,
    pub kind_code: String,
    pub title: String,
    pub title_is_localized: bool,
    pub expression_primary: Option<String>,
    pub cache_key: ExplanationCacheKey,
}

/// An explanation handed back.
#[derive(Debug)]
pub struct NatalExplanationItem {
    pub fact_id: String,
    pub kind_code: String,
    pub title: String,
    pub explanation: String,
    pub expression_primary: Option<String>,
    pub source: String,
}

/// A cached explanation.
#[derive(Debug)]
pub struct ExplanationCacheRecord {
    pub language_code: String,
    pub kind_code: String,
    pub key_hash: String,
    pub key_json: JsonValue,
    pub title: String,
    pub explanation: String,
    pub expression_primary: Option<String>,
    pub provider: String,
    pub model: String,
    pub prompt_version: String,
}

/// The text of an optional text.
pub open spec fn opt_text(o: Option<String>) -> Option<Seq<char>> {
    match o {
        Some(s) => Some(s@),
        None => None,
    }
}

fn opt_text_equal(a: &Option<String>, b: &Option<String>) -> (r: bool)
    ensures
        r == (opt_text(*a) == opt_text(*b)),
{
    match (a, b) {
        (Some(x), Some(y)) => str_equal(x.as_str(), y.as_str()),
        (None, None) => true,
        _ => false,
    }
}

fn opt_text_copy(a: &Option<String>) -> (r: Option<String>)
    ensures
        opt_text(r) == opt_text(*a),
{
    match a {
        Some(x) => Some(x.clone()),
        None => None,
    }
}

/// The language code of a requested language: trimmed and lower-cased (ASCII), and served only
/// for French, English, Spanish and German.
pub open spec fn served_language(language: Seq<char>) -> Option<Seq<char>> {
    let n = ascii_lower(trim(language));
    if n == "fr"@ || n == "en"@ || n == "es"@ || n == "de"@ {
        Some(n)
    } else {
        None
    }
}

/// The language code the service writes in (see `served_language`).
pub fn supported_language_code(language: &str) -> (r: Option<String>)
    ensures
        opt_text(r) == served_language(language@),
{
    let trimmed = trim_str(language);
    let normalized = to_ascii_lowercase(trimmed.as_str());
    if str_equal(normalized.as_str(), "fr") || str_equal(normalized.as_str(), "en") || str_equal(normalized.as_str(), "es")
        || str_equal(normalized.as_str(), "de") {
        Some(normalized)
    } else {
        None
    }
}

/// How many explanations a profile gets: six for the light and simplified profiles, ten for
/// the basic one, twelve otherwise.
pub open spec fn limit_for(profile: Option<Seq<char>>) -> usize {
    match profile {
        Some(p) => if p == "natal_light"@ || p == "natal_simplified"@ {
            6
        } else if p == "natal_basic"@ {
            10
        } else {
            12
        },
        None => 12,
    }
}

/// The number of explanations a profile gets (see `limit_for`).
pub fn explanation_limit(profile_code: Option<&str>) -> (r: usize)
    ensures
        r == limit_for(crate::json::opt_view(profile_code)),
{
    match profile_code {
        Some(p) => if str_equal(p, "natal_light") || str_equal(p, "natal_simplified") {
            6
        } else if str_equal(p, "natal_basic") {
            10
        } else {
            12
        },
        None => 12,
    }
}

/// The cached record of a key: the last record with that hash (a later record replaces an
/// earlier one, as in a map filled in order).
pub open spec fn record_for(records: Seq<ExplanationCacheRecord>, hash: Seq<char>) -> Option<ExplanationCacheRecord>
    decreases records.len(),
{
    if records.len() == 0 {
        None
    } else if records.last().key_hash@ == hash {
        Some(records.last())
    } else {
        record_for(records.drop_last(), hash)
    }
}

/// A cached record serves a candidate: it was written with the current prompt, and, for a
/// localized title, its title and expression match the candidate's (titles compared trimmed).
pub open spec fn record_serves(rec: ExplanationCacheRecord, c: ExplanationCandidate) -> bool {
    &&& rec.prompt_version@ == PROMPT_VERSION@
    &&& c.title_is_localized ==> trim(rec.title@) == trim(c.title@) && opt_text(rec.expression_primary) == opt_text(
        c.expression_primary,
    )
}

/// The candidate is answered from the cache.
pub open spec fn reused(records: Seq<ExplanationCacheRecord>, c: ExplanationCandidate) -> bool {
    record_for(records, c.cache_key.key_hash@) matches Some(rec) && record_serves(rec, c)
}

/// The item a cached record gives a candidate.
pub open spec fn cached_item(c: ExplanationCandidate, rec: ExplanationCacheRecord, item: NatalExplanationItem) -> bool {
    &&& item.fact_id@ == c.fact_id@
    &&& item.kind_code@ == c.kind_code@
    &&& item.title@ == rec.title@
    &&& item.explanation@ == rec.explanation@
    &&& opt_text(item.expression_primary) == opt_text(rec.expression_primary)
    &&& item.source@ == "cache"@
}

/// The candidates answered from the cache, in order.
pub open spec fn reused_candidates(cs: Seq<ExplanationCandidate>, records: Seq<ExplanationCacheRecord>) -> Seq<ExplanationCandidate>
    decreases cs.len(),
{
    if cs.len() == 0 {
        seq![]
    } else if reused(records, cs.last()) {
        reused_candidates(cs.drop_last(), records).push(cs.last())
    } else {
        reused_candidates(cs.drop_last(), records)
    }
}

/// The candidates the cache does not answer, in order.
pub open spec fn missing_candidates(cs: Seq<ExplanationCandidate>, records: Seq<ExplanationCacheRecord>) -> Seq<ExplanationCandidate>
    decreases cs.len(),
{
    if cs.len() == 0 {
        seq![]
    } else if reused(records, cs.last()) {
        missing_candidates(cs.drop_last(), records)
    } else {
        missing_candidates(cs.drop_last(), records).push(cs.last())
    }
}

fn record_for_of<'a>(records: &'a Vec<ExplanationCacheRecord>, hash: &str) -> (r: Option<&'a ExplanationCacheRecord>)
    ensures
        match r {
            Some(rec) => record_for(records@, hash@) == Some(*rec),
            None => record_for(records@, hash@) is None,
        },
{
    let mut i: usize = records.len();
    proof {
        assert(records@.take(i as int) =~= records@);
    }
    while i > 0
        invariant
            i <= records@.len(),
            record_for(records@.take(i as int), hash@) == record_for(records@, hash@),
        decreases i,
    {
        proof {
            assert(records@.take(i as int).last() == records@[i - 1]);
            assert(records@.take(i as int).drop_last() =~= records@.take(i - 1));
        }
        if str_equal(records[i - 1].key_hash.as_str(), hash) {
            return Some(&records[i - 1]);
        }
        i = i - 1;
    }
    None
}

fn candidate_copy(c: &ExplanationCandidate) -> (r: ExplanationCandidate)
    ensures
        r.fact_id@ == c.fact_id@,
        r.kind_code@ == c.kind_code@,
        r.title@ == c.title@,
        r.title_is_localized == c.title_is_localized,
        opt_text(r.expression_primary) == opt_text(c.expression_primary),
        r.cache_key.language_code@ == c.cache_key.language_code@,
        r.cache_key.kind_code@ == c.cache_key.kind_code@,
        r.cache_key.key_hash@ == c.cache_key.key_hash@,
        crate::json::json_same(r.cache_key.key_json, c.cache_key.key_json),
{
    ExplanationCandidate {
        fact_id: c.fact_id.clone(),
        kind_code: c.kind_code.clone(),
        title: c.title.clone(),
        title_is_localized: c.title_is_localized,
        expression_primary: opt_text_copy(&c.expression_primary),
        cache_key: ExplanationCacheKey {
            language_code: c.cache_key.language_code.clone(),
            kind_code: c.cache_key.kind_code.clone(),
            key_hash: c.cache_key.key_hash.clone(),
            key_json: crate::json::json_clone(&c.cache_key.key_json),
        },
    }
}

/// The same candidate, its texts and key as they were.
pub open spec fn same_candidate(a: ExplanationCandidate, b: ExplanationCandidate) -> bool {
    &&& a.fact_id@ == b.fact_id@
    &&& a.kind_code@ == b.kind_code@
    &&& a.title@ == b.title@
    &&& a.title_is_localized == b.title_is_localized
    &&& opt_text(a.expression_primary) == opt_text(b.expression_primary)
    &&& a.cache_key.language_code@ == b.cache_key.language_code@
    &&& a.cache_key.kind_code@ == b.cache_key.kind_code@
    &&& a.cache_key.key_hash@ == b.cache_key.key_hash@
    &&& crate::json::json_same(a.cache_key.key_json, b.cache_key.key_json)
}

/// Splits the candidates between those the cache answers and those still missing: a candidate
/// whose cached record (see `record_for`) serves it (see `record_serves`) gives a cached item,
/// in candidate order; the others stay missing, in order.
pub fn reuse_cached_explanations(candidates: &Vec<ExplanationCandidate>, records: &Vec<ExplanationCacheRecord>) -> (r: (
    Vec<NatalExplanationItem>,
    Vec<ExplanationCandidate>,
))
    ensures
        r.0@.len() == reused_candidates(candidates@, records@).len(),
        forall|i: int|
            0 <= i < r.0@.len() ==> cached_item(
                reused_candidates(candidates@, records@)[i],
                record_for(records@, reused_candidates(candidates@, records@)[i].cache_key.key_hash@)->0,
                #[trigger] r.0@[i],
            ),
        r.1@.len() == missing_candidates(candidates@, records@).len(),
        forall|i: int| 0 <= i < r.1@.len() ==> same_candidate(#[trigger] r.1@[i], missing_candidates(candidates@, records@)[i]),
{
    let mut items: Vec<NatalExplanationItem> = Vec::new();
    let mut missing: Vec<ExplanationCandidate> = Vec::new();
    let n = candidates.len();
    let mut i: usize = 0;
    while i < n
        invariant
            n == candidates@.len(),
            i <= n,
            items@.len() == reused_candidates(candidates@.take(i as int), records@).len(),
            forall|k: int|
                0 <= k < items@.len() ==> cached_item(
                    reused_candidates(candidates@.take(i as int), records@)[k],
                    record_for(records@, reused_candidates(candidates@.take(i as int), records@)[k].cache_key.key_hash@)->0,
                    #[trigger] items@[k],
                ),
            missing@.len() == missing_candidates(candidates@.take(i as int), records@).len(),
            forall|k: int|
                0 <= k < missing@.len() ==> same_candidate(
                    #[trigger] missing@[k],
                    missing_candidates(candidates@.take(i as int), records@)[k],
                ),
        decreases n - i,
    {
        let c = &candidates[i];
        let ghost pre = candidates@.take(i as int);
        let ghost next = candidates@.take(i + 1);
        proof {
            assert(next.drop_last() =~= pre);
            assert(next.last() == candidates@[i as int]);
        }
        let serves = match record_for_of(records, c.cache_key.key_hash.as_str()) {
            Some(rec) => {
                let current = str_equal(rec.prompt_version.as_str(), PROMPT_VERSION);
                let matches = if c.title_is_localized {
                    let t1 = trim_str(rec.title.as_str());
                    let t2 = trim_str(c.title.as_str());
                    str_equal(t1.as_str(), t2.as_str()) && opt_text_equal(&rec.expression_primary, &c.expression_primary)
                } else {
                    true
                };
                if current && matches {
                    items.push(
                        NatalExplanationItem {
                            fact_id: c.fact_id.clone(),
                            kind_code: c.kind_code.clone(),
                            title: rec.title.clone(),
                            explanation: rec.explanation.clone(),
                            expression_primary: opt_text_copy(&rec.expression_primary),
                            source: "cache".to_owned(),
                        },
                    );
                    true
                } else {
                    false
                }
            },
            None => false,
        };
        if !serves {
            missing.push(candidate_copy(c));
        }
        proof {
            reveal_strlit("cache");
            assert(serves == reused(records@, candidates@[i as int]));
            if serves {
                assert(reused_candidates(next, records@) == reused_candidates(pre, records@).push(candidates@[i as int]));
                assert(missing_candidates(next, records@) == missing_candidates(pre, records@));
            } else {
                assert(reused_candidates(next, records@) == reused_candidates(pre, records@));
                assert(missing_candidates(next, records@) == missing_candidates(pre, records@).push(candidates@[i as int]));
            }
        }
        i = i + 1;
    }
    proof {
        assert(candidates@.take(n as int) =~= candidates@);
    }
    (items, missing)
}

/// The key hashes of the candidates an item answers: each item answers the first candidate
/// with its fact.
pub open spec fn first_with_fact(cs: Seq<ExplanationCandidate>, fact: Seq<char>) -> Option<ExplanationCandidate>
    decreases cs.len(),
{
    if cs.len() == 0 {
        None
    } else if cs[0].fact_id@ == fact {
        Some(cs[0])
    } else {
        first_with_fact(cs.drop_first(), fact)
    }
}

/// A key hash some item produced.
pub open spec fn produced(cs: Seq<ExplanationCandidate>, items: Seq<NatalExplanationItem>, hash: Seq<char>) -> bool {
    exists|j: int|
        0 <= j < items.len() && (first_with_fact(cs, (#[trigger] items[j]).fact_id@) matches Some(c) && c.cache_key.key_hash@
            == hash)
}

/// The facts of the candidates whose key hash no item produced, in order.
pub open spec fn unanswered_facts(cs: Seq<ExplanationCandidate>, all: Seq<ExplanationCandidate>, items: Seq<NatalExplanationItem>) -> Seq<
    Seq<char>,
>
    decreases cs.len(),
{
    if cs.len() == 0 {
        seq![]
    } else if produced(all, items, cs.last().cache_key.key_hash@) {
        unanswered_facts(cs.drop_last(), all, items)
    } else {
        unanswered_facts(cs.drop_last(), all, items).push(cs.last().fact_id@)
    }
}

fn first_with_fact_of<'a>(cs: &'a Vec<ExplanationCandidate>, fact: &str) -> (r: Option<&'a ExplanationCandidate>)
    ensures
        match r {
            Some(c) => first_with_fact(cs@, fact@) == Some(*c),
            None => first_with_fact(cs@, fact@) is None,
        },
{
    let n = cs.len();
    let mut i: usize = 0;
    assert(cs@.skip(0) =~= cs@);
    while i < n
        invariant
            n == cs@.len(),
            i <= n,
            first_with_fact(cs@, fact@) == first_with_fact(cs@.skip(i as int), fact@),
        decreases n - i,
    {
        proof {
            assert(cs@.skip(i as int)[0] == cs@[i as int]);
            assert(cs@.skip(i as int).drop_first() =~= cs@.skip(i + 1));
        }
        if str_equal(cs[i].fact_id.as_str(), fact) {
            return Some(&cs[i]);
        }
        i = i + 1;
    }
    None
}

fn is_produced(cs: &Vec<ExplanationCandidate>, items: &Vec<NatalExplanationItem>, hash: &str) -> (r: bool)
    ensures
        r == produced(cs@, items@, hash@),
{
    let n = items.len();
    let mut j: usize = 0;
    while j < n
        invariant
            n == items@.len(),
            j <= n,
            forall|k: int|
                0 <= k < j ==> !(first_with_fact(cs@, (#[trigger] items@[k]).fact_id@) matches Some(c) && c.cache_key.key_hash@
                    == hash@),
        decreases n - j,
    {
        match first_with_fact_of(cs, items[j].fact_id.as_str()) {
            Some(c) => {
                if str_equal(c.cache_key.key_hash.as_str(), hash) {
                    return true;
                }
            },
            None => {},
        }
        j = j + 1;
    }
    false
}

/// The facts still missing after generation: those of the candidates whose key hash no
/// produced item carries (an item carries the hash of the first candidate with its fact).
pub fn missing_fact_ids(candidates: &Vec<ExplanationCandidate>, items: &Vec<NatalExplanationItem>) -> (r: Vec<String>)
    ensures
        crate::text::string_views(r@) == unanswered_facts(candidates@, candidates@, items@),
{
    let mut out: Vec<String> = Vec::new();
    let n = candidates.len();
    let mut i: usize = 0;
    while i < n
        invariant
            n == candidates@.len(),
            i <= n,
            crate::text::string_views(out@) == unanswered_facts(candidates@.take(i as int), candidates@, items@),
        decreases n - i,
    {
        proof {
            assert(candidates@.take(i + 1).drop_last() =~= candidates@.take(i as int));
            assert(candidates@.take(i + 1).last() == candidates@[i as int]);
        }
        let ghost before = crate::text::string_views(out@);
        if !is_produced(candidates, items, candidates[i].cache_key.key_hash.as_str()) {
            out.push(candidates[i].fact_id.clone());
            assert(crate::text::string_views(out@) =~= before.push(candidates@[i as int].fact_id@));
        }
        i = i + 1;
    }
    proof {
        assert(candidates@.take(n as int) =~= candidates@);
    }
    out
}

/// The status of a preparation: unavailable without any item; complete when nothing is missing
/// and nothing failed; partial otherwise.
pub open spec fn status_for(n_items: nat, n_missing: nat, n_errors: nat) -> Seq<char> {
    if n_items == 0 {
        "unavailable"@
    } else if n_missing == 0 && n_errors == 0 {
        "complete"@
    } else {
        "partial"@
    }
}

/// The status of a preparation (see `status_for`).
pub fn explanation_status(n_items: usize, n_missing: usize, n_errors: usize) -> (r: &'static str)
    ensures
        r@ == status_for(n_items as nat, n_missing as nat, n_errors as nat),
{
    if n_items == 0 {
        "unavailable"
    } else if n_missing == 0 && n_errors == 0 {
        "complete"
    } else {
        "partial"
    }
}

/// The record cached for a generated item: the key of the first missing candidate with its
/// fact, the item's texts, the provider and model, and the current prompt version.
pub open spec fn generated_record(c: ExplanationCandidate, item: NatalExplanationItem, provider: Seq<char>, model: Seq<char>, rec: ExplanationCacheRecord) -> bool {
    &&& rec.language_code@ == c.cache_key.language_code@
    &&& rec.kind_code@ == c.kind_code@
    &&& rec.key_hash@ == c.cache_key.key_hash@
    &&& crate::json::json_same(rec.key_json, c.cache_key.key_json)
    &&& rec.title@ == item.title@
    &&& rec.explanation@ == item.explanation@
    &&& opt_text(rec.expression_primary) == opt_text(item.expression_primary)
    &&& rec.provider@ == provider
    &&& rec.model@ == model
    &&& rec.prompt_version@ == PROMPT_VERSION@
}

/// The generated items that answer a missing candidate, in order.
pub open spec fn answered_items(items: Seq<NatalExplanationItem>, missing: Seq<ExplanationCandidate>) -> Seq<NatalExplanationItem>
    decreases items.len(),
{
    if items.len() == 0 {
        seq![]
    } else if first_with_fact(missing, items.last().fact_id@) is Some {
        answered_items(items.drop_last(), missing).push(items.last())
    } else {
        answered_items(items.drop_last(), missing)
    }
}

/// The records to cache for the generated items: one for each item that answers a missing
/// candidate (see `generated_record`), in order.
pub fn generated_cache_records(
    items: &Vec<NatalExplanationItem>,
    missing: &Vec<ExplanationCandidate>,
    provider: &str,
    model: &str,
) -> (r: Vec<ExplanationCacheRecord>)
    ensures
        r@.len() == answered_items(items@, missing@).len(),
        forall|i: int|
            0 <= i < r@.len() ==> generated_record(
                first_with_fact(missing@, answered_items(items@, missing@)[i].fact_id@)->0,
                answered_items(items@, missing@)[i],
                provider@,
                model@,
                #[trigger] r@[i],
            ),
{
    let mut out: Vec<ExplanationCacheRecord> = Vec::new();
    let n = items.len();
    let mut i: usize = 0;
    while i < n
        invariant
            n == items@.len(),
            i <= n,
            out@.len() == answered_items(items@.take(i as int), missing@).len(),
            forall|k: int|
                0 <= k < out@.len() ==> generated_record(
                    first_with_fact(missing@, answered_items(items@.take(i as int), missing@)[k].fact_id@)->0,
                    answered_items(items@.take(i as int), missing@)[k],
                    provider@,
                    model@,
                    #[trigger] out@[k],
                ),
        decreases n - i,
    {
        let ghost pre = items@.take(i as int);
        let ghost next = items@.take(i + 1);
        proof {
            assert(next.drop_last() =~= pre);
            assert(next.last() == items@[i as int]);
        }
        let item = &items[i];
        match first_with_fact_of(missing, item.fact_id.as_str()) {
            Some(c) => {
                out.push(
                    ExplanationCacheRecord {
                        language_code: c.cache_key.language_code.clone(),
                        kind_code: c.kind_code.clone(),
                        key_hash: c.cache_key.key_hash.clone(),
                        key_json: crate::json::json_clone(&c.cache_key.key_json),
                        title: item.title.clone(),
                        explanation: item.explanation.clone(),
                        expression_primary: opt_text_copy(&item.expression_primary),
                        provider: provider.to_owned(),
                        model: model.to_owned(),
                        prompt_version: PROMPT_VERSION.to_owned(),
                    },
                );
                proof {
                    assert(answered_items(next, missing@) == answered_items(pre, missing@).push(items@[i as int]));
                }
            },
            None => {
                proof {
                    assert(answered_items(next, missing@) == answered_items(pre, missing@));
                }
            },
        }
        i = i + 1;
    }
    proof {
        assert(items@.take(n as int) =~= items@);
    }
    out
}

/// An explanation as the provider wrote it.
#[derive(Debug)]
pub struct GeneratedExplanationItem {
    pub key_hash: String,
    pub title: String,
    pub explanation: String,
    pub expression_primary: Option<String>,
}

/// A text trimmed, where it is not empty once trimmed.
pub open spec fn non_empty_text(s: Seq<char>) -> Option<Seq<char>> {
    if trim(s).len() == 0 {
        None
    } else {
        Some(trim(s))
    }
}

/// The trimmed text, where it is not empty.
pub fn non_empty(value: &str) -> (r: Option<String>)
    ensures
        opt_text(r) == non_empty_text(value@),
{
    let trimmed = trim_str(value);
    proof {
        reveal_strlit("");
        assert(trimmed@.len() == 0 ==> trimmed@ =~= ""@);
    }
    if str_equal(trimmed.as_str(), "") {
        None
    } else {
        Some(trimmed)
    }
}

/// The generated explanation of a key: the last the provider wrote for that hash.
pub open spec fn generated_for(gs: Seq<GeneratedExplanationItem>, hash: Seq<char>) -> Option<GeneratedExplanationItem>
    decreases gs.len(),
{
    if gs.len() == 0 {
        None
    } else if gs.last().key_hash@ == hash {
        Some(gs.last())
    } else {
        generated_for(gs.drop_last(), hash)
    }
}

/// A candidate the provider answered: it wrote an explanation for its key that is not blank.
pub open spec fn answered(gs: Seq<GeneratedExplanationItem>, c: ExplanationCandidate) -> bool {
    generated_for(gs, c.cache_key.key_hash@) matches Some(g) && non_empty_text(g.explanation@) is Some
}

/// The item a generated explanation gives a candidate: a localized title stays, else the
/// generated title (trimmed, where not blank) replaces it; the explanation trimmed; the
/// candidate's expression, else the generated one.
pub open spec fn generated_item(c: ExplanationCandidate, g: GeneratedExplanationItem, item: NatalExplanationItem) -> bool {
    &&& item.fact_id@ == c.fact_id@
    &&& item.kind_code@ == c.kind_code@
    &&& item.title@ == (if c.title_is_localized {
        c.title@
    } else {
        match non_empty_text(g.title@) {
            Some(t) => t,
            None => c.title@,
        }
    })
    &&& item.explanation@ == trim(g.explanation@)
    &&& opt_text(item.expression_primary) == (if c.expression_primary is Some {
        opt_text(c.expression_primary)
    } else {
        opt_text(g.expression_primary)
    })
    &&& item.source@ == "generated"@
}

/// The candidates the provider answered, in order.
pub open spec fn answered_candidates(cs: Seq<ExplanationCandidate>, gs: Seq<GeneratedExplanationItem>) -> Seq<ExplanationCandidate>
    decreases cs.len(),
{
    if cs.len() == 0 {
        seq![]
    } else if answered(gs, cs.last()) {
        answered_candidates(cs.drop_last(), gs).push(cs.last())
    } else {
        answered_candidates(cs.drop_last(), gs)
    }
}

fn generated_for_of<'a>(gs: &'a Vec<GeneratedExplanationItem>, hash: &str) -> (r: Option<&'a GeneratedExplanationItem>)
    ensures
        match r {
            Some(g) => generated_for(gs@, hash@) == Some(*g),
            None => generated_for(gs@, hash@) is None,
        },
{
    let mut i: usize = gs.len();
    proof {
        assert(gs@.take(i as int) =~= gs@);
    }
    while i > 0
        invariant
            i <= gs@.len(),
            generated_for(gs@.take(i as int), hash@) == generated_for(gs@, hash@),
        decreases i,
    {
        proof {
            assert(gs@.take(i as int).last() == gs@[i - 1]);
            assert(gs@.take(i as int).drop_last() =~= gs@.take(i - 1));
        }
        if str_equal(gs[i - 1].key_hash.as_str(), hash) {
            return Some(&gs[i - 1]);
        }
        i = i - 1;
    }
    None
}

/// Reads the provider's answer: one item per candidate it answered (see `answered` and
/// `generated_item`), in candidate order.
pub fn items_from_generated(candidates: &Vec<ExplanationCandidate>, generated: &Vec<GeneratedExplanationItem>) -> (r: Vec<
    NatalExplanationItem,
>)
    ensures
        r@.len() == answered_candidates(candidates@, generated@).len(),
        forall|i: int|
            0 <= i < r@.len() ==> generated_item(
                answered_candidates(candidates@, generated@)[i],
                generated_for(generated@, answered_candidates(candidates@, generated@)[i].cache_key.key_hash@)->0,
                #[trigger] r@[i],
            ),
{
    let mut out: Vec<NatalExplanationItem> = Vec::new();
    let n = candidates.len();
    let mut i: usize = 0;
    while i < n
        invariant
            n == candidates@.len(),
            i <= n,
            out@.len() == answered_candidates(candidates@.take(i as int), generated@).len(),
            forall|k: int|
                0 <= k < out@.len() ==> generated_item(
                    answered_candidates(candidates@.take(i as int), generated@)[k],
                    generated_for(generated@, answered_candidates(candidates@.take(i as int), generated@)[k].cache_key.key_hash@)->0,
                    #[trigger] out@[k],
                ),
        decreases n - i,
    {
        let ghost pre = candidates@.take(i as int);
        let ghost next = candidates@.take(i + 1);
        proof {
            assert(next.drop_last() =~= pre);
            assert(next.last() == candidates@[i as int]);
        }
        let c = &candidates[i];
        let mut pushed = false;
        match generated_for_of(generated, c.cache_key.key_hash.as_str()) {
            Some(g) => match non_empty(g.explanation.as_str()) {
                Some(explanation) => {
                    let title = if c.title_is_localized {
                        c.title.clone()
                    } else {
                        match non_empty(g.title.as_str()) {
                            Some(t) => t,
                            None => c.title.clone(),
                        }
                    };
                    let expression = match &c.expression_primary {
                        Some(e) => Some(e.clone()),
                        None => opt_text_copy(&g.expression_primary),
                    };
                    out.push(
                        NatalExplanationItem {
                            fact_id: c.fact_id.clone(),
                            kind_code: c.kind_code.clone(),
                            title,
                            explanation,
                            expression_primary: expression,
                            source: "generated".to_owned(),
                        },
                    );
                    pushed = true;
                },
                None => {},
            },
            None => {},
        }
        proof {
            reveal_strlit("generated");
            assert(pushed == answered(generated@, candidates@[i as int]));
            if pushed {
                assert(answered_candidates(next, generated@) == answered_candidates(pre, generated@).push(candidates@[i as int]));
            } else {
                assert(answered_candidates(next, generated@) == answered_candidates(pre, generated@));
            }
        }
        i = i + 1;
    }
    proof {
        assert(candidates@.take(n as int) =~= candidates@);
    }
    out
}

/// The language the provider is asked to write in: that of the first candidate's key, else
/// French.
pub fn generation_language(candidates: &Vec<ExplanationCandidate>) -> (r: String)
    ensures
        r@ == (if candidates@.len() > 0 {
            candidates@[0].cache_key.language_code@
        } else {
            "fr"@
        }),
{
    if candidates.len() > 0 {
        candidates[0].cache_key.language_code.clone()
    } else {
        "fr".to_owned()
    }
}

// ---------------------------------------------------------------------------------------------
// What the provider is asked
// ---------------------------------------------------------------------------------------------

/// The text of an optional string as a JSON value: the text, or `null`.
pub open spec fn opt_text_value(v: JsonValue, s: Option<String>) -> bool {
    match s {
        Some(t) => json_str(v) == Some(t@),
        None => v is Null,
    }
}

/// The context a house axis carries for the provider: the justification signature of its key.
pub open spec fn astrological_context(c: ExplanationCandidate) -> Option<JsonValue> {
    if c.kind_code@ == "house_axis"@ {
        json_get(c.cache_key.key_json, "justification_signature"@)
    } else {
        None
    }
}

/// The item a provider is given for a candidate: its fact, kind, key hash, key, title, where the
/// title comes from, its expression, and for a house axis with a justification signature that
/// signature as its astrological context; no other member.
pub open spec fn prompt_item(c: ExplanationCandidate, it: JsonValue) -> bool {
    &&& it is Object
    &&& field_str(it, "fact_id"@) == Some(c.fact_id@)
    &&& field_str(it, "kind_code"@) == Some(c.kind_code@)
    &&& field_str(it, "key_hash"@) == Some(c.cache_key.key_hash@)
    &&& json_get(it, "key"@) matches Some(k) && json_same(k, c.cache_key.key_json)
    &&& field_str(it, "title"@) == Some(c.title@)
    &&& field_str(it, "title_source"@) == Some(
        if c.title_is_localized {
            "localized_input"@
        } else {
            "source_fallback"@
        },
    )
    &&& json_get(it, "expression_primary"@) matches Some(e) && opt_text_value(e, c.expression_primary)
    &&& match astrological_context(c) {
        Some(x) => json_get(it, "astrological_context"@) matches Some(y) && json_same(y, x),
        None => json_get(it, "astrological_context"@) is None,
    }
    &&& forall|k: Seq<char>|
        !(k == "fact_id"@ || k == "kind_code"@ || k == "key_hash"@ || k == "key"@ || k == "title"@ || k == "title_source"@
            || k == "expression_primary"@ || k == "astrological_context"@) ==> #[trigger] json_get(it, k) is None
}

/// The rules the provider writes under: a short neutral explanatory sentence, the five forbidden
/// registers, one sentence at most, and the rules for titles and house axes.
pub open spec fn explanation_rules(r: JsonValue) -> bool {
    &&& r is Object
    &&& field_str(r, "style"@) == Some("phrase courte, neutre, explicative"@)
    &&& field_arr(r, "forbid"@) matches Some(f) && f.map_values(|v: JsonValue| json_str(v)) == seq![
        Some("prediction"@),
        Some("conseil"@),
        Some("diagnostic"@),
        Some("interpretation personnelle"@),
        Some("fatalisme"@),
    ]
    &&& json_get(r, "max_sentences"@) == Some(JsonValue::Int(1))
    &&& field_str(r, "title_rule"@) == Some(TITLE_RULE@)
    &&& field_str(r, "house_axis_rule"@) == Some(HOUSE_AXIS_RULE@)
    &&& forall|k: Seq<char>|
        !(k == "style"@ || k == "forbid"@ || k == "max_sentences"@ || k == "title_rule"@ || k == "house_axis_rule"@)
            ==> #[trigger] json_get(r, k) is None
}

/// How a title is written: kept where it was localized, else rewritten in the language.
pub const TITLE_RULE: &'static str = "Si item.title_source=localized_input, conserver le meme titre. Si item.title_source=source_fallback, reecrire title dans language_code a partir de key, fact_id, kind_code et du titre fourni; ne pas conserver un titre dans une autre langue.";

/// How a house axis is explained: with its houses and a concrete factor of its context.
pub const HOUSE_AXIS_RULE: &'static str = "Pour kind_code=house_axis, utiliser 1 a 2 phrases et justifier l'axe par les maisons concernees plus au moins un facteur astrologique concret fourni dans astrological_context. Ne pas ecrire seulement que l'axe parle d'un theme sans preuve astrologique issue du contexte.";

/// The payload a provider is given to explain candidates: the language (that of the first
/// candidate's key, else French), one item per candidate in order, and the writing rules; no
/// other member.
pub open spec fn explanation_payload(candidates: Seq<ExplanationCandidate>, p: JsonValue) -> bool {
    &&& p is Object
    &&& field_str(p, "language_code"@) == Some(
        if candidates.len() > 0 {
            candidates[0].cache_key.language_code@
        } else {
            "fr"@
        },
    )
    &&& field_arr(p, "items"@) matches Some(items) && items.len() == candidates.len() && forall|i: int|
        0 <= i < candidates.len() ==> prompt_item(candidates[i], #[trigger] items[i])
    &&& json_get(p, "rules"@) matches Some(r) && explanation_rules(r)
    &&& forall|k: Seq<char>| !(k == "language_code"@ || k == "items"@ || k == "rules"@) ==> #[trigger] json_get(p, k) is None
}

proof fn lemma_payload_words()
    ensures
        "fact_id"@.len() == 7 && "kind_code"@.len() == 9 && "key_hash"@.len() == 8 && "key"@.len() == 3,
        "title"@.len() == 5 && "title_source"@.len() == 12 && "expression_primary"@.len() == 18,
        "astrological_context"@.len() == 20 && "language_code"@.len() == 13 && "items"@.len() == 5,
        "rules"@.len() == 5 && "items"@[0] == 'i' && "rules"@[0] == 'r',
        "style"@.len() == 5 && "forbid"@.len() == 6 && "max_sentences"@.len() == 13 && "title_rule"@.len() == 10,
        "house_axis_rule"@.len() == 15,
{
    reveal_strlit("fact_id");
    reveal_strlit("kind_code");
    reveal_strlit("key_hash");
    reveal_strlit("key");
    reveal_strlit("title");
    reveal_strlit("title_source");
    reveal_strlit("expression_primary");
    reveal_strlit("astrological_context");
    reveal_strlit("language_code");
    reveal_strlit("items");
    reveal_strlit("rules");
    reveal_strlit("style");
    reveal_strlit("forbid");
    reveal_strlit("max_sentences");
    reveal_strlit("title_rule");
    reveal_strlit("house_axis_rule");
}

fn text_value(s: &Option<String>) -> (r: JsonValue)
    ensures
        opt_text_value(r, *s),
{
    match s {
        Some(t) => JsonValue::Str(t.clone()),
        None => JsonValue::Null,
    }
}

/// The item a provider is given for a candidate (see `prompt_item`).
pub fn candidate_prompt_item(c: &ExplanationCandidate) -> (r: JsonValue)
    ensures
        prompt_item(*c, r),
{
    proof {
        lemma_payload_words();
    }
    let mut it = JsonValue::Null;
    set_member(&mut it, "fact_id", JsonValue::Str(c.fact_id.clone()));
    set_member(&mut it, "kind_code", JsonValue::Str(c.kind_code.clone()));
    set_member(&mut it, "key_hash", JsonValue::Str(c.cache_key.key_hash.clone()));
    set_member(&mut it, "key", json_clone(&c.cache_key.key_json));
    set_member(&mut it, "title", JsonValue::Str(c.title.clone()));
    let source = if c.title_is_localized {
        "localized_input"
    } else {
        "source_fallback"
    };
    set_member(&mut it, "title_source", JsonValue::Str(source.to_owned()));
    set_member(&mut it, "expression_primary", text_value(&c.expression_primary));
    if str_equal(c.kind_code.as_str(), "house_axis") {
        match c.cache_key.key_json.get("justification_signature") {
            Some(x) => set_member(&mut it, "astrological_context", json_clone(x)),
            None => {},
        }
    }
    it
}

fn explanation_rules_value() -> (r: JsonValue)
    ensures
        explanation_rules(r),
{
    proof {
        lemma_payload_words();
    }
    let mut forbid: Vec<JsonValue> = Vec::new();
    forbid.push(JsonValue::Str("prediction".to_owned()));
    forbid.push(JsonValue::Str("conseil".to_owned()));
    forbid.push(JsonValue::Str("diagnostic".to_owned()));
    forbid.push(JsonValue::Str("interpretation personnelle".to_owned()));
    forbid.push(JsonValue::Str("fatalisme".to_owned()));
    assert(forbid@.map_values(|v: JsonValue| json_str(v)) =~= seq![
        Some("prediction"@),
        Some("conseil"@),
        Some("diagnostic"@),
        Some("interpretation personnelle"@),
        Some("fatalisme"@),
    ]);
    let mut r = JsonValue::Null;
    set_member(&mut r, "style", JsonValue::Str("phrase courte, neutre, explicative".to_owned()));
    set_member(&mut r, "forbid", JsonValue::Array(forbid));
    set_member(&mut r, "max_sentences", JsonValue::Int(1));
    set_member(&mut r, "title_rule", JsonValue::Str(TITLE_RULE.to_owned()));
    set_member(&mut r, "house_axis_rule", JsonValue::Str(HOUSE_AXIS_RULE.to_owned()));
    r
}

/// The payload a provider is given to explain the missing candidates (see
/// `explanation_payload`).
pub fn natal_explanation_provider_payload(candidates: &Vec<ExplanationCandidate>) -> (r: JsonValue)
    ensures
        explanation_payload(candidates@, r),
{
    proof {
        lemma_payload_words();
    }
    let mut items: Vec<JsonValue> = Vec::new();
    let n = candidates.len();
    let mut i: usize = 0;
    while i < n
        invariant
            n == candidates@.len(),
            i <= n,
            items@.len() == i,
            forall|j: int| 0 <= j < i ==> prompt_item(candidates@[j], #[trigger] items@[j]),
        decreases n - i,
    {
        items.push(candidate_prompt_item(&candidates[i]));
        i = i + 1;
    }
    let mut p = JsonValue::Null;
    set_member(&mut p, "language_code", JsonValue::Str(generation_language(candidates)));
    set_member(&mut p, "items", JsonValue::Array(items));
    set_member(&mut p, "rules", explanation_rules_value());
    p
}

// ---------------------------------------------------------------------------------------------
// The preparation, step by step
// ---------------------------------------------------------------------------------------------

/// Where a preparation stands: not begun, waiting for the cache, for the provider, for the
/// cache to store what was generated, or done.
#[derive(Debug, Clone, Copy, PartialEq, Eq, Structural)]
pub enum PreparePhase {
    Start,
    AwaitingLookup,
    AwaitingGeneration,
    AwaitingStore,
    Done,
}

/// A preparation under way: its phase, whether a cache is wired, the candidates, the items
/// found so far, the candidates still to explain, and the errors met.
#[derive(Debug)]
pub struct PrepareState {
    pub phase: PreparePhase,
    pub with_cache: bool,
    pub candidates: Vec<ExplanationCandidate>,
    pub items: Vec<NatalExplanationItem>,
    pub missing: Vec<ExplanationCandidate>,
    pub errors: Vec<String>,
}

/// What the provider generated: the items read from its answer, and who wrote them.
#[derive(Debug)]
pub struct GeneratedExplanations {
    pub items: Vec<NatalExplanationItem>,
    pub provider: String,
    pub model: String,
}

/// What happened outside: the preparation begins, the cache answered, the provider answered, or
/// the cache stored the generated records (each with its error text where it failed).
#[derive(Debug)]
pub enum PrepareEvent {
    Begin,
    LookedUp(Result<Vec<ExplanationCacheRecord>, String>),
    Generated(Result<GeneratedExplanations, String>),
    Stored(Result<(), String>),
}

/// What to do next: look the candidates up in the cache, ask the provider for the missing ones,
/// store the generated records, answer with a status and the facts left unexplained, or nothing
/// (an event that does not fit the phase).
#[derive(Debug)]
pub enum PrepareAction {
    LookUp,
    Generate,
    Store(Vec<ExplanationCacheRecord>),
    Finish { status: String, missing_fact_ids: Vec<String> },
    Ignore,
}

/// Each candidate of `a` is the same as that of `b` at its position.
pub open spec fn copies(a: Seq<ExplanationCandidate>, b: Seq<ExplanationCandidate>) -> bool {
    a.len() == b.len() && forall|i: int| 0 <= i < a.len() ==> same_candidate(#[trigger] a[i], b[i])
}

/// The answer of a preparation in the state `n`: its status, and the facts no item explains.
pub open spec fn finish_action(n: PrepareState, a: PrepareAction) -> bool {
    a matches PrepareAction::Finish { status, missing_fact_ids } && string_views(missing_fact_ids@) == unanswered_facts(
        n.candidates@,
        n.candidates@,
        n.items@,
    ) && status@ == status_for(
        n.items@.len(),
        unanswered_facts(n.candidates@, n.candidates@, n.items@).len(),
        n.errors@.len(),
    )
}

/// Once the missing candidates are known: ask the provider where some are missing, else answer.
pub open spec fn decided(n: PrepareState, a: PrepareAction) -> bool {
    if n.missing@.len() > 0 {
        n.phase == PreparePhase::AwaitingGeneration && a is Generate
    } else {
        n.phase == PreparePhase::Done && finish_action(n, a)
    }
}

/// One step of a preparation (the decisions of `NatalExplanationService::prepare`): from the
/// state `s` and the event `e` to the state `n` and the action `a`.
pub open spec fn prepare_transition(s: PrepareState, e: PrepareEvent, n: PrepareState, a: PrepareAction) -> bool {
    &&& n.with_cache == s.with_cache
    &&& n.candidates@ == s.candidates@
    &&& match (s.phase, e) {
        (PreparePhase::Start, PrepareEvent::Begin) => if s.candidates@.len() == 0 {
            &&& n.items@ == s.items@
            &&& string_views(n.errors@) == string_views(s.errors@).push("no eligible natal explanation candidates"@)
            &&& n.phase == PreparePhase::Done
            &&& finish_action(n, a)
        } else if s.with_cache {
            &&& n.items@ == s.items@ && n.missing@ == s.missing@ && n.errors@ == s.errors@
            &&& n.phase == PreparePhase::AwaitingLookup
            &&& a is LookUp
        } else {
            &&& n.items@ == s.items@ && n.errors@ == s.errors@
            &&& copies(n.missing@, s.candidates@)
            &&& decided(n, a)
        },
        (PreparePhase::AwaitingLookup, PrepareEvent::LookedUp(Ok(records))) => {
            &&& n.items@.len() == reused_candidates(s.candidates@, records@).len()
            &&& forall|i: int|
                0 <= i < n.items@.len() ==> cached_item(
                    reused_candidates(s.candidates@, records@)[i],
                    record_for(records@, reused_candidates(s.candidates@, records@)[i].cache_key.key_hash@)->0,
                    #[trigger] n.items@[i],
                )
            &&& copies(n.missing@, missing_candidates(s.candidates@, records@))
            &&& n.errors@ == s.errors@
            &&& decided(n, a)
        },
        (PreparePhase::AwaitingLookup, PrepareEvent::LookedUp(Err(err))) => {
            &&& n.items@ == s.items@
            &&& n.errors@ == s.errors@.push(err)
            &&& copies(n.missing@, s.candidates@)
            &&& decided(n, a)
        },
        (PreparePhase::AwaitingGeneration, PrepareEvent::Generated(Ok(g))) => {
            &&& n.items@ == s.items@ + g.items@
            &&& n.missing@ == s.missing@ && n.errors@ == s.errors@
            &&& if s.with_cache {
                &&& n.phase == PreparePhase::AwaitingStore
                &&& a matches PrepareAction::Store(records) && records@.len() == answered_items(g.items@, s.missing@).len()
                    && forall|i: int|
                    0 <= i < records@.len() ==> generated_record(
                        first_with_fact(s.missing@, answered_items(g.items@, s.missing@)[i].fact_id@)->0,
                        answered_items(g.items@, s.missing@)[i],
                        g.provider@,
                        g.model@,
                        #[trigger] records@[i],
                    )
            } else {
                n.phase == PreparePhase::Done && finish_action(n, a)
            }
        },
        (PreparePhase::AwaitingGeneration, PrepareEvent::Generated(Err(err))) => {
            &&& n.items@ == s.items@ && n.missing@ == s.missing@
            &&& n.errors@ == s.errors@.push(err)
            &&& n.phase == PreparePhase::Done
            &&& finish_action(n, a)
        },
        (PreparePhase::AwaitingStore, PrepareEvent::Stored(res)) => {
            &&& n.items@ == s.items@ && n.missing@ == s.missing@
            &&& n.errors@ == match res {
                Ok(_) => s.errors@,
                Err(err) => s.errors@.push(err),
            }
            &&& n.phase == PreparePhase::Done
            &&& finish_action(n, a)
        },
        _ => {
            &&& n.phase == s.phase
            &&& n.items@ == s.items@ && n.missing@ == s.missing@ && n.errors@ == s.errors@
            &&& a is Ignore
        },
    }
}

fn copy_candidates(cs: &Vec<ExplanationCandidate>) -> (r: Vec<ExplanationCandidate>)
    ensures
        copies(r@, cs@),
{
    let mut out: Vec<ExplanationCandidate> = Vec::new();
    let n = cs.len();
    let mut i: usize = 0;
    while i < n
        invariant
            n == cs@.len(),
            i <= n,
            out@.len() == i,
            forall|j: int| 0 <= j < i ==> same_candidate(#[trigger] out@[j], cs@[j]),
        decreases n - i,
    {
        out.push(candidate_copy(&cs[i]));
        i = i + 1;
    }
    out
}

/// Answers a preparation: its status and the facts left unexplained.
fn finish(s: PrepareState) -> (r: (PrepareState, PrepareAction))
    ensures
        r.0.phase == PreparePhase::Done,
        r.0.with_cache == s.with_cache && r.0.candidates@ == s.candidates@ && r.0.items@ == s.items@ && r.0.missing@ == s.missing@
            && r.0.errors@ == s.errors@,
        finish_action(r.0, r.1),
{
    let ids = missing_fact_ids(&s.candidates, &s.items);
    let status = explanation_status(s.items.len(), ids.len(), s.errors.len());
    let mut s = s;
    s.phase = PreparePhase::Done;
    (s, PrepareAction::Finish { status: status.to_owned(), missing_fact_ids: ids })
}

/// Goes on once the missing candidates are known (see `decided`).
fn decide(s: PrepareState) -> (r: (PrepareState, PrepareAction))
    ensures
        r.0.with_cache == s.with_cache && r.0.candidates@ == s.candidates@ && r.0.items@ == s.items@ && r.0.missing@ == s.missing@
            && r.0.errors@ == s.errors@,
        decided(r.0, r.1),
{
    if s.missing.len() > 0 {
        let mut s = s;
        s.phase = PreparePhase::AwaitingGeneration;
        (s, PrepareAction::Generate)
    } else {
        finish(s)
    }
}

/// One step of a preparation: the caller performs the action and hands back what happened (see
/// `prepare_transition`).
pub fn prepare_step(state: PrepareState, event: PrepareEvent) -> (r: (PrepareState, PrepareAction))
    ensures
        prepare_transition(state, event, r.0, r.1),
{
    let mut s = state;
    match (s.phase, event) {
        (PreparePhase::Start, PrepareEvent::Begin) => {
            if s.candidates.len() == 0 {
                let ghost before = string_views(s.errors@);
                s.errors.push("no eligible natal explanation candidates".to_owned());
                assert(string_views(s.errors@) =~= before.push("no eligible natal explanation candidates"@));
                finish(s)
            } else if s.with_cache {
                s.phase = PreparePhase::AwaitingLookup;
                (s, PrepareAction::LookUp)
            } else {
                s.missing = copy_candidates(&s.candidates);
                decide(s)
            }
        },
        (PreparePhase::AwaitingLookup, PrepareEvent::LookedUp(Ok(records))) => {
            let (items, missing) = reuse_cached_explanations(&s.candidates, &records);
            s.items = items;
            s.missing = missing;
            decide(s)
        },
        (PreparePhase::AwaitingLookup, PrepareEvent::LookedUp(Err(err))) => {
            s.errors.push(err);
            s.missing = copy_candidates(&s.candidates);
            decide(s)
        },
        (PreparePhase::AwaitingGeneration, PrepareEvent::Generated(Ok(g))) => {
            let GeneratedExplanations { items, provider, model } = g;
            if s.with_cache {
                let records = generated_cache_records(&items, &s.missing, provider.as_str(), model.as_str());
                let mut items = items;
                s.items.append(&mut items);
                s.phase = PreparePhase::AwaitingStore;
                (s, PrepareAction::Store(records))
            } else {
                let mut items = items;
                s.items.append(&mut items);
                finish(s)
            }
        },
        (PreparePhase::AwaitingGeneration, PrepareEvent::Generated(Err(err))) => {
            s.errors.push(err);
            finish(s)
        },
        (PreparePhase::AwaitingStore, PrepareEvent::Stored(res)) => {
            match res {
                Ok(()) => {},
                Err(err) => s.errors.push(err),
            }
            finish(s)
        },
        _ => (s, PrepareAction::Ignore),
    }
}

} // verus!
