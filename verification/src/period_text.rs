//! Shaping of the public text of a seven-day reading: whole sentences, compacting to a word
//! budget, weak sentence endings, appending a sentence once, and the texts read from a day.
use vstd::prelude::*;

use crate::json::{JsonValue, field_str, json_arr, json_str};
use crate::keywords::{first_n, trimmed_nonblank};
use crate::period_payload::{join, join_strings, str_or_empty, views};
use crate::text::{
    chars_of, contains, is_alphabetic, is_blank, lowercase_of, split_words, str_contains, str_equal, str_is_blank,
    string_from_chars, string_views, to_lowercase, trim, trim_str, unicode_alphabetic, word_count, words,
};

verus! {

// ---------------------------------------------------------------------------------------------
// Whole sentences
// ---------------------------------------------------------------------------------------------

/// A character that closes a sentence.
pub open spec fn sentence_end(c: char) -> bool {
    c == '.' || c == '!' || c == '?'
}

/// The text cut after each closing character: the pieces in order, the last one being the
/// unfinished tail (empty where the text ends a sentence).
pub open spec fn segments(s: Seq<char>) -> Seq<Seq<char>>
    decreases s.len(),
{
    if s.len() == 0 {
        seq![seq![]]
    } else {
        let p = segments(s.drop_last());
        let q = p.update(p.len() - 1, p.last().push(s.last()));
        if sentence_end(s.last()) {
            q.push(seq![])
        } else {
            q
        }
    }
}

proof fn lemma_segments_nonempty(s: Seq<char>)
    ensures
        segments(s).len() >= 1,
    decreases s.len(),
{
    if s.len() > 0 {
        lemma_segments_nonempty(s.drop_last());
    }
}

/// The whole sentences of a text: every piece that a closing character ends, trimmed, blank
/// ones left out; an unfinished tail is dropped.
pub open spec fn complete_sentences(s: Seq<char>) -> Seq<Seq<char>> {
    trimmed_nonblank(segments(s).drop_last())
}

/// The whole sentences of a text.
pub fn period_complete_sentences(text: &str) -> (r: Vec<String>)
    ensures
        string_views(r@) == complete_sentences(text@),
{
    let cs = chars_of(text);
    let n = cs.len();
    let mut out: Vec<String> = Vec::new();
    let mut cur: Vec<char> = Vec::new();
    let mut i: usize = 0;
    proof {
        assert(cs@.take(0) =~= Seq::<char>::empty());
        assert(segments(cs@.take(0)).drop_last() =~= Seq::<Seq<char>>::empty());
    }
    while i < n
        invariant
            n == cs@.len(),
            cs@ == text@,
            i <= n,
            segments(cs@.take(i as int)).len() >= 1,
            cur@ == segments(cs@.take(i as int)).last(),
            string_views(out@) == trimmed_nonblank(segments(cs@.take(i as int)).drop_last()),
        decreases n - i,
    {
        let c = cs[i];
        let ghost p = segments(cs@.take(i as int));
        let ghost q = p.update(p.len() - 1, p.last().push(c));
        proof {
            assert(cs@.take(i + 1).drop_last() =~= cs@.take(i as int));
            assert(cs@.take(i + 1).last() == c);
            assert(q.drop_last() =~= p.drop_last());
        }
        cur.push(c);
        if c == '.' || c == '!' || c == '?' {
            let piece = string_from_chars(cur.as_slice());
            let ghost prev = string_views(out@);
            if !str_is_blank(piece.as_str()) {
                out.push(trim_str(piece.as_str()));
                assert(string_views(out@) =~= prev.push(trim(q.last())));
            }
            cur = Vec::new();
            proof {
                assert(segments(cs@.take(i + 1)) == q.push(seq![]));
                assert(q.push(seq![]).drop_last() =~= q);
                assert(cur@ =~= seq![]);
            }
        } else {
            assert(segments(cs@.take(i + 1)) == q);
        }
        i = i + 1;
    }
    proof {
        assert(cs@.take(n as int) =~= cs@);
    }
    out
}

// ---------------------------------------------------------------------------------------------
// Stripping characters at the edges of a word
// ---------------------------------------------------------------------------------------------

/// The characters that `trim_matches` strips: list punctuation (`,` `;` `:`) for the class 0,
/// anything not alphabetic for the class 1.
pub open spec fn in_class(class: u8, c: char) -> bool {
    if class == 0 {
        c == ',' || c == ';' || c == ':'
    } else {
        !unicode_alphabetic(c)
    }
}

fn is_in_class(class: u8, c: char) -> (r: bool)
    ensures
        r == in_class(class, c),
{
    if class == 0 {
        c == ',' || c == ';' || c == ':'
    } else {
        !is_alphabetic(c)
    }
}

/// The number of leading characters of the class.
pub open spec fn lead_in(s: Seq<char>, class: u8) -> nat
    decreases s.len(),
{
    if s.len() > 0 && in_class(class, s[0]) {
        1 + lead_in(s.drop_first(), class)
    } else {
        0
    }
}

/// The number of trailing characters of the class.
pub open spec fn trail_in(s: Seq<char>, class: u8) -> nat
    decreases s.len(),
{
    if s.len() > 0 && in_class(class, s.last()) {
        1 + trail_in(s.drop_last(), class)
    } else {
        0
    }
}

/// `trim_matches`: the text without its leading and trailing characters of the class.
pub open spec fn strip_class(s: Seq<char>, class: u8) -> Seq<char> {
    if lead_in(s, class) >= s.len() {
        seq![]
    } else {
        s.subrange(lead_in(s, class) as int, s.len() - trail_in(s, class))
    }
}

/// `trim_end_matches`: the text without its trailing characters of the class.
pub open spec fn strip_end_class(s: Seq<char>, class: u8) -> Seq<char> {
    s.take(s.len() - trail_in(s, class))
}

proof fn lemma_lead_in(s: Seq<char>, class: u8, i: int)
    requires
        0 <= i <= s.len(),
        forall|j: int| 0 <= j < i ==> in_class(class, s[j]),
    ensures
        lead_in(s, class) == i + lead_in(s.subrange(i, s.len() as int), class),
    decreases i,
{
    if i > 0 {
        assert(s.drop_first().subrange(i - 1, s.drop_first().len() as int) =~= s.subrange(i, s.len() as int));
        lemma_lead_in(s.drop_first(), class, i - 1);
    } else {
        assert(s.subrange(0, s.len() as int) =~= s);
    }
}

proof fn lemma_trail_in(s: Seq<char>, class: u8, k: int)
    requires
        0 <= k <= s.len(),
        forall|j: int| s.len() - k <= j < s.len() ==> in_class(class, s[j]),
    ensures
        trail_in(s, class) == k + trail_in(s.subrange(0, s.len() - k), class),
    decreases k,
{
    if k > 0 {
        assert(s.drop_last().subrange(0, s.drop_last().len() - (k - 1)) =~= s.subrange(0, s.len() - k));
        lemma_trail_in(s.drop_last(), class, k - 1);
    } else {
        assert(s.subrange(0, s.len() as int) =~= s);
    }
}

proof fn lemma_trail_in_bound(s: Seq<char>, class: u8)
    ensures
        trail_in(s, class) <= s.len(),
    decreases s.len(),
{
    if s.len() > 0 && in_class(class, s.last()) {
        lemma_trail_in_bound(s.drop_last(), class);
    }
}

fn copy_range(cs: &Vec<char>, start: usize, end: usize) -> (r: Vec<char>)
    requires
        start <= end <= cs@.len(),
    ensures
        r@ == cs@.subrange(start as int, end as int),
{
    let mut out: Vec<char> = Vec::new();
    let mut i: usize = start;
    while i < end
        invariant
            start <= i <= end <= cs@.len(),
            out@ == cs@.subrange(start as int, i as int),
        decreases end - i,
    {
        out.push(cs[i]);
        assert(out@ =~= cs@.subrange(start as int, i + 1));
        i = i + 1;
    }
    out
}

/// `trim_matches` over the characters of a class.
fn strip_class_chars(cs: &Vec<char>, class: u8) -> (r: Vec<char>)
    ensures
        r@ == strip_class(cs@, class),
{
    let n = cs.len();
    let mut start: usize = 0;
    while start < n && is_in_class(class, cs[start])
        invariant
            n == cs@.len(),
            start <= n,
            forall|j: int| 0 <= j < start ==> in_class(class, cs@[j]),
        decreases n - start,
    {
        start = start + 1;
    }
    proof {
        lemma_lead_in(cs@, class, start as int);
        if start < n {
            assert(cs@.subrange(start as int, n as int)[0] == cs@[start as int]);
        } else {
            assert(cs@.subrange(start as int, n as int).len() == 0);
        }
    }
    if start == n {
        return Vec::new();
    }
    let mut end: usize = n;
    while end > start && is_in_class(class, cs[end - 1])
        invariant
            n == cs@.len(),
            start < n,
            start <= end <= n,
            !in_class(class, cs@[start as int]),
            forall|j: int| end <= j < n ==> in_class(class, cs@[j]),
        decreases end,
    {
        end = end - 1;
    }
    proof {
        lemma_trail_in(cs@, class, n - end);
        let pre = cs@.subrange(0, end as int);
        assert(pre.len() > 0);
        assert(pre.last() == cs@[end - 1]);
    }
    copy_range(cs, start, end)
}

/// `trim_end_matches` over the characters of a class.
fn strip_end_class_chars(cs: &Vec<char>, class: u8) -> (r: Vec<char>)
    ensures
        r@ == strip_end_class(cs@, class),
{
    let n = cs.len();
    let mut end: usize = n;
    while end > 0 && is_in_class(class, cs[end - 1])
        invariant
            n == cs@.len(),
            end <= n,
            forall|j: int| end <= j < n ==> in_class(class, cs@[j]),
        decreases end,
    {
        end = end - 1;
    }
    proof {
        lemma_trail_in(cs@, class, n - end);
        let pre = cs@.subrange(0, end as int);
        if end > 0 {
            assert(pre.last() == cs@[end - 1]);
        }
        assert(cs@.take(end as int) =~= pre);
    }
    copy_range(cs, 0, end)
}

// ---------------------------------------------------------------------------------------------
// Weak endings and incomplete tails
// ---------------------------------------------------------------------------------------------

/// The short words on which a sentence may not end.
pub open spec fn weak_endings() -> Seq<Seq<char>> {
    seq![
        "et"@, "à"@, "a"@, "de"@, "pour"@, "avec"@, "sans"@, "dans"@, "sur"@, "vers"@, "la"@, "le"@,
        "les"@, "des"@, "du"@, "au"@, "aux"@, "un"@, "une"@, "ce"@, "cet"@, "cette"@, "d"@, "l"@,
        "qu"@, "jusqu"@, "puisqu"@, "lorsqu"@,
    ]
}

/// A word on which a sentence may not end, once stripped of what is not a letter and
/// lower-cased.
pub open spec fn weak_ending(word: Seq<char>) -> bool {
    weak_endings().contains(lowercase_of(strip_class(word, 1)))
}

/// Whether a sentence may not end on the word.
pub fn period_is_weak_sentence_ending(word: &str) -> (r: bool)
    ensures
        r == weak_ending(word@),
{
    let cs = chars_of(word);
    let core = strip_class_chars(&cs, 1);
    let core_text = string_from_chars(core.as_slice());
    let lower = to_lowercase(core_text.as_str());
    let weak = [
        "et", "à", "a", "de", "pour", "avec", "sans", "dans", "sur", "vers", "la", "le", "les", "des", "du",
        "au", "aux", "un", "une", "ce", "cet", "cette", "d", "l", "qu", "jusqu", "puisqu", "lorsqu",
    ];
    assert(views(weak@) =~= weak_endings());
    let n = weak.len();
    let mut k: usize = 0;
    while k < n
        invariant
            n == weak@.len(),
            k <= n,
            views(weak@) == weak_endings(),
            lower@ == lowercase_of(strip_class(word@, 1)),
            forall|j: int| 0 <= j < k ==> weak_endings()[j] != lower@,
        decreases n - k,
    {
        if str_equal(lower.as_str(), weak[k]) {
            assert(weak_endings()[k as int] == lower@);
            return true;
        }
        k = k + 1;
    }
    false
}

/// The words stripped of list punctuation at their edges, empty ones left out.
pub open spec fn stripped_words(ws: Seq<Seq<char>>) -> Seq<Seq<char>>
    decreases ws.len(),
{
    if ws.len() == 0 {
        seq![]
    } else if strip_class(ws.last(), 0).len() == 0 {
        stripped_words(ws.drop_last())
    } else {
        stripped_words(ws.drop_last()).push(strip_class(ws.last(), 0))
    }
}

/// The words without the weak words at their end.
pub open spec fn drop_weak_tail(ws: Seq<Seq<char>>) -> Seq<Seq<char>>
    decreases ws.len(),
{
    if ws.len() > 0 && weak_ending(ws.last()) {
        drop_weak_tail(ws.drop_last())
    } else {
        ws
    }
}

/// A text made to end as a sentence: its words stripped of list punctuation, the weak words at
/// its end dropped, joined by spaces, without trailing list punctuation, and closed by a full
/// stop unless it already ends a sentence.
pub open spec fn trimmed_tail(text: Seq<char>) -> Seq<char> {
    let compact = strip_end_class(join(drop_weak_tail(stripped_words(words(text))), " "@), 0);
    if compact.len() > 0 && sentence_end(compact.last()) {
        compact
    } else {
        compact.push('.')
    }
}

/// Makes a text end as a sentence.
pub fn period_trim_incomplete_tail(text: &str) -> (r: String)
    ensures
        r@ == trimmed_tail(text@),
{
    let ws = split_words(text);
    let n = ws.len();
    let mut kept: Vec<String> = Vec::new();
    let mut i: usize = 0;
    while i < n
        invariant
            n == ws@.len(),
            i <= n,
            string_views(kept@) == stripped_words(string_views(ws@).take(i as int)),
        decreases n - i,
    {
        proof {
            assert(string_views(ws@).take(i + 1).drop_last() =~= string_views(ws@).take(i as int));
            assert(string_views(ws@).take(i + 1).last() == ws@[i as int]@);
        }
        let cs = chars_of(ws[i].as_str());
        let core = strip_class_chars(&cs, 0);
        if core.len() > 0 {
            let ghost prev = string_views(kept@);
            kept.push(string_from_chars(core.as_slice()));
            assert(string_views(kept@) =~= prev.push(strip_class(ws@[i as int]@, 0)));
        }
        i = i + 1;
    }
    proof {
        assert(string_views(ws@).take(n as int) =~= string_views(ws@));
    }
    let ghost all = string_views(kept@);
    while kept.len() > 0 && period_is_weak_sentence_ending(kept[kept.len() - 1].as_str())
        invariant
            drop_weak_tail(string_views(kept@)) == drop_weak_tail(all),
        decreases kept.len(),
    {
        let ghost before = string_views(kept@);
        kept.pop();
        assert(string_views(kept@) =~= before.drop_last());
    }
    assert(drop_weak_tail(string_views(kept@)) == string_views(kept@));
    let joined = join_strings(&kept, " ");
    let jc = chars_of(joined.as_str());
    let mut compact = strip_end_class_chars(&jc, 0);
    let m = compact.len();
    if !(m > 0 && (compact[m - 1] == '.' || compact[m - 1] == '!' || compact[m - 1] == '?')) {
        compact.push('.');
    }
    string_from_chars(compact.as_slice())
}

// ---------------------------------------------------------------------------------------------
// Compacting to a word budget
// ---------------------------------------------------------------------------------------------

/// How many whole sentences fit the budget, taken in order from the `k`-th.
pub open spec fn accepted_from(sents: Seq<Seq<char>>, max: nat, k: nat) -> nat
    decreases sents.len() - k,
{
    if k < sents.len() && word_count(join(sents.take((k + 1) as int), " "@)) <= max {
        accepted_from(sents, max, k + 1)
    } else {
        k
    }
}

/// A text compacted to at most `max` words: unchanged where it fits; else the whole sentences
/// that fit, in order; else its first words, made to end as a sentence.
pub open spec fn compacted(text: Seq<char>, max: nat) -> Seq<char> {
    if word_count(text) <= max {
        text
    } else {
        let sents = complete_sentences(text);
        let out = join(sents.take(accepted_from(sents, max, 0) as int), " "@);
        if !is_blank(out) {
            out
        } else {
            trimmed_tail(join(first_n(words(text), max), " "@))
        }
    }
}

/// Compacts a text to at most `max_words` words.
pub fn compact_period_words(text: &str, max_words: usize) -> (r: String)
    ensures
        r@ == compacted(text@, max_words as nat),
{
    if crate::text::count_words(text) <= max_words {
        return text.to_owned();
    }
    let sents = period_complete_sentences(text);
    let ghost ss = string_views(sents@);
    let n = sents.len();
    let mut out = String::new();
    let mut k: usize = 0;
    proof {
        assert(ss.take(0) =~= Seq::<Seq<char>>::empty());
    }
    while k < n
        invariant_except_break
            n == ss.len(),
            ss == string_views(sents@),
            k <= n,
            out@ == join(ss.take(k as int), " "@),
            accepted_from(ss, max_words as nat, k as nat) == accepted_from(ss, max_words as nat, 0),
        ensures
            out@ == join(ss.take(accepted_from(ss, max_words as nat, 0) as int), " "@),
        decreases n - k,
    {
        let mut candidate = out.clone();
        if k > 0 {
            candidate.append(" ");
        }
        candidate.append(sents[k].as_str());
        proof {
            assert(ss.take(k + 1).drop_last() =~= ss.take(k as int));
            assert(ss.take(k + 1).last() == ss[k as int]);
            if k == 0 {
                reveal_strlit("");
                assert(candidate@ =~= join(ss.take(1), " "@));
            } else {
                assert(candidate@ =~= join(ss.take(k + 1), " "@));
            }
        }
        if crate::text::count_words(candidate.as_str()) > max_words {
            break;
        }
        out = candidate;
        k = k + 1;
    }
    if !str_is_blank(out.as_str()) {
        return out;
    }
    let ws = split_words(text);
    let mut head: Vec<String> = Vec::new();
    let mut i: usize = 0;
    while i < ws.len() && i < max_words
        invariant
            i <= ws@.len(),
            i <= max_words,
            string_views(head@) == string_views(ws@).take(i as int),
        decreases ws@.len() - i,
    {
        let ghost prev = string_views(head@);
        head.push(ws[i].clone());
        assert(string_views(head@) =~= prev.push(ws@[i as int]@));
        assert(string_views(ws@).take(i + 1) =~= string_views(ws@).take(i as int).push(ws@[i as int]@));
        i = i + 1;
    }
    if i == ws.len() {
        assert(string_views(ws@).take(i as int) =~= string_views(ws@));
    }
    let joined = join_strings(&head, " ");
    period_trim_incomplete_tail(joined.as_str())
}

// ---------------------------------------------------------------------------------------------
// Appending a sentence once
// ---------------------------------------------------------------------------------------------

/// A text with a sentence appended: unchanged where the sentence is blank or already in it;
/// else the text, a space where the text is not blank and does not end with one, and the
/// trimmed sentence.
pub open spec fn with_sentence(text: Seq<char>, sentence: Seq<char>) -> Seq<char> {
    if is_blank(sentence) || contains(text, sentence) {
        text
    } else if !is_blank(text) && !(text.len() > 0 && text.last() == ' ') {
        text + seq![' '] + trim(sentence)
    } else {
        text + trim(sentence)
    }
}

/// Appends a sentence to a text unless it is blank or already there.
pub fn append_period_sentence(text: &mut String, sentence: &str)
    ensures
        final(text)@ == with_sentence(old(text)@, sentence@),
{
    if str_is_blank(sentence) || str_contains(text.as_str(), sentence) {
        return;
    }
    let cs = chars_of(text.as_str());
    let ends_with_space = cs.len() > 0 && cs[cs.len() - 1] == ' ';
    if !str_is_blank(text.as_str()) && !ends_with_space {
        text.append(" ");
        proof {
            reveal_strlit(" ");
        }
    }
    let trimmed = trim_str(sentence);
    text.append(trimmed.as_str());
}

/// Appends a sentence to a string value unless it is blank or already there; other values are
/// left as they are.
pub fn append_period_value_sentence(value: &mut JsonValue, sentence: &str)
    ensures
        match *old(value) {
            JsonValue::Str(t) => *final(value) matches JsonValue::Str(u) && u@ == with_sentence(t@, sentence@),
            _ => *final(value) == *old(value),
        },
{
    let updated = match value.as_str() {
        Some(t) => {
            let mut u = t.to_owned();
            append_period_sentence(&mut u, sentence);
            u
        },
        None => {
            return;
        },
    };
    *value = JsonValue::Str(updated);
}

// ---------------------------------------------------------------------------------------------
// Texts read from a day or a section
// ---------------------------------------------------------------------------------------------

/// The text of a day, empty where it has none.
pub fn period_public_day_text(day: &JsonValue, index: usize) -> (r: String)
    ensures
        r@ == str_or_empty(field_str(*day, "text"@)),
{
    let _ = index;
    owned_field(day, "text")
}

/// The focus of a day, empty where it has none.
pub fn period_public_focus_text(day: &JsonValue) -> (r: String)
    ensures
        r@ == str_or_empty(field_str(*day, "focus"@)),
{
    owned_field(day, "focus")
}

/// The advice of a day, empty where it has none.
pub fn period_public_day_advice(day: &JsonValue) -> (r: String)
    ensures
        r@ == str_or_empty(field_str(*day, "advice"@)),
{
    owned_field(day, "advice")
}

/// The text of a domain section, empty where it has none.
pub fn period_public_domain_text(section: &JsonValue) -> (r: String)
    ensures
        r@ == str_or_empty(field_str(*section, "text"@)),
{
    owned_field(section, "text")
}

fn owned_field(v: &JsonValue, key: &str) -> (r: String)
    ensures
        r@ == str_or_empty(field_str(*v, key@)),
{
    match v.field_str(key) {
        Some(t) => t.to_owned(),
        None => {
            proof {
                reveal_strlit("");
            }
            "".to_owned()
        },
    }
}

/// A focus turned into public text: the focus as it is.
pub fn naturalize_period_focus(text: &str) -> (r: String)
    ensures
        r@ == text@,
{
    text.to_owned()
}

/// A base text and a personalisation, both trimmed, joined by a space; either alone where the
/// other is blank.
pub open spec fn personalized(base: Seq<char>, personalization: Seq<char>) -> Seq<char> {
    let b = trim(base);
    let p = trim(personalization);
    if is_blank(base) && is_blank(personalization) {
        seq![]
    } else if is_blank(base) {
        p
    } else if is_blank(personalization) {
        b
    } else {
        b + seq![' '] + p
    }
}

/// Joins a base text and a personalisation.
pub fn ensure_period_personalization_text(base: &str, personalization: &str) -> (r: String)
    ensures
        r@ == personalized(base@, personalization@),
{
    let b_blank = str_is_blank(base);
    let p_blank = str_is_blank(personalization);
    if b_blank && p_blank {
        return String::new();
    }
    if b_blank {
        return trim_str(personalization);
    }
    if p_blank {
        return trim_str(base);
    }
    let mut out = trim_str(base);
    out.append(" ");
    proof {
        reveal_strlit(" ");
    }
    let p = trim_str(personalization);
    out.append(p.as_str());
    out
}

// ---------------------------------------------------------------------------------------------
// String arrays
// ---------------------------------------------------------------------------------------------

/// The non-blank strings among the items of an array, in order.
pub open spec fn nonblank_strings(items: Seq<JsonValue>) -> Seq<Seq<char>>
    decreases items.len(),
{
    if items.len() == 0 {
        seq![]
    } else {
        match json_str(items.last()) {
            Some(s) => if is_blank(s) {
                nonblank_strings(items.drop_last())
            } else {
                nonblank_strings(items.drop_last()).push(s)
            },
            None => nonblank_strings(items.drop_last()),
        }
    }
}

/// An array whose items are the given strings, in order.
pub open spec fn is_string_array(v: JsonValue, texts: Seq<Seq<char>>) -> bool {
    match json_arr(v) {
        Some(items) => items.len() == texts.len() && forall|i: int|
            0 <= i < items.len() ==> json_str(#[trigger] items[i]) == Some(texts[i]),
        None => false,
    }
}

/// The non-blank strings of an array value, as a new array; `None` where there is no array.
pub fn string_array_value(value: Option<&JsonValue>) -> (r: Option<JsonValue>)
    ensures
        match value {
            Some(v) => match json_arr(*v) {
                Some(items) => (r matches Some(a) && is_string_array(a, nonblank_strings(items))),
                None => r is None,
            },
            None => r is None,
        },
{
    let items = match value {
        Some(v) => match v.as_array() {
            Some(items) => items,
            None => {
                return None;
            },
        },
        None => {
            return None;
        },
    };
    let n = items.len();
    let mut out: Vec<JsonValue> = Vec::new();
    let ghost mut texts: Seq<Seq<char>> = seq![];
    let mut i: usize = 0;
    while i < n
        invariant
            n == items@.len(),
            i <= n,
            texts == nonblank_strings(items@.take(i as int)),
            out@.len() == texts.len(),
            forall|j: int| 0 <= j < out@.len() ==> json_str(#[trigger] out@[j]) == Some(texts[j]),
        decreases n - i,
    {
        proof {
            assert(items@.take(i + 1).drop_last() =~= items@.take(i as int));
            assert(items@.take(i + 1).last() == items@[i as int]);
        }
        match items[i].as_str() {
            Some(s) => {
                if !str_is_blank(s) {
                    out.push(JsonValue::Str(s.to_owned()));
                    proof {
                        texts = texts.push(s@);
                    }
                }
            },
            None => {},
        }
        i = i + 1;
    }
    proof {
        assert(items@.take(n as int) =~= items@);
    }
    Some(JsonValue::Array(out))
}

/// The non-blank strings of an array value, as a new array; `None` where there is no array or
/// no such string.
pub fn non_empty_string_array_value(value: Option<&JsonValue>) -> (r: Option<JsonValue>)
    ensures
        match value {
            Some(v) => match json_arr(*v) {
                Some(items) => if nonblank_strings(items).len() == 0 {
                    r is None
                } else {
                    (r matches Some(a) && is_string_array(a, nonblank_strings(items)))
                },
                None => r is None,
            },
            None => r is None,
        },
{
    let built = string_array_value(value);
    match built {
        Some(a) => {
            let empty = match a.as_array() {
                Some(items) => items.len() == 0,
                None => true,
            };
            if empty {
                None
            } else {
                Some(a)
            }
        },
        None => None,
    }
}

/// The keys whose strings are codes, dates or labels, never rewritten as prose.
pub open spec fn excluded_key(key: Option<Seq<char>>) -> bool {
    match key {
        Some(k) => {
            ||| k == "contract_version"@
            ||| k == "service_code"@
            ||| k == "date"@
            ||| k == "evidence_key"@
            ||| k == "evidence_keys"@
            ||| k == "label"@
            ||| k == "source_snapshot_keys"@
            ||| k == "quality"@
            ||| k == "period_resolution"@
            ||| k == "provider"@
            ||| k == "model"@
            ||| k == "period_contract"@
        },
        None => false,
    }
}

/// Whether the strings under a key are left out of the rewriting of repeated phrases.
pub fn period_repetition_normalization_excluded_key(key: Option<&str>) -> (r: bool)
    ensures
        r == excluded_key(
            match key {
                Some(k) => Some(k@),
                None => None,
            },
        ),
{
    match key {
        Some(k) => str_equal(k, "contract_version") || str_equal(k, "service_code") || str_equal(k, "date")
            || str_equal(k, "evidence_key") || str_equal(k, "evidence_keys") || str_equal(k, "label")
            || str_equal(k, "source_snapshot_keys") || str_equal(k, "quality") || str_equal(k, "period_resolution")
            || str_equal(k, "provider") || str_equal(k, "model") || str_equal(k, "period_contract"),
        None => false,
    }
}

/// A sentence without surrounding whitespace is appended at most once: appending it a second
/// time leaves the text as the first append made it.
pub proof fn law_append_sentence_once(text: Seq<char>, sentence: Seq<char>)
    requires
        trim(sentence) == sentence,
    ensures
        with_sentence(with_sentence(text, sentence), sentence) == with_sentence(text, sentence),
{
    let once = with_sentence(text, sentence);
    if !(is_blank(sentence) || contains(text, sentence)) {
        let head = if !is_blank(text) && !(text.len() > 0 && text.last() == ' ') {
            text + seq![' ']
        } else {
            text
        };
        assert(once == head + sentence);
        assert(once.subrange(head.len() as int, (head.len() + sentence.len()) as int) =~= sentence);
        assert(crate::text::occurs_at(once, sentence, head.len() as int));
        assert(contains(once, sentence));
    }
}

} // verus!
