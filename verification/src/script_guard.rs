//! The script guard of French readings: characters outside the Latin script that French uses
//! (such as Devanagari mixed into a French text) are reported, or removed.
use vstd::prelude::*;

use crate::period_payload::{join, join_strings};
use crate::reading::NatalReading;
use crate::text::{
    chars_of, contains, decimal, decimal_string, hex4, hex4_string, is_whitespace, is_ws,
    lowercase_of, split_words, str_contains, str_equal, string_from_chars, string_views, to_lowercase,
    trim, trim_str, words,
};

verus! {

/// The typographic punctuation of French texts beyond ASCII.
pub open spec fn is_french_punct(c: char) -> bool {
    ||| c == '«'
    ||| c == '»'
    ||| c == '—'
    ||| c == '–'
    ||| c == '…'
    ||| c == '’'
    ||| c == '“'
    ||| c == '”'
    ||| c == '•'
    ||| c == '·'
    ||| c == '\u{a0}'
    ||| c == '\u{202f}'
}

/// A character that a French text may hold: whitespace, ASCII, French punctuation, or a letter
/// of the Latin-1 supplement and Latin Extended-A and B blocks.
pub open spec fn french_allowed(c: char) -> bool {
    ||| is_ws(c)
    ||| ('0' <= c && c <= '9')
    ||| is_french_punct(c)
    ||| (c as u32) < 128
    ||| ('\u{c0}' <= c && c <= '\u{24f}')
}

fn is_french_punctuation(c: char) -> (r: bool)
    ensures
        r == is_french_punct(c),
{
    c == '«' || c == '»' || c == '—' || c == '–' || c == '…' || c == '’' || c == '“' || c == '”'
        || c == '•' || c == '·' || c == '\u{a0}' || c == '\u{202f}'
}

/// Whether a French text may hold the character.
pub fn is_french_allowed(c: char) -> (r: bool)
    ensures
        r == french_allowed(c),
{
    is_whitespace(c) || ('0' <= c && c <= '9') || is_french_punctuation(c) || (c as u32) < 128 || (
    '\u{c0}' <= c && c <= '\u{24f}')
}

/// The first character of a text that a French text may not hold.
pub open spec fn first_foreign(s: Seq<char>) -> Option<char>
    decreases s.len(),
{
    if s.len() == 0 {
        None
    } else if !french_allowed(s[0]) {
        Some(s[0])
    } else {
        first_foreign(s.drop_first())
    }
}

/// The first character that a French text may not hold.
pub fn first_unexpected_french_script_char(text: &str) -> (r: Option<char>)
    ensures
        r == first_foreign(text@),
{
    let cs = chars_of(text);
    let n = cs.len();
    let mut i: usize = 0;
    proof {
        assert(cs@.skip(0) =~= cs@);
    }
    while i < n
        invariant
            n == cs@.len(),
            cs@ == text@,
            i <= n,
            first_foreign(cs@.skip(i as int)) == first_foreign(cs@),
        decreases n - i,
    {
        proof {
            assert(cs@.skip(i as int)[0] == cs@[i as int]);
            assert(cs@.skip(i as int).drop_first() =~= cs@.skip(i + 1));
        }
        if !is_french_allowed(cs[i]) {
            return Some(cs[i]);
        }
        i = i + 1;
    }
    proof {
        assert(cs@.skip(n as int).len() == 0);
    }
    None
}

/// The report of a foreign character in a field.
pub open spec fn script_violation(field: Seq<char>, lang: Seq<char>, c: char) -> Seq<char> {
    "unexpected script in "@ + field + " (language="@ + lang + "): '"@ + seq![c] + "' U+"@ + hex4(
        (c as u32) as nat,
    )
}

/// The report of the field, if its text holds a foreign character.
pub open spec fn field_violations(field: Seq<char>, text: Seq<char>, lang: Seq<char>) -> Seq<Seq<char>> {
    match first_foreign(text) {
        Some(c) => seq![script_violation(field, lang, c)],
        None => seq![],
    }
}

fn check_field(out: &mut Vec<String>, field: &str, text: &str, lang: &str)
    ensures
        string_views(final(out)@) == string_views(old(out)@) + field_violations(field@, text@, lang@),
{
    match first_unexpected_french_script_char(text) {
        Some(c) => {
            let mut m = "unexpected script in ".to_owned();
            m.append(field);
            m.append(" (language=");
            m.append(lang);
            m.append("): '");
            let one = [c];
            let cstr = string_from_chars(&one);
            m.append(cstr.as_str());
            m.append("' U+");
            let code = hex4_string(c as u32);
            m.append(code.as_str());
            proof {
                assert(one@ =~= seq![c]);
            }
            proof {
                assert(m@ =~= script_violation(field@, lang@, c));
            }
            out.push(m);
            proof {
                assert(string_views(out@) =~= string_views(old(out)@) + field_violations(
                    field@,
                    text@,
                    lang@,
                ));
            }
        },
        None => {
            assert(string_views(out@) =~= string_views(old(out)@) + field_violations(
                field@,
                text@,
                lang@,
            ));
        },
    }
}

/// `chapters[<i>].<leaf>`.
pub open spec fn chapter_field(i: nat, leaf: Seq<char>) -> Seq<char> {
    "chapters["@ + decimal(i) + "]."@ + leaf
}

fn chapter_field_name(i: usize, leaf: &str) -> (r: String)
    ensures
        r@ == chapter_field(i as nat, leaf@),
{
    let mut m = "chapters[".to_owned();
    let digits = decimal_string(i);
    m.append(digits.as_str());
    m.append("].");
    m.append(leaf);
    m
}

/// The reports of the chapters' titles and bodies, chapter after chapter.
pub open spec fn chapters_violations(reading: NatalReading, n: nat, lang: Seq<char>) -> Seq<Seq<char>>
    decreases n,
{
    if n == 0 {
        seq![]
    } else {
        let i = (n - 1) as nat;
        chapters_violations(reading, i, lang) + field_violations(
            chapter_field(i, "title"@),
            reading.chapters@[i as int].title@,
            lang,
        ) + field_violations(chapter_field(i, "body"@), reading.chapters@[i as int].body@, lang)
    }
}

/// The script reports of a reading: none unless its language, trimmed and lower-cased, is
/// French; then one per field whose text holds a foreign character.
pub open spec fn reading_script_violations(language: Seq<char>, reading: NatalReading) -> Seq<Seq<char>> {
    let lang = lowercase_of(trim(language));
    if lang != "fr"@ {
        seq![]
    } else {
        field_violations("summary.title"@, reading.summary_title@, lang) + field_violations(
            "summary.short_text"@,
            reading.summary_short_text@,
            lang,
        ) + field_violations("legal.disclaimer"@, reading.disclaimer@, lang) + chapters_violations(
            reading,
            reading.chapters@.len(),
            lang,
        )
    }
}

/// Reports each field of a French reading that holds a character foreign to the French script.
pub fn script_violations_for_reading(language: &str, reading: &NatalReading) -> (r: Vec<String>)
    ensures
        string_views(r@) == reading_script_violations(language@, *reading),
{
    let trimmed = trim_str(language);
    let lang = to_lowercase(trimmed.as_str());
    let mut violations: Vec<String> = Vec::new();
    if !str_equal(lang.as_str(), "fr") {
        return violations;
    }
    check_field(&mut violations, "summary.title", reading.summary_title.as_str(), lang.as_str());
    check_field(
        &mut violations,
        "summary.short_text",
        reading.summary_short_text.as_str(),
        lang.as_str(),
    );
    check_field(&mut violations, "legal.disclaimer", reading.disclaimer.as_str(), lang.as_str());
    let ghost head = string_views(violations@);
    let n = reading.chapters.len();
    let mut i: usize = 0;
    while i < n
        invariant
            n == reading.chapters@.len(),
            i <= n,
            lang@ == lowercase_of(trim(language@)),
            string_views(violations@) == head + chapters_violations(*reading, i as nat, lang@),
        decreases n - i,
    {
        let title_field = chapter_field_name(i, "title");
        check_field(&mut violations, title_field.as_str(), reading.chapters[i].title.as_str(), lang.as_str());
        let body_field = chapter_field_name(i, "body");
        check_field(&mut violations, body_field.as_str(), reading.chapters[i].body.as_str(), lang.as_str());
        proof {
            assert(string_views(violations@) =~= head + chapters_violations(
                *reading,
                (i + 1) as nat,
                lang@,
            ));
        }
        i = i + 1;
    }
    violations
}

/// The characters a French text may hold, in order.
pub open spec fn keep_french(s: Seq<char>) -> Seq<char>
    decreases s.len(),
{
    if s.len() == 0 {
        s
    } else if french_allowed(s.last()) {
        keep_french(s.drop_last()).push(s.last())
    } else {
        keep_french(s.drop_last())
    }
}

/// The words of a text joined by single spaces.
pub open spec fn collapse_ws(s: Seq<char>) -> Seq<char> {
    join(words(s), " "@)
}

/// The sanitized text and whether sanitizing changed it.
pub open spec fn french_sanitized(text: Seq<char>) -> (Seq<char>, bool) {
    let kept = keep_french(text);
    let collapsed = collapse_ws(kept);
    (collapsed, kept.len() < text.len() || collapsed != text)
}

proof fn lemma_keep_french_len(s: Seq<char>)
    ensures
        keep_french(s).len() <= s.len(),
    decreases s.len(),
{
    if s.len() > 0 {
        lemma_keep_french_len(s.drop_last());
    }
}

/// Removes the characters foreign to the French script and collapses whitespace runs into
/// single spaces; the flag says whether the text changed.
pub fn sanitize_text_for_french_script(text: &str) -> (r: (String, bool))
    ensures
        r.0@ == french_sanitized(text@).0,
        r.1 == french_sanitized(text@).1,
{
    let cs = chars_of(text);
    let n = cs.len();
    let mut kept: Vec<char> = Vec::new();
    let mut removed = false;
    let mut i: usize = 0;
    while i < n
        invariant
            n == cs@.len(),
            cs@ == text@,
            i <= n,
            kept@ == keep_french(cs@.take(i as int)),
            removed == (kept@.len() < i),
            kept@.len() <= i,
        decreases n - i,
    {
        proof {
            assert(cs@.take(i + 1).drop_last() =~= cs@.take(i as int));
            assert(cs@.take(i + 1).last() == cs@[i as int]);
        }
        if is_french_allowed(cs[i]) {
            kept.push(cs[i]);
        } else {
            removed = true;
        }
        i = i + 1;
    }
    proof {
        assert(cs@.take(n as int) =~= cs@);
    }
    let kept_text = string_from_chars(kept.as_slice());
    let ws = split_words(kept_text.as_str());
    let collapsed = join_strings(&ws, " ");
    let changed = removed || !str_equal(collapsed.as_str(), text);
    (collapsed, changed)
}

/// Whether there is at least one violation and every one is a script violation.
pub open spec fn script_only(vs: Seq<Seq<char>>) -> bool {
    vs.len() > 0 && forall|i: int| 0 <= i < vs.len() ==> contains(#[trigger] vs[i], "unexpected script in"@)
}

/// Whether the violations are all, and at least one, script violations.
pub fn violations_are_script_only(violations: &[String]) -> (r: bool)
    ensures
        r == script_only(string_views(violations@)),
{
    let n = violations.len();
    if n == 0 {
        return false;
    }
    let mut i: usize = 0;
    while i < n
        invariant
            n == violations@.len(),
            i <= n,
            forall|j: int| 0 <= j < i ==> contains(#[trigger] string_views(violations@)[j], "unexpected script in"@),
        decreases n - i,
    {
        if !str_contains(violations[i].as_str(), "unexpected script in") {
            assert(!contains(string_views(violations@)[i as int], "unexpected script in"@));
            return false;
        }
        i = i + 1;
    }
    true
}

/// Every word is non-empty and holds no whitespace.
pub open spec fn solid_words(ws: Seq<Seq<char>>) -> bool {
    forall|i: int| 0 <= i < ws.len() ==> (#[trigger] ws[i]).len() > 0 && forall|j: int|
        0 <= j < ws[i].len() ==> !is_ws(#[trigger] ws[i][j])
}

proof fn lemma_words_solid(s: Seq<char>)
    ensures
        solid_words(words(s)),
    decreases s.len(),
{
    if s.len() > 0 {
        lemma_words_solid(s.drop_last());
        let rest = words(s.drop_last());
        let c = s.last();
        if !is_ws(c) {
            if s.len() >= 2 && !is_ws(s[s.len() - 2]) {
                lemma_words_nonempty_local(s.drop_last());
                let w = words(s);
                assert forall|i: int| 0 <= i < w.len() implies (#[trigger] w[i]).len() > 0 && forall|j: int|
                    0 <= j < w[i].len() ==> !is_ws(#[trigger] w[i][j]) by {
                    if i < rest.len() - 1 {
                        assert(w[i] == rest[i]);
                    } else {
                        assert(w[i] == rest.last().push(c));
                        assert forall|j: int| 0 <= j < w[i].len() implies !is_ws(#[trigger] w[i][j]) by {
                            if j < rest.last().len() {
                                assert(w[i][j] == rest[rest.len() - 1][j]);
                            }
                        }
                    }
                }
            } else {
                let w = words(s);
                assert forall|i: int| 0 <= i < w.len() implies (#[trigger] w[i]).len() > 0 && forall|j: int|
                    0 <= j < w[i].len() ==> !is_ws(#[trigger] w[i][j]) by {
                    if i < rest.len() {
                        assert(w[i] == rest[i]);
                    }
                }
            }
        }
    }
}

proof fn lemma_words_nonempty_local(s: Seq<char>)
    requires
        s.len() > 0,
        !is_ws(s.last()),
    ensures
        words(s).len() > 0,
    decreases s.len(),
{
    if s.len() >= 2 && !is_ws(s[s.len() - 2]) {
        lemma_words_nonempty_local(s.drop_last());
    }
}

/// The words of `p + w`, where `p` is empty or ends with whitespace and `w` is a non-empty run
/// of non-whitespace characters, are those of `p` and then `w`.
proof fn lemma_words_append_word(p: Seq<char>, w: Seq<char>)
    requires
        p.len() == 0 || is_ws(p.last()),
        w.len() > 0,
        forall|j: int| 0 <= j < w.len() ==> !is_ws(#[trigger] w[j]),
    ensures
        words(p + w) == words(p).push(w),
    decreases w.len(),
{
    let s = p + w;
    assert(s.last() == w.last());
    if w.len() == 1 {
        assert(s.drop_last() =~= p);
        if s.len() >= 2 {
            assert(s[s.len() - 2] == p.last());
        }
        assert(w =~= seq![w[0]]);
    } else {
        let w2 = w.drop_last();
        assert(s.drop_last() =~= p + w2);
        lemma_words_append_word(p, w2);
        assert(s[s.len() - 2] == w[w.len() - 2]);
        assert(words(p).push(w2).last() == w2);
        assert(w2.push(w.last()) =~= w);
        assert(words(p).push(w2).update(words(p).len() as int, w) =~= words(p).push(w));
    }
}

proof fn lemma_words_append_space(p: Seq<char>)
    ensures
        words(p + seq![' ']) == words(p),
{
    assert((p + seq![' ']).drop_last() =~= p);
    assert((p + seq![' ']).last() == ' ');
}

/// Joining solid words with single spaces and splitting again gives the same words.
proof fn lemma_words_of_join(ws: Seq<Seq<char>>)
    requires
        solid_words(ws),
    ensures
        words(join(ws, " "@)) == ws,
    decreases ws.len(),
{
    reveal_strlit(" ");
    assert(" "@ =~= seq![' ']);
    if ws.len() == 0 {
    } else if ws.len() == 1 {
        assert(ws[0].len() > 0);
        lemma_words_append_word(Seq::empty(), ws[0]);
        assert(Seq::<char>::empty() + ws[0] =~= ws[0]);
        assert(words(Seq::<char>::empty()).push(ws[0]) =~= ws);
    } else {
        let rest = ws.drop_last();
        assert(solid_words(rest)) by {
            assert forall|i: int| 0 <= i < rest.len() implies (#[trigger] rest[i]).len() > 0 && forall|j: int|
                0 <= j < rest[i].len() ==> !is_ws(#[trigger] rest[i][j]) by {
                assert(rest[i] == ws[i]);
            }
        }
        lemma_words_of_join(rest);
        let p = join(rest, " "@) + " "@;
        lemma_words_append_space(join(rest, " "@));
        assert(ws.last() == ws[ws.len() - 1]);
        lemma_words_append_word(p, ws.last());
        assert(join(ws, " "@) == p + ws.last());
        assert(rest.push(ws.last()) =~= ws);
    }
}

proof fn lemma_join_chars_allowed(ws: Seq<Seq<char>>)
    requires
        forall|i: int, j: int| 0 <= i < ws.len() && 0 <= j < ws[i].len() ==> french_allowed(#[trigger] ws[i][j]),
    ensures
        forall|k: int| 0 <= k < join(ws, " "@).len() ==> french_allowed(#[trigger] join(ws, " "@)[k]),
    decreases ws.len(),
{
    reveal_strlit(" ");
    assert(" "@ =~= seq![' ']);
    if ws.len() == 1 {
        assert forall|k: int| 0 <= k < join(ws, " "@).len() implies french_allowed(#[trigger] join(ws, " "@)[k]) by {
            assert(join(ws, " "@)[k] == ws[0][k]);
        }
    } else if ws.len() > 1 {
        let rest = ws.drop_last();
        lemma_join_chars_allowed(rest);
        let a = join(rest, " "@);
        assert forall|k: int| 0 <= k < join(ws, " "@).len() implies french_allowed(#[trigger] join(ws, " "@)[k]) by {
            let full = a + " "@ + ws.last();
            assert(join(ws, " "@) == full);
            if k < a.len() {
                assert(full[k] == a[k]);
            } else if k == a.len() {
                assert(full[k] == ' ');
            } else {
                assert(full[k] == ws[ws.len() - 1][k - a.len() - 1]);
            }
        }
    }
}

proof fn lemma_keep_french_allowed(s: Seq<char>)
    ensures
        forall|k: int| 0 <= k < keep_french(s).len() ==> french_allowed(#[trigger] keep_french(s)[k]),
    decreases s.len(),
{
    if s.len() > 0 {
        lemma_keep_french_allowed(s.drop_last());
        let prev = keep_french(s.drop_last());
        assert forall|k: int| 0 <= k < keep_french(s).len() implies french_allowed(#[trigger] keep_french(s)[k]) by {
            if k < prev.len() {
                assert(keep_french(s)[k] == prev[k]);
            }
        }
    }
}

proof fn lemma_keep_french_identity(s: Seq<char>)
    requires
        forall|k: int| 0 <= k < s.len() ==> french_allowed(#[trigger] s[k]),
    ensures
        keep_french(s) == s,
    decreases s.len(),
{
    if s.len() > 0 {
        lemma_keep_french_identity(s.drop_last());
        assert(s.drop_last().push(s.last()) =~= s);
    }
}

proof fn lemma_words_chars_from(s: Seq<char>, p: spec_fn(char) -> bool)
    requires
        forall|k: int| 0 <= k < s.len() ==> p(#[trigger] s[k]),
    ensures
        forall|i: int, j: int| 0 <= i < words(s).len() && 0 <= j < words(s)[i].len() ==> p(#[trigger] words(s)[i][j]),
    decreases s.len(),
{
    if s.len() > 0 {
        lemma_words_chars_from(s.drop_last(), p);
        let rest = words(s.drop_last());
        let w = words(s);
        let c = s.last();
        assert(p(c));
        assert forall|i: int, j: int| 0 <= i < w.len() && 0 <= j < w[i].len() implies p(#[trigger] w[i][j]) by {
            if !is_ws(c) && s.len() >= 2 && !is_ws(s[s.len() - 2]) {
                lemma_words_nonempty_local(s.drop_last());
                if i < rest.len() - 1 {
                    assert(w[i] == rest[i]);
                } else {
                    assert(w[i] == rest.last().push(c));
                    if j < rest.last().len() {
                        assert(w[i][j] == rest[rest.len() - 1][j]);
                    }
                }
            } else if !is_ws(c) {
                if i < rest.len() {
                    assert(w[i] == rest[i]);
                } else {
                    assert(w[i] == seq![c]);
                }
            } else {
                assert(w[i] == rest[i]);
            }
        }
    }
}

/// Sanitizing is idempotent: a sanitized text comes back unchanged, and reported as unchanged.
pub proof fn law_sanitize_idempotent(text: Seq<char>)
    ensures
        french_sanitized(french_sanitized(text).0) == (french_sanitized(text).0, false),
{
    let kept = keep_french(text);
    let c = collapse_ws(kept);
    lemma_keep_french_allowed(text);
    lemma_words_solid(kept);
    lemma_words_chars_from(kept, |ch: char| french_allowed(ch));
    lemma_join_chars_allowed(words(kept));
    lemma_keep_french_identity(c);
    lemma_words_of_join(words(kept));
    assert(collapse_ws(c) == c);
}

/// A sanitized text holds only characters that a French text may hold, and no whitespace run
/// or edge whitespace.
pub proof fn law_sanitized_text_is_french(text: Seq<char>)
    ensures
        forall|k: int| 0 <= k < french_sanitized(text).0.len() ==> french_allowed(#[trigger] french_sanitized(text).0[k]),
        words(french_sanitized(text).0) == words(keep_french(text)),
{
    let kept = keep_french(text);
    lemma_keep_french_allowed(text);
    lemma_words_solid(kept);
    lemma_words_chars_from(kept, |ch: char| french_allowed(ch));
    lemma_join_chars_allowed(words(kept));
    lemma_words_of_join(words(kept));
}

/// A character a French text holds as a matter of course: a letter of the Latin-1 supplement or
/// of the Latin Extended-A and B blocks (U+00C0 to U+024F, such as `é`, `ç`, `œ`, `Œ`), ASCII,
/// whitespace or French punctuation.
pub open spec fn plain_french_char(c: char) -> bool {
    ||| (c >= '\u{c0}' && c <= '\u{24f}')
    ||| (c as u32) < 128
    ||| is_ws(c)
    ||| is_french_punct(c)
}

/// Every letter from U+00C0 to U+024F, ASCII, whitespace and French punctuation belongs to a
/// French text: a text made only of them holds no foreign character, and sanitizing keeps every
/// one of its characters (it only collapses its whitespace).
pub proof fn law_latin_letters_are_french(text: Seq<char>)
    requires
        forall|i: int| 0 <= i < text.len() ==> plain_french_char(#[trigger] text[i]),
    ensures
        first_foreign(text) is None,
        keep_french(text) == text,
        french_sanitized(text).0 == collapse_ws(text),
    decreases text.len(),
{
    if text.len() > 0 {
        assert(plain_french_char(text[0]));
        assert forall|i: int| 0 <= i < text.drop_first().len() implies plain_french_char(#[trigger] text.drop_first()[i]) by {
            assert(text.drop_first()[i] == text[i + 1]);
        }
        law_latin_letters_are_french(text.drop_first());
        lemma_keep_all_allowed(text);
    }
}

proof fn lemma_keep_all_allowed(text: Seq<char>)
    requires
        forall|i: int| 0 <= i < text.len() ==> plain_french_char(#[trigger] text[i]),
    ensures
        keep_french(text) == text,
    decreases text.len(),
{
    if text.len() > 0 {
        assert(plain_french_char(text[text.len() - 1]));
        assert forall|i: int| 0 <= i < text.drop_last().len() implies plain_french_char(#[trigger] text.drop_last()[i]) by {
            assert(text.drop_last()[i] == text[i]);
        }
        lemma_keep_all_allowed(text.drop_last());
        assert(text.drop_last().push(text.last()) =~= text);
    }
}

} // verus!
