//! The public text of a seven-day reading and its non-blocking editorial audit: word counts per
//! section, the seven-dailies shape warning and the word-target warnings.
use vstd::prelude::*;

use crate::error::{GenerationError, err_code, quality_error, detail_str};
use crate::json::{JsonEntry, JsonValue, field_arr, field_str, json_at, json_str, opt_view};
use crate::period_metadata::{
    effective_min_words, find_profile_row, from_fake_provider, period_effective_min_word_count,
    period_word_limits_for_request, request_word_limits,
};
use crate::period_payload::{json_walk, views};
use crate::quality::holds_any;
use crate::text::{
    chars_of, contains, is_alphabetic, unicode_alphabetic, count_words, lowercase_of, split_words, str_contains, string_views,
    to_lowercase, word_count, words,
};

verus! {


// ---------------------------------------------------------------------------------------------
// Public text
// ---------------------------------------------------------------------------------------------

/// The strings found at each path, in order.
pub open spec fn path_texts(v: JsonValue, paths: Seq<Seq<Seq<char>>>) -> Seq<Seq<char>>
    decreases paths.len(),
{
    if paths.len() == 0 {
        seq![]
    } else {
        path_texts(v, paths.drop_last()) + match json_walk(v, paths.last()) {
            Some(w) => match json_str(w) {
                Some(t) => seq![t],
                None => seq![],
            },
            None => seq![],
        }
    }
}

/// The strings found under each key of a value, in order.
pub open spec fn key_texts(v: JsonValue, keys: Seq<Seq<char>>) -> Seq<Seq<char>>
    decreases keys.len(),
{
    if keys.len() == 0 {
        seq![]
    } else {
        key_texts(v, keys.drop_last()) + match field_str(v, keys.last()) {
            Some(t) => seq![t],
            None => seq![],
        }
    }
}

/// The strings found under each key of each item, item after item.
pub open spec fn items_texts(items: Seq<JsonValue>, keys: Seq<Seq<char>>) -> Seq<Seq<char>>
    decreases items.len(),
{
    if items.len() == 0 {
        seq![]
    } else {
        items_texts(items.drop_last(), keys) + key_texts(items.last(), keys)
    }
}

/// The items of an array field, none where it is no array.
pub open spec fn array_items(v: JsonValue, field: Seq<char>) -> Seq<JsonValue> {
    match field_arr(v, field) {
        Some(items) => items,
        None => seq![],
    }
}

/// The strings of the items of each array field, field after field.
pub open spec fn fields_texts(v: JsonValue, fields: Seq<Seq<char>>, keys: Seq<Seq<char>>) -> Seq<Seq<char>>
    decreases fields.len(),
{
    if fields.len() == 0 {
        seq![]
    } else {
        fields_texts(v, fields.drop_last(), keys) + items_texts(array_items(v, fields.last()), keys)
    }
}

/// Each text followed by a newline.
pub open spec fn lines(texts: Seq<Seq<char>>) -> Seq<char>
    decreases texts.len(),
{
    if texts.len() == 0 {
        seq![]
    } else {
        lines(texts.drop_last()) + texts.last() + seq!['\n']
    }
}

/// The paths of the public texts of the overview, advice and strategy.
pub open spec fn public_text_paths() -> Seq<Seq<Seq<char>>> {
    seq![
        seq!["week_overview"@, "title"@],
        seq!["week_overview"@, "text"@],
        seq!["week_overview"@, "trajectory"@],
        seq!["advice"@, "main"@],
        seq!["advice"@, "best_use"@],
        seq!["advice"@, "avoid"@],
        seq!["strategy"@, "title"@],
        seq!["strategy"@, "text"@],
        seq!["strategy"@, "best_use"@],
        seq!["strategy"@, "recovery"@],
    ]
}

/// The array fields whose items carry public text.
pub open spec fn public_item_fields() -> Seq<Seq<char>> {
    seq![
        "key_days"@,
        "best_days"@,
        "watch_days"@,
        "daily_timeline"@,
        "domain_sections"@,
        "best_windows"@,
        "watch_windows"@,
    ]
}

/// The keys of the public texts of an item.
pub open spec fn public_item_keys() -> Seq<Seq<char>> {
    seq![
        "title"@,
        "reason"@,
        "watch_point"@,
        "theme"@,
        "tone"@,
        "domain"@,
        "text"@,
        "label"@,
        "summary"@,
        "advice"@,
    ]
}

/// The public text of a response: every public string, each followed by a newline.
pub open spec fn public_text_of(response: JsonValue) -> Seq<char> {
    lines(path_texts(response, public_text_paths()) + fields_texts(response, public_item_fields(), public_item_keys()))
}

proof fn lemma_lines_concat(a: Seq<Seq<char>>, b: Seq<Seq<char>>)
    ensures
        lines(a + b) == lines(a) + lines(b),
    decreases b.len(),
{
    if b.len() == 0 {
        assert(a + b =~= a);
    } else {
        assert((a + b).drop_last() =~= a + b.drop_last());
        assert((a + b).last() == b.last());
        lemma_lines_concat(a, b.drop_last());
    }
}

proof fn lemma_lines_one(t: Seq<char>)
    ensures
        lines(seq![t]) == t + seq!['\n'],
{
    assert(seq![t].drop_last() =~= Seq::<Seq<char>>::empty());
    assert(lines(Seq::<Seq<char>>::empty()) == Seq::<char>::empty());
    assert(Seq::<char>::empty() + t =~= t);
}

pub(crate) fn walk_path<'a>(v: &'a JsonValue, path: &[&str]) -> (r: Option<&'a JsonValue>)
    ensures
        crate::json::opt_deref(r) == json_walk(*v, views(path@)),
{
    let n = path.len();
    let mut cursor: &JsonValue = v;
    let mut i: usize = 0;
    proof {
        assert(views(path@).skip(0) =~= views(path@));
    }
    while i < n
        invariant
            n == path@.len(),
            i <= n,
            json_walk(*v, views(path@)) == json_walk(*cursor, views(path@).skip(i as int)),
        decreases n - i,
    {
        proof {
            assert(views(path@).skip(i as int)[0] == path@[i as int]@);
            assert(views(path@).skip(i as int).drop_first() =~= views(path@).skip(i + 1));
        }
        match cursor.get(path[i]) {
            Some(next) => {
                cursor = next;
            },
            None => {
                return None;
            },
        }
        i = i + 1;
    }
    proof {
        assert(views(path@).skip(n as int) =~= Seq::<Seq<char>>::empty());
    }
    Some(cursor)
}

/// Appends `text` and a newline.
fn push_line(out: &mut String, text: &str)
    ensures
        final(out)@ == old(out)@ + text@ + seq!['\n'],
{
    out.append(text);
    out.append("\n");
    proof {
        reveal_strlit("\n");
        assert("\n"@ =~= seq!['\n']);
    }
}

fn push_key_texts(out: &mut String, item: &JsonValue, keys: &[&str])
    ensures
        final(out)@ == old(out)@ + lines(key_texts(*item, views(keys@))),
{
    let n = keys.len();
    let mut i: usize = 0;
    proof {
        assert(views(keys@).take(0) =~= Seq::<Seq<char>>::empty());
        assert(old(out)@ + lines(key_texts(*item, views(keys@).take(0))) =~= old(out)@);
    }
    while i < n
        invariant
            n == keys@.len(),
            i <= n,
            out@ == old(out)@ + lines(key_texts(*item, views(keys@).take(i as int))),
        decreases n - i,
    {
        let ghost prev = key_texts(*item, views(keys@).take(i as int));
        proof {
            assert(views(keys@).take(i + 1).drop_last() =~= views(keys@).take(i as int));
            assert(views(keys@).take(i + 1).last() == keys@[i as int]@);
        }
        match item.field_str(keys[i]) {
            Some(t) => {
                push_line(out, t);
                proof {
                    lemma_lines_concat(prev, seq![t@]);
                    lemma_lines_one(t@);
                    assert(key_texts(*item, views(keys@).take(i + 1)) == prev + seq![t@]);
                }
            },
            None => {
                assert(key_texts(*item, views(keys@).take(i + 1)) =~= prev);
            },
        }
        i = i + 1;
    }
    proof {
        assert(views(keys@).take(n as int) =~= views(keys@));
    }
}

fn push_items_texts(out: &mut String, items: &Vec<JsonValue>, keys: &[&str])
    ensures
        final(out)@ == old(out)@ + lines(items_texts(items@, views(keys@))),
{
    let n = items.len();
    let mut i: usize = 0;
    proof {
        assert(items@.take(0).len() == 0);
        assert(old(out)@ + lines(items_texts(items@.take(0), views(keys@))) =~= old(out)@);
    }
    while i < n
        invariant
            n == items@.len(),
            i <= n,
            out@ == old(out)@ + lines(items_texts(items@.take(i as int), views(keys@))),
        decreases n - i,
    {
        let ghost prev = items_texts(items@.take(i as int), views(keys@));
        let ghost before = out@;
        push_key_texts(out, &items[i], keys);
        proof {
            assert(items@.take(i + 1).drop_last() =~= items@.take(i as int));
            assert(items@.take(i + 1).last() == items@[i as int]);
            lemma_lines_concat(prev, key_texts(items@[i as int], views(keys@)));
            assert(out@ =~= old(out)@ + lines(items_texts(items@.take(i + 1), views(keys@))));
        }
        i = i + 1;
    }
    proof {
        assert(items@.take(n as int) =~= items@);
    }
}

/// The public text of a response: the overview, advice and strategy texts, then the public
/// texts of the items of each array section, each followed by a newline.
pub fn collect_period_v2_public_text(response: &JsonValue) -> (r: String)
    ensures
        r@ == public_text_of(*response),
{
    let mut out = String::new();
    let p0 = ["week_overview", "title"];
    let p1 = ["week_overview", "text"];
    let p2 = ["week_overview", "trajectory"];
    let p3 = ["advice", "main"];
    let p4 = ["advice", "best_use"];
    let p5 = ["advice", "avoid"];
    let p6 = ["strategy", "title"];
    let p7 = ["strategy", "text"];
    let p8 = ["strategy", "best_use"];
    let p9 = ["strategy", "recovery"];
    let paths: [&[&str]; 10] = [&p0, &p1, &p2, &p3, &p4, &p5, &p6, &p7, &p8, &p9];
    let ghost specs = public_text_paths();
    proof {
        assert(views(p0@) =~= specs[0]);
        assert(views(p1@) =~= specs[1]);
        assert(views(p2@) =~= specs[2]);
        assert(views(p3@) =~= specs[3]);
        assert(views(p4@) =~= specs[4]);
        assert(views(p5@) =~= specs[5]);
        assert(views(p6@) =~= specs[6]);
        assert(views(p7@) =~= specs[7]);
        assert(views(p8@) =~= specs[8]);
        assert(views(p9@) =~= specs[9]);
        assert(out@ =~= lines(path_texts(*response, specs.take(0))));
    }
    let mut i: usize = 0;
    while i < 10
        invariant
            i <= 10,
            specs == public_text_paths(),
            forall|k: int| 0 <= k < 10 ==> views(#[trigger] paths@[k]@) == specs[k],
            out@ == lines(path_texts(*response, specs.take(i as int))),
        decreases 10 - i,
    {
        let ghost prev = path_texts(*response, specs.take(i as int));
        proof {
            assert(specs.take(i + 1).drop_last() =~= specs.take(i as int));
            assert(specs.take(i + 1).last() == specs[i as int]);
        }
        let found = walk_path(response, paths[i]);
        let text = match found {
            Some(w) => w.as_str(),
            None => None,
        };
        match text {
            Some(t) => {
                push_line(&mut out, t);
                proof {
                    lemma_lines_concat(prev, seq![t@]);
                    lemma_lines_one(t@);
                    assert(path_texts(*response, specs.take(i + 1)) == prev + seq![t@]);
                }
            },
            None => {
                assert(path_texts(*response, specs.take(i + 1)) =~= prev);
            },
        }
        i = i + 1;
    }
    proof {
        assert(specs.take(10) =~= specs);
    }
    let ghost head = path_texts(*response, specs);
    let fields = ["key_days", "best_days", "watch_days", "daily_timeline", "domain_sections", "best_windows", "watch_windows"];
    let keys = ["title", "reason", "watch_point", "theme", "tone", "domain", "text", "label", "summary", "advice"];
    proof {
        assert(views(fields@) =~= public_item_fields());
        assert(views(keys@) =~= public_item_keys());
        assert(fields_texts(*response, views(fields@).take(0), views(keys@)) =~= Seq::<Seq<char>>::empty());
        assert(head + Seq::<Seq<char>>::empty() =~= head);
    }
    let empty: Vec<JsonValue> = Vec::new();
    let mut j: usize = 0;
    while j < 7
        invariant
            j <= 7,
            fields@.len() == 7,
            head == path_texts(*response, public_text_paths()),
            views(keys@) == public_item_keys(),
            empty@ == Seq::<JsonValue>::empty(),
            out@ == lines(head + fields_texts(*response, views(fields@).take(j as int), views(keys@))),
        decreases 7 - j,
    {
        let ghost prev = fields_texts(*response, views(fields@).take(j as int), views(keys@));
        proof {
            assert(views(fields@).take(j + 1).drop_last() =~= views(fields@).take(j as int));
            assert(views(fields@).take(j + 1).last() == fields@[j as int]@);
        }
        let items = match response.field_arr(fields[j]) {
            Some(items) => items,
            None => &empty,
        };
        push_items_texts(&mut out, items, &keys);
        proof {
            assert(items@ == array_items(*response, fields@[j as int]@));
            lemma_lines_concat(head + prev, items_texts(items@, views(keys@)));
            assert(head + prev + items_texts(items@, views(keys@)) =~= head + fields_texts(
                *response,
                views(fields@).take(j + 1),
                views(keys@),
            ));
        }
        j = j + 1;
    }
    proof {
        assert(views(fields@).take(7) =~= views(fields@));
    }
    out
}

/// Appends the public text of a response to `public_text` (see `collect_period_v2_public_text`).
pub fn collect_period_v2_public_text_only(response: &JsonValue, public_text: &mut String)
    ensures
        final(public_text)@ == old(public_text)@ + public_text_of(*response),
{
    let text = collect_period_v2_public_text(response);
    public_text.append(text.as_str());
}

// ---------------------------------------------------------------------------------------------
// Technical leaks
// ---------------------------------------------------------------------------------------------

/// The technical codes that the public text may not show.
pub open spec fn technical_leak_terms() -> Seq<Seq<char>> {
    seq![
        "slot:"@, "slot_"@, "[morning]"@, "[afternoon]"@, "[evening]"@, "raw_transits"@, "period:"@,
        "natal_"@, "fake_"@, "theme_code"@, "evidence_key"@, "snapshot_key"@, "source_snapshot_keys"@,
        "scan_plan"@, "period_resolution"@, "contract_version"@, "daily_timeline"@, "transit_exact"@,
        "transit_active"@, "moon_house_by_day"@,
    ]
}

/// Refuses a public text that, lower-cased, shows a technical code.
pub fn validate_period_v2_public_text_forbidden_technical_leaks(public_text: &str) -> (r: Result<
    (),
    GenerationError,
>)
    ensures
        r is Err <==> holds_any(lowercase_of(public_text@), technical_leak_terms()),
        r matches Err(e) ==> err_code(e) == "HOROSCOPE_PERIOD_TECHNICAL_CODE_LEAK"@,
{
    let terms = [
        "slot:", "slot_", "[morning]", "[afternoon]", "[evening]", "raw_transits", "period:",
        "natal_", "fake_", "theme_code", "evidence_key", "snapshot_key", "source_snapshot_keys",
        "scan_plan", "period_resolution", "contract_version", "daily_timeline", "transit_exact",
        "transit_active", "moon_house_by_day",
    ];
    proof {
        assert(views(terms@) =~= technical_leak_terms());
    }
    let lower = to_lowercase(public_text);
    let n = terms.len();
    let mut k: usize = 0;
    while k < n
        invariant
            n == terms@.len(),
            views(terms@) == technical_leak_terms(),
            lower@ == lowercase_of(public_text@),
            k <= n,
            forall|j: int| 0 <= j < k ==> !contains(lower@, #[trigger] technical_leak_terms()[j]),
        decreases n - k,
    {
        if str_contains(lower.as_str(), terms[k]) {
            assert(contains(lower@, technical_leak_terms()[k as int]));
            return Err(quality_error("HOROSCOPE_PERIOD_TECHNICAL_CODE_LEAK", detail_str("forbidden", terms[k])));
        }
        k = k + 1;
    }
    Ok(())
}

// ---------------------------------------------------------------------------------------------
// Word counts
// ---------------------------------------------------------------------------------------------

/// The word holds an alphabetic character.
pub open spec fn has_alphabetic(w: Seq<char>) -> bool {
    exists|i: int| 0 <= i < w.len() && unicode_alphabetic(#[trigger] w[i])
}

/// The number of words that hold an alphabetic character.
pub open spec fn alphabetic_word_count(ws: Seq<Seq<char>>) -> nat
    decreases ws.len(),
{
    if ws.len() == 0 {
        0
    } else {
        alphabetic_word_count(ws.drop_last()) + if has_alphabetic(ws.last()) {
            1nat
        } else {
            0nat
        }
    }
}

/// The public word count of a text: its whitespace-separated words that hold a letter.
pub open spec fn simple_word_count(text: Seq<char>) -> nat {
    alphabetic_word_count(words(text))
}

fn word_has_alphabetic(w: &str) -> (r: bool)
    ensures
        r == has_alphabetic(w@),
{
    let cs = chars_of(w);
    let n = cs.len();
    let mut i: usize = 0;
    while i < n
        invariant
            n == cs@.len(),
            cs@ == w@,
            i <= n,
            forall|j: int| 0 <= j < i ==> !unicode_alphabetic(#[trigger] cs@[j]),
        decreases n - i,
    {
        if is_alphabetic(cs[i]) {
            return true;
        }
        i = i + 1;
    }
    false
}

/// The number of whitespace-separated words of the text that hold a letter.
pub fn simple_public_word_count(text: &str) -> (r: usize)
    ensures
        r as nat == simple_word_count(text@),
{
    let ws = split_words(text);
    let n = ws.len();
    let mut count: usize = 0;
    let mut i: usize = 0;
    while i < n
        invariant
            n == ws@.len(),
            string_views(ws@) == words(text@),
            i <= n,
            count <= i,
            count as nat == alphabetic_word_count(string_views(ws@).take(i as int)),
        decreases n - i,
    {
        proof {
            assert(string_views(ws@).take(i + 1).drop_last() =~= string_views(ws@).take(i as int));
            assert(string_views(ws@).take(i + 1).last() == ws@[i as int]@);
        }
        if word_has_alphabetic(ws[i].as_str()) {
            count = count + 1;
        }
        i = i + 1;
    }
    proof {
        assert(string_views(ws@).take(n as int) =~= string_views(ws@));
    }
    count
}

/// The number of items of an array field, 0 where it is no array.
pub open spec fn array_len(v: JsonValue, field: Seq<char>) -> nat {
    array_items(v, field).len()
}

/// A response that does not hold seven timeline days.
pub open spec fn not_seven_daily(response: JsonValue) -> bool {
    array_len(response, "daily_timeline"@) != 7
}

/// Refuses a response whose timeline does not hold seven days.
pub fn validate_period_not_seven_daily(response: &JsonValue) -> (r: Result<(), GenerationError>)
    ensures
        r is Err <==> not_seven_daily(*response),
        r matches Err(e) ==> err_code(e) == "HOROSCOPE_PERIOD_TIMELINE_MISSING"@,
{
    let count = response.field_arr_len("daily_timeline");
    if count != 7 {
        return Err(quality_error("HOROSCOPE_PERIOD_TIMELINE_MISSING", crate::error::detail_count("timeline_count", count)));
    }
    Ok(())
}

// ---------------------------------------------------------------------------------------------
// Section word counts
// ---------------------------------------------------------------------------------------------

/// Each text followed by a space.
pub open spec fn spaced(texts: Seq<Seq<char>>) -> Seq<char>
    decreases texts.len(),
{
    if texts.len() == 0 {
        seq![]
    } else {
        spaced(texts.drop_last()) + texts.last() + seq![' ']
    }
}

/// The keys whose texts an item contributes to its section's word count.
pub open spec fn section_item_keys() -> Seq<Seq<char>> {
    seq!["title"@, "text"@, "reason"@, "watch_point"@, "advice"@]
}

/// The public word count of the text at a path, 0 where there is none.
pub open spec fn path_word_count(v: JsonValue, path: Seq<Seq<char>>) -> nat {
    match json_walk(v, path) {
        Some(w) => match json_str(w) {
            Some(t) => simple_word_count(t),
            None => 0,
        },
        None => 0,
    }
}

/// The public word count of a section's items: each item's texts, each followed by a space,
/// counted, and summed.
pub open spec fn items_word_count(items: Seq<JsonValue>) -> nat
    decreases items.len(),
{
    if items.len() == 0 {
        0
    } else {
        items_word_count(items.drop_last()) + simple_word_count(
            spaced(key_texts(items.last(), section_item_keys())),
        )
    }
}

/// The labels of the section counts, in order.
pub open spec fn section_labels() -> Seq<Seq<char>> {
    seq![
        "week_overview"@,
        "strategy"@,
        "advice"@,
        "watch_summary"@,
        "daily_timeline"@,
        "domain_sections"@,
        "best_windows"@,
        "watch_windows"@,
    ]
}

/// The word count of each section, in the order of the labels.
pub open spec fn section_counts(v: JsonValue) -> Seq<nat> {
    seq![
        path_word_count(v, seq!["week_overview"@, "text"@]),
        path_word_count(v, seq!["strategy"@, "text"@]),
        path_word_count(v, seq!["advice"@, "main"@]),
        path_word_count(v, seq!["watch_summary"@, "text"@]),
        items_word_count(array_items(v, "daily_timeline"@)),
        items_word_count(array_items(v, "domain_sections"@)),
        items_word_count(array_items(v, "best_windows"@)),
        items_word_count(array_items(v, "watch_windows"@)),
    ]
}

/// A count capped at `usize::MAX`.
pub open spec fn capped(n: nat) -> nat {
    if n > usize::MAX {
        usize::MAX as nat
    } else {
        n
    }
}

fn path_count(v: &JsonValue, path: &[&str]) -> (r: usize)
    ensures
        r as nat == path_word_count(*v, views(path@)),
{
    match walk_path(v, path) {
        Some(w) => match w.as_str() {
            Some(t) => simple_public_word_count(t),
            None => 0,
        },
        None => 0,
    }
}

fn push_spaced_texts(out: &mut String, item: &JsonValue, keys: &[&str])
    ensures
        final(out)@ == old(out)@ + spaced(key_texts(*item, views(keys@))),
{
    let n = keys.len();
    let mut i: usize = 0;
    proof {
        assert(views(keys@).take(0) =~= Seq::<Seq<char>>::empty());
        assert(old(out)@ + spaced(key_texts(*item, views(keys@).take(0))) =~= old(out)@);
    }
    while i < n
        invariant
            n == keys@.len(),
            i <= n,
            out@ == old(out)@ + spaced(key_texts(*item, views(keys@).take(i as int))),
        decreases n - i,
    {
        let ghost prev = key_texts(*item, views(keys@).take(i as int));
        proof {
            assert(views(keys@).take(i + 1).drop_last() =~= views(keys@).take(i as int));
            assert(views(keys@).take(i + 1).last() == keys@[i as int]@);
        }
        match item.field_str(keys[i]) {
            Some(t) => {
                out.append(t);
                out.append(" ");
                proof {
                    reveal_strlit(" ");
                    assert(key_texts(*item, views(keys@).take(i + 1)) == prev + seq![t@]);
                    assert((prev + seq![t@]).drop_last() =~= prev);
                    assert(out@ =~= old(out)@ + spaced(prev + seq![t@]));
                }
            },
            None => {
                assert(key_texts(*item, views(keys@).take(i + 1)) =~= prev);
            },
        }
        i = i + 1;
    }
    proof {
        assert(views(keys@).take(n as int) =~= views(keys@));
    }
}

fn items_count(items: Option<&Vec<JsonValue>>) -> (r: usize)
    ensures
        r as nat == capped(items_word_count(
            match items {
                Some(v) => v@,
                None => seq![],
            },
        )),
{
    let v = match items {
        Some(v) => v,
        None => {
            return 0;
        },
    };
    let keys = ["title", "text", "reason", "watch_point", "advice"];
    proof {
        assert(views(keys@) =~= section_item_keys());
    }
    let n = v.len();
    let mut total: usize = 0;
    let mut i: usize = 0;
    while i < n
        invariant
            n == v@.len(),
            i <= n,
            views(keys@) == section_item_keys(),
            total as nat == capped(items_word_count(v@.take(i as int))),
        decreases n - i,
    {
        let mut text = String::new();
        push_spaced_texts(&mut text, &v[i], &keys);
        proof {
            assert(Seq::<char>::empty() + spaced(key_texts(v@[i as int], section_item_keys())) =~= spaced(
                key_texts(v@[i as int], section_item_keys()),
            ));
        }
        let c = simple_public_word_count(text.as_str());
        proof {
            assert(v@.take(i + 1).drop_last() =~= v@.take(i as int));
            assert(v@.take(i + 1).last() == v@[i as int]);
        }
        total = total.saturating_add(c);
        i = i + 1;
    }
    proof {
        assert(v@.take(n as int) =~= v@);
    }
    total
}

/// The word count of each public section: the overview, strategy, advice and watch-summary
/// texts, and the items of the timeline, domain sections and windows.
pub fn period_v2_section_word_counts(response: &JsonValue) -> (r: JsonValue)
    ensures
        r matches JsonValue::Object(es) && es@.len() == 8 && forall|i: int|
            0 <= i < 8 ==> (#[trigger] es@[i]).key@ == section_labels()[i] && es@[i].value
                == crate::json::count_json(capped(section_counts(*response)[i])),
{
    let p0 = ["week_overview", "text"];
    let p1 = ["strategy", "text"];
    let p2 = ["advice", "main"];
    let p3 = ["watch_summary", "text"];
    proof {
        assert(views(p0@) =~= seq!["week_overview"@, "text"@]);
        assert(views(p1@) =~= seq!["strategy"@, "text"@]);
        assert(views(p2@) =~= seq!["advice"@, "main"@]);
        assert(views(p3@) =~= seq!["watch_summary"@, "text"@]);
    }
    let c0 = path_count(response, &p0);
    let c1 = path_count(response, &p1);
    let c2 = path_count(response, &p2);
    let c3 = path_count(response, &p3);
    let c4 = items_count(response.field_arr("daily_timeline"));
    let c5 = items_count(response.field_arr("domain_sections"));
    let c6 = items_count(response.field_arr("best_windows"));
    let c7 = items_count(response.field_arr("watch_windows"));
    let mut es: Vec<JsonEntry> = Vec::new();
    es.push(JsonEntry { key: "week_overview".to_owned(), value: crate::json::json_count(c0) });
    es.push(JsonEntry { key: "strategy".to_owned(), value: crate::json::json_count(c1) });
    es.push(JsonEntry { key: "advice".to_owned(), value: crate::json::json_count(c2) });
    es.push(JsonEntry { key: "watch_summary".to_owned(), value: crate::json::json_count(c3) });
    es.push(JsonEntry { key: "daily_timeline".to_owned(), value: crate::json::json_count(c4) });
    es.push(JsonEntry { key: "domain_sections".to_owned(), value: crate::json::json_count(c5) });
    es.push(JsonEntry { key: "best_windows".to_owned(), value: crate::json::json_count(c6) });
    es.push(JsonEntry { key: "watch_windows".to_owned(), value: crate::json::json_count(c7) });
    proof {
        let sc = section_counts(*response);
        assert(c0 as nat == capped(sc[0]));
        assert(c1 as nat == capped(sc[1]));
        assert(c2 as nat == capped(sc[2]));
        assert(c3 as nat == capped(sc[3]));
        assert(c4 as nat == capped(sc[4]));
        assert(c5 as nat == capped(sc[5]));
        assert(c6 as nat == capped(sc[6]));
        assert(c7 as nat == capped(sc[7]));
    }
    JsonValue::Object(es)
}

// ---------------------------------------------------------------------------------------------
// Editorial warnings and audits
// ---------------------------------------------------------------------------------------------

/// The code of the warning that a reading reads like seven dailies.
pub const PERIOD_V2_SEVEN_DAILY_SHAPE_WARNING: &'static str = "PERIOD_V2_SEVEN_DAILY_SHAPE_WARNING";

/// The code of the warning about the word target.
pub const PERIOD_V2_WORD_COUNT_WARNING: &'static str = "PERIOD_V2_WORD_COUNT_WARNING";

/// How much an editorial warning weighs.
#[derive(Debug, Clone, Copy, PartialEq, Eq, Structural)]
pub enum PeriodV2QualitySeverity {
    Warning,
    Metric,
}

/// A non-blocking editorial warning.
#[derive(Debug)]
pub struct PeriodV2QualityWarning {
    pub path: String,
    pub code: String,
    pub severity: PeriodV2QualitySeverity,
    pub message: String,
}

/// The (path, code, severity, message) of a warning.
pub open spec fn warning_view(w: PeriodV2QualityWarning) -> (Seq<char>, Seq<char>, PeriodV2QualitySeverity, Seq<char>) {
    (w.path@, w.code@, w.severity, w.message@)
}

/// The message of the seven-dailies warning.
pub open spec fn seven_daily_message() -> Seq<char> {
    "La lecture ressemble davantage à une suite de daily qu'à une synthèse de période."@
}

/// The message of a reading slightly under its word target.
pub open spec fn under_target_message() -> Seq<char> {
    "La lecture est légèrement sous la cible éditoriale mais reste dans le contrat produit."@
}

/// The message of a reading over its word target but within the hard limit.
pub open spec fn over_target_message() -> Seq<char> {
    "La lecture dépasse la cible éditoriale sans violer la borne dure du produit."@
}

/// The warning that a response reads like seven dailies, where its timeline does not hold
/// seven days.
pub open spec fn shape_warnings(response: JsonValue) -> Seq<(Seq<char>, Seq<char>, PeriodV2QualitySeverity, Seq<char>)> {
    if not_seven_daily(response) {
        seq![("/reading"@, PERIOD_V2_SEVEN_DAILY_SHAPE_WARNING@, PeriodV2QualitySeverity::Warning, seven_daily_message())]
    } else {
        seq![]
    }
}

/// The word-target warning: none without a request or for the fake provider; else one where
/// the word count falls between the effective minimum and the target, or between the target
/// maximum and the hard limit.
pub open spec fn word_warnings(
    request: Option<JsonValue>,
    response: JsonValue,
    public_text: Seq<char>,
    rows: Seq<JsonValue>,
) -> Seq<(Seq<char>, Seq<char>, PeriodV2QualitySeverity, Seq<char>)> {
    match request {
        None => seq![],
        Some(req) => if from_fake_provider(response) {
            seq![]
        } else {
            let limits = request_word_limits(req, rows);
            let wc = word_count(public_text);
            if wc >= effective_min_words(req, limits) && wc < limits.target_min {
                seq![("/reading"@, PERIOD_V2_WORD_COUNT_WARNING@, PeriodV2QualitySeverity::Metric, under_target_message())]
            } else if wc > limits.target_max && wc <= limits.hard_limit {
                seq![("/reading"@, PERIOD_V2_WORD_COUNT_WARNING@, PeriodV2QualitySeverity::Metric, over_target_message())]
            } else {
                seq![]
            }
        },
    }
}

/// The editorial warnings of a response, in order: the seven-dailies shape, then the word
/// target.
pub open spec fn quality_warnings_of(
    request: Option<JsonValue>,
    response: JsonValue,
    public_text: Seq<char>,
    rows: Seq<JsonValue>,
) -> Seq<(Seq<char>, Seq<char>, PeriodV2QualitySeverity, Seq<char>)> {
    shape_warnings(response) + word_warnings(request, response, public_text, rows)
}

/// The views of a list of warnings.
pub open spec fn warning_views(ws: Seq<PeriodV2QualityWarning>) -> Seq<(Seq<char>, Seq<char>, PeriodV2QualitySeverity, Seq<char>)> {
    ws.map_values(|w: PeriodV2QualityWarning| warning_view(w))
}

/// A warning made of its path, code, severity and message.
pub fn period_v2_warning(path: &str, code: &str, severity: PeriodV2QualitySeverity, message: &str) -> (r:
    PeriodV2QualityWarning)
    ensures
        warning_view(r) == (path@, code@, severity, message@),
{
    PeriodV2QualityWarning {
        path: path.to_owned(),
        code: code.to_owned(),
        severity,
        message: message.to_owned(),
    }
}

/// The warning that a response reads like seven dailies.
pub fn period_v2_seven_daily_shape_warnings(response: &JsonValue) -> (r: Vec<PeriodV2QualityWarning>)
    ensures
        warning_views(r@) == shape_warnings(*response),
{
    let mut out: Vec<PeriodV2QualityWarning> = Vec::new();
    if validate_period_not_seven_daily(response).is_err() {
        out.push(
            period_v2_warning(
                "/reading",
                PERIOD_V2_SEVEN_DAILY_SHAPE_WARNING,
                PeriodV2QualitySeverity::Warning,
                "La lecture ressemble davantage à une suite de daily qu'à une synthèse de période.",
            ),
        );
    }
    assert(warning_views(out@) =~= shape_warnings(*response));
    out
}

/// The word-target warning of a response.
pub fn period_v2_word_count_warnings(
    request: Option<&JsonValue>,
    response: &JsonValue,
    public_text: &str,
    rows: &Vec<JsonValue>,
) -> (r: Vec<PeriodV2QualityWarning>)
    requires
        request is Some ==> find_profile_row(rows@, "basic_standard"@) is Some,
    ensures
        warning_views(r@) == word_warnings(crate::json::opt_deref(request), *response, public_text@, rows@),
{
    let mut out: Vec<PeriodV2QualityWarning> = Vec::new();
    match request {
        None => {},
        Some(req) => {
            let fake = match response.get("quality") {
                Some(q) => crate::period_metadata::field_is(q, "provider", "fake"),
                None => false,
            };
            if !fake {
                let limits = period_word_limits_for_request(req, rows);
                let wc = count_words(public_text);
                if wc >= period_effective_min_word_count(req, &limits) && wc < limits.target_min {
                    out.push(
                        period_v2_warning(
                            "/reading",
                            PERIOD_V2_WORD_COUNT_WARNING,
                            PeriodV2QualitySeverity::Metric,
                            "La lecture est légèrement sous la cible éditoriale mais reste dans le contrat produit.",
                        ),
                    );
                } else if wc > limits.target_max && wc <= limits.hard_limit {
                    out.push(
                        period_v2_warning(
                            "/reading",
                            PERIOD_V2_WORD_COUNT_WARNING,
                            PeriodV2QualitySeverity::Metric,
                            "La lecture dépasse la cible éditoriale sans violer la borne dure du produit.",
                        ),
                    );
                }
            }
        },
    }
    assert(warning_views(out@) =~= word_warnings(crate::json::opt_deref(request), *response, public_text@, rows@));
    out
}

/// The editorial warnings of a response: the seven-dailies shape, then the word target.
pub fn period_collect_quality_warnings(
    request: Option<&JsonValue>,
    response: &JsonValue,
    public_text: &str,
    rows: &Vec<JsonValue>,
) -> (r: Vec<PeriodV2QualityWarning>)
    requires
        request is Some ==> find_profile_row(rows@, "basic_standard"@) is Some,
    ensures
        warning_views(r@) == quality_warnings_of(crate::json::opt_deref(request), *response, public_text@, rows@),
{
    let mut out = period_v2_seven_daily_shape_warnings(response);
    let mut words = period_v2_word_count_warnings(request, response, public_text, rows);
    let ghost a = warning_views(out@);
    let ghost b = warning_views(words@);
    out.append(&mut words);
    assert(warning_views(out@) =~= a + b);
    out
}

/// The JSON text of a severity.
pub open spec fn severity_text(s: PeriodV2QualitySeverity) -> Seq<char> {
    match s {
        PeriodV2QualitySeverity::Warning => "warning"@,
        PeriodV2QualitySeverity::Metric => "metric"@,
    }
}

impl PeriodV2QualityWarning {
    /// The warning as a JSON object with its path, code, severity and message.
    pub fn to_json(&self) -> (r: JsonValue)
        ensures
            r matches JsonValue::Object(es) && es@.len() == 4 && es@[0].key@ == "path"@ && es@[0].value
                == JsonValue::Str(self.path) && es@[1].key@ == "code"@ && es@[1].value == JsonValue::Str(
                self.code,
            ) && es@[2].key@ == "severity"@ && (es@[2].value matches JsonValue::Str(t) && t@
                == severity_text(self.severity)) && es@[3].key@ == "message"@ && es@[3].value
                == JsonValue::Str(self.message),
    {
        let severity = match self.severity {
            PeriodV2QualitySeverity::Warning => "warning",
            PeriodV2QualitySeverity::Metric => "metric",
        };
        let mut es: Vec<JsonEntry> = Vec::new();
        es.push(JsonEntry { key: "path".to_owned(), value: JsonValue::Str(self.path.clone()) });
        es.push(JsonEntry { key: "code".to_owned(), value: JsonValue::Str(self.code.clone()) });
        es.push(JsonEntry { key: "severity".to_owned(), value: JsonValue::Str(severity.to_owned()) });
        es.push(JsonEntry { key: "message".to_owned(), value: JsonValue::Str(self.message.clone()) });
        JsonValue::Object(es)
    }
}

/// A warning's JSON object: its path, code, severity and message.
pub open spec fn warning_json(v: JsonValue, w: (Seq<char>, Seq<char>, PeriodV2QualitySeverity, Seq<char>)) -> bool {
    &&& field_str(v, "path"@) == Some(w.0)
    &&& field_str(v, "code"@) == Some(w.1)
    &&& field_str(v, "severity"@) == Some(severity_text(w.2))
    &&& field_str(v, "message"@) == Some(w.3)
}

proof fn lemma_warning_json(w: PeriodV2QualityWarning, v: JsonValue)
    requires
        v matches JsonValue::Object(es) && es@.len() == 4 && es@[0].key@ == "path"@ && es@[0].value == JsonValue::Str(
            w.path,
        ) && es@[1].key@ == "code"@ && es@[1].value == JsonValue::Str(w.code) && es@[2].key@ == "severity"@ && (
        es@[2].value matches JsonValue::Str(t) && t@ == severity_text(w.severity)) && es@[3].key@ == "message"@
            && es@[3].value == JsonValue::Str(w.message),
    ensures
        warning_json(v, warning_view(w)),
{
    reveal_strlit("path");
    reveal_strlit("code");
    reveal_strlit("severity");
    reveal_strlit("message");
    let es = v->Object_0@;
    assert(es[1].key@[0] != "path"@[0]);
    assert(es[2].key@[0] != "path"@[0]);
    assert(es[2].key@[0] != "code"@[0]);
    assert(es[3].key@[0] != "path"@[0]);
    assert(es[3].key@[0] != "code"@[0]);
    assert(es[3].key@[0] != "severity"@[0]);
    crate::json::lemma_lookup_first(es, 0, "path"@);
    crate::json::lemma_lookup_first(es, 1, "code"@);
    crate::json::lemma_lookup_first(es, 2, "severity"@);
    crate::json::lemma_lookup_first(es, 3, "message"@);
}

/// The editorial warnings of a response as a JSON array, each warning an object with its path,
/// code, severity and message.
pub fn period_quality_warnings_json(
    request: Option<&JsonValue>,
    response: &JsonValue,
    public_text: &str,
    rows: &Vec<JsonValue>,
) -> (r: JsonValue)
    requires
        request is Some ==> find_profile_row(rows@, "basic_standard"@) is Some,
    ensures
        r matches JsonValue::Array(items) && items@.len() == quality_warnings_of(
            crate::json::opt_deref(request),
            *response,
            public_text@,
            rows@,
        ).len() && forall|i: int|
            0 <= i < items@.len() ==> warning_json(
                #[trigger] items@[i],
                quality_warnings_of(crate::json::opt_deref(request), *response, public_text@, rows@)[i],
            ),
{
    let warnings = period_collect_quality_warnings(request, response, public_text, rows);
    let ghost wv = warning_views(warnings@);
    let mut items: Vec<JsonValue> = Vec::new();
    let n = warnings.len();
    let mut i: usize = 0;
    while i < n
        invariant
            n == warnings@.len(),
            wv == warning_views(warnings@),
            i <= n,
            items@.len() == i,
            forall|j: int| 0 <= j < i ==> warning_json(#[trigger] items@[j], wv[j]),
        decreases n - i,
    {
        let v = warnings[i].to_json();
        proof {
            lemma_warning_json(warnings@[i as int], v);
        }
        items.push(v);
        i = i + 1;
    }
    JsonValue::Array(items)
}

/// The section word counts of a response as a JSON object, in the order of `section_labels`.
pub open spec fn section_counts_json(v: JsonValue, response: JsonValue) -> bool {
    v matches JsonValue::Object(es) && es@.len() == 8 && forall|i: int|
        0 <= i < 8 ==> (#[trigger] es@[i]).key@ == section_labels()[i] && es@[i].value == crate::json::count_json(
            capped(section_counts(response)[i]),
        )
}

/// An audit report of a response with given warnings: exactly the members `mode`
/// (`non_blocking`), `public_word_count`, `section_word_counts` and `warnings`, in that order.
pub open spec fn audit_report(
    r: JsonValue,
    response: JsonValue,
    warnings: Seq<(Seq<char>, Seq<char>, PeriodV2QualitySeverity, Seq<char>)>,
) -> bool {
    r matches JsonValue::Object(es) && es@.len() == 4 && es@[0].key@ == "mode"@ && (es@[0].value matches JsonValue::Str(m)
        && m@ == "non_blocking"@) && es@[1].key@ == "public_word_count"@ && es@[1].value == crate::json::count_json(
        simple_word_count(public_text_of(response)),
    ) && es@[2].key@ == "section_word_counts"@ && section_counts_json(es@[2].value, response) && es@[3].key@
        == "warnings"@ && (es@[3].value matches JsonValue::Array(ws) && ws@.len() == warnings.len() && forall|i: int|
        0 <= i < ws@.len() ==> warning_json(#[trigger] ws@[i], warnings[i]))
}

/// The audit of a response: a non-blocking report with its public word count, the word count of
/// each section, and its editorial warnings.
pub fn period_quality_audit_with_request(
    request: Option<&JsonValue>,
    response: &JsonValue,
    rows: &Vec<JsonValue>,
) -> (r: JsonValue)
    requires
        request is Some ==> find_profile_row(rows@, "basic_standard"@) is Some,
    ensures
        audit_report(
            r,
            *response,
            quality_warnings_of(crate::json::opt_deref(request), *response, public_text_of(*response), rows@),
        ),
{
    let public_text = collect_period_v2_public_text(response);
    let count = simple_public_word_count(public_text.as_str());
    let sections = period_v2_section_word_counts(response);
    let warnings = period_quality_warnings_json(request, response, public_text.as_str(), rows);
    let mut es: Vec<JsonEntry> = Vec::new();
    es.push(JsonEntry { key: "mode".to_owned(), value: JsonValue::Str("non_blocking".to_owned()) });
    es.push(JsonEntry { key: "public_word_count".to_owned(), value: crate::json::json_count(count) });
    es.push(JsonEntry { key: "section_word_counts".to_owned(), value: sections });
    es.push(JsonEntry { key: "warnings".to_owned(), value: warnings });
    JsonValue::Object(es)
}

/// The audit of a response without a request: no word-target warning.
pub fn period_quality_audit(response: &JsonValue) -> (r: JsonValue)
    ensures
        audit_report(r, *response, shape_warnings(*response)),
{
    let rows: Vec<JsonValue> = Vec::new();
    let r = period_quality_audit_with_request(None, response, &rows);
    assert(quality_warnings_of(None, *response, public_text_of(*response), rows@) =~= shape_warnings(*response));
    r
}

/// The audit of a response against its request, word-target warnings included.
pub fn period_editorial_audit(request: &JsonValue, response: &JsonValue, rows: &Vec<JsonValue>) -> (r: JsonValue)
    requires
        find_profile_row(rows@, "basic_standard"@) is Some,
    ensures
        audit_report(r, *response, quality_warnings_of(Some(*request), *response, public_text_of(*response), rows@)),
{
    period_quality_audit_with_request(Some(request), response, rows)
}

/// The audit against a request is the plain audit with at most one more, trailing warning: the
/// word-count warning, present exactly where a reading of a real provider lies between the
/// effective minimum and the target minimum, or above the target maximum up to the hard limit.
pub proof fn law_editorial_audit_extends_plain(request: JsonValue, response: JsonValue, rows: Seq<JsonValue>)
    ensures
        ({
            let ws = quality_warnings_of(Some(request), response, public_text_of(response), rows);
            let limits = request_word_limits(request, rows);
            let wc = word_count(public_text_of(response));
            let extra = !from_fake_provider(response) && ((wc >= effective_min_words(request, limits) && wc
                < limits.target_min) || (wc > limits.target_max && wc <= limits.hard_limit));
            &&& ws.take(shape_warnings(response).len() as int) == shape_warnings(response)
            &&& ws.len() == shape_warnings(response).len() + if extra { 1int } else { 0int }
            &&& extra ==> ws.last().1 == PERIOD_V2_WORD_COUNT_WARNING@
        }),
{
    let ws = quality_warnings_of(Some(request), response, public_text_of(response), rows);
    assert(ws.take(shape_warnings(response).len() as int) =~= shape_warnings(response));
}

/// An issue of a response as an object with its path, code, severity and message.
pub fn period_v2_failure_issue(path: &str, code: &str, severity: &str, message: &str) -> (r: JsonValue)
    ensures
        r is Object,
        field_str(r, "path"@) == Some(path@),
        field_str(r, "code"@) == Some(code@),
        field_str(r, "severity"@) == Some(severity@),
        field_str(r, "message"@) == Some(message@),
{
    let mut r = JsonValue::Null;
    crate::json::set_member(&mut r, "path", JsonValue::Str(path.to_owned()));
    crate::json::set_member(&mut r, "code", JsonValue::Str(code.to_owned()));
    crate::json::set_member(&mut r, "severity", JsonValue::Str(severity.to_owned()));
    crate::json::set_member(&mut r, "message", JsonValue::Str(message.to_owned()));
    proof {
        reveal_strlit("path");
        reveal_strlit("code");
        reveal_strlit("severity");
        reveal_strlit("message");
        assert("path"@[0] != "code"@[0]);
        assert("path"@[0] != "severity"@[0] && "code"@[0] != "severity"@[0]);
        assert("path"@[0] != "message"@[0] && "code"@[0] != "message"@[0] && "severity"@[0] != "message"@[0]);
    }
    r
}

} // verus!
