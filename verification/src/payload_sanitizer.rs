//! Refusal of instructions smuggled into data: injection phrases in free text and in the
//! strings of a JSON payload.
use vstd::prelude::*;

use crate::json::{JsonEntry, JsonValue};
use crate::period_payload::views;
use crate::text::{contains, lowercase_of, str_contains, to_lowercase, trim, trim_str};

verus! {

/// The phrases that mark an attempt to override the platform's instructions.
pub open spec fn injection_patterns() -> Seq<Seq<char>> {
    seq![
        "ignore previous"@,
        "ignore safety"@,
        "override system"@,
        "ignore platform rules"@,
        "ignore les instructions"@,
        "oublie tes regles"@,
        "oublie les regles"@,
        "system prompt"@,
        "developer message"@,
        "jailbreak"@,
        "do anything now"@,
    ]
}

/// The lower-cased text holds one of the injection phrases.
pub open spec fn has_injection(text: Seq<char>) -> bool {
    exists|k: int|
        0 <= k < injection_patterns().len() && contains(
            lowercase_of(text),
            #[trigger] injection_patterns()[k],
        )
}

/// Whether the text, lower-cased, holds one of the injection phrases.
pub fn contains_prompt_injection(text: &str) -> (r: bool)
    ensures
        r == has_injection(text@),
{
    let patterns = [
        "ignore previous",
        "ignore safety",
        "override system",
        "ignore platform rules",
        "ignore les instructions",
        "oublie tes regles",
        "oublie les regles",
        "system prompt",
        "developer message",
        "jailbreak",
        "do anything now",
    ];
    proof {
        assert(views(patterns@) =~= injection_patterns());
    }
    let lower = to_lowercase(text);
    let n = patterns.len();
    let mut k: usize = 0;
    while k < n
        invariant
            n == patterns@.len(),
            views(patterns@) == injection_patterns(),
            lower@ == lowercase_of(text@),
            k <= n,
            forall|j: int| 0 <= j < k ==> !contains(lower@, #[trigger] injection_patterns()[j]),
        decreases n - k,
    {
        if str_contains(lower.as_str(), patterns[k]) {
            assert(contains(lower@, injection_patterns()[k as int]));
            return true;
        }
        k = k + 1;
    }
    false
}

/// The first string of a JSON value, in document order, that holds an injection phrase.
pub open spec fn first_injected(v: JsonValue) -> Option<Seq<char>>
    decreases v,
{
    match v {
        JsonValue::Str(s) => if has_injection(s@) {
            Some(s@)
        } else {
            None
        },
        JsonValue::Array(items) => first_injected_items(items@),
        JsonValue::Object(entries) => first_injected_entries(entries@),
        _ => None,
    }
}

/// The first injected string among a sequence of values.
pub open spec fn first_injected_items(items: Seq<JsonValue>) -> Option<Seq<char>>
    decreases items,
{
    if items.len() == 0 {
        None
    } else {
        match first_injected(items[0]) {
            Some(s) => Some(s),
            None => first_injected_items(items.drop_first()),
        }
    }
}

/// The first injected string among the values of a sequence of object members.
pub open spec fn first_injected_entries(entries: Seq<JsonEntry>) -> Option<Seq<char>>
    decreases entries,
{
    if entries.len() == 0 {
        None
    } else {
        match first_injected(entries[0].value) {
            Some(s) => Some(s),
            None => first_injected_entries(entries.drop_first()),
        }
    }
}

/// The report of an injected string.
pub open spec fn injection_report(s: Seq<char>) -> Seq<char> {
    "suspicious instruction in astro payload: "@ + s
}

proof fn lemma_items_step(items: Seq<JsonValue>, i: int)
    requires
        0 <= i < items.len(),
        first_injected(items[i]) is None,
    ensures
        first_injected_items(items.skip(i)) == first_injected_items(items.skip(i + 1)),
{
    assert(items.skip(i)[0] == items[i]);
    assert(items.skip(i).drop_first() =~= items.skip(i + 1));
}

proof fn lemma_entries_step(entries: Seq<JsonEntry>, i: int)
    requires
        0 <= i < entries.len(),
        first_injected(entries[i].value) is None,
    ensures
        first_injected_entries(entries.skip(i)) == first_injected_entries(entries.skip(i + 1)),
{
    assert(entries.skip(i)[0] == entries[i]);
    assert(entries.skip(i).drop_first() =~= entries.skip(i + 1));
}

/// Looks through every string of a JSON value, in document order, and reports the first one
/// that holds an injection phrase.
pub fn scan_json_for_injection(value: &JsonValue) -> (r: Option<String>)
    ensures
        match first_injected(*value) {
            Some(s) => (r matches Some(m) && m@ == injection_report(s)),
            None => r is None,
        },
    decreases value,
{
    match value {
        JsonValue::Str(s) => {
            if contains_prompt_injection(s.as_str()) {
                let mut m = "suspicious instruction in astro payload: ".to_owned();
                m.append(s.as_str());
                Some(m)
            } else {
                None
            }
        },
        JsonValue::Array(items) => {
            let n = items.len();
            let mut i: usize = 0;
            proof {
                assert(items@.skip(0) =~= items@);
            }
            while i < n
                invariant
                    *value == JsonValue::Array(*items),
                    n == items@.len(),
                    i <= n,
                    first_injected_items(items@.skip(i as int)) == first_injected_items(items@),
                decreases n - i,
            {
                proof {
                    assert(decreases_to!(*value => (*value)->Array_0));
                    assert(decreases_to!(*items => items@));
                    assert(decreases_to!(items@ => items@[i as int]));
                }
                let found = scan_json_for_injection(&items[i]);
                if found.is_some() {
                    proof {
                        assert(items@.skip(i as int)[0] == items@[i as int]);
                    }
                    return found;
                }
                proof {
                    lemma_items_step(items@, i as int);
                }
                i = i + 1;
            }
            proof {
                assert(items@.skip(n as int).len() == 0);
            }
            None
        },
        JsonValue::Object(entries) => {
            let n = entries.len();
            let mut i: usize = 0;
            proof {
                assert(entries@.skip(0) =~= entries@);
            }
            while i < n
                invariant
                    *value == JsonValue::Object(*entries),
                    n == entries@.len(),
                    i <= n,
                    first_injected_entries(entries@.skip(i as int)) == first_injected_entries(
                        entries@,
                    ),
                decreases n - i,
            {
                proof {
                    assert(decreases_to!(*value => (*value)->Object_0));
                    assert(decreases_to!(*entries => entries@));
                    assert(decreases_to!(entries@ => entries@[i as int]));
                    assert(decreases_to!(entries@[i as int] => entries@[i as int].value));
                }
                let found = scan_json_for_injection(&entries[i].value);
                if found.is_some() {
                    proof {
                        assert(entries@.skip(i as int)[0] == entries@[i as int]);
                    }
                    return found;
                }
                proof {
                    lemma_entries_step(entries@, i as int);
                }
                i = i + 1;
            }
            proof {
                assert(entries@.skip(n as int).len() == 0);
            }
            None
        },
        _ => None,
    }
}

/// The custom instructions, trimmed; refused when they hold an injection phrase.
pub fn sanitize_custom_instructions(text: &str) -> (r: Result<String, String>)
    ensures
        has_injection(trim(text@)) ==> (r matches Err(m) && m@
            == "custom_instructions contain disallowed override patterns"@),
        !has_injection(trim(text@)) ==> (r matches Ok(s) && s@ == trim(text@)),
{
    let trimmed = trim_str(text);
    if contains_prompt_injection(trimmed.as_str()) {
        return Err("custom_instructions contain disallowed override patterns".to_owned());
    }
    Ok(trimmed)
}

/// Sanitizing accepted instructions again accepts them unchanged: what
/// `sanitize_custom_instructions` gives back is trimmed and holds no injection phrase.
pub proof fn law_sanitize_idempotent(text: Seq<char>)
    requires
        !has_injection(trim(text)),
    ensures
        trim(trim(text)) == trim(text),
        !has_injection(trim(trim(text))),
{
    crate::text::law_trim_idempotent(text);
}

/// Some string of the value, at any depth, holds an injection phrase.
pub open spec fn any_injected(v: JsonValue) -> bool
    decreases v,
{
    match v {
        JsonValue::Str(s) => has_injection(s@),
        JsonValue::Array(items) => any_injected_items(items@),
        JsonValue::Object(entries) => any_injected_entries(entries@),
        _ => false,
    }
}

/// Some item, at any depth, holds an injected string.
pub open spec fn any_injected_items(items: Seq<JsonValue>) -> bool
    decreases items,
{
    items.len() > 0 && (any_injected(items[0]) || any_injected_items(items.drop_first()))
}

/// Some member value, at any depth, holds an injected string.
pub open spec fn any_injected_entries(entries: Seq<JsonEntry>) -> bool
    decreases entries,
{
    entries.len() > 0 && (any_injected(entries[0].value) || any_injected_entries(entries.drop_first()))
}

/// The scan of a JSON value misses nothing and reports nothing falsely: it finds a string
/// exactly when some string of the value holds an injection phrase, and the string it reports
/// holds one.
pub proof fn law_scan_finds_every_injection(v: JsonValue)
    ensures
        first_injected(v) is Some <==> any_injected(v),
        first_injected(v) matches Some(s) ==> has_injection(s),
    decreases v,
{
    match v {
        JsonValue::Array(items) => {
            lemma_scan_items(items@);
        },
        JsonValue::Object(entries) => {
            lemma_scan_entries(entries@);
        },
        _ => {},
    }
}

proof fn lemma_scan_items(items: Seq<JsonValue>)
    ensures
        first_injected_items(items) is Some <==> any_injected_items(items),
        first_injected_items(items) matches Some(s) ==> has_injection(s),
    decreases items,
{
    if items.len() > 0 {
        law_scan_finds_every_injection(items[0]);
        lemma_scan_items(items.drop_first());
    }
}

proof fn lemma_scan_entries(entries: Seq<JsonEntry>)
    ensures
        first_injected_entries(entries) is Some <==> any_injected_entries(entries),
        first_injected_entries(entries) matches Some(s) ==> has_injection(s),
    decreases entries,
{
    if entries.len() > 0 {
        law_scan_finds_every_injection(entries[0].value);
        lemma_scan_entries(entries.drop_first());
    }
}

} // verus!
