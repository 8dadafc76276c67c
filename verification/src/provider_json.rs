//! Recovering the JSON object of a provider's reply: the reply as it is, without a Markdown
//! fence, or its first balanced object.
use vstd::prelude::*;

use crate::error::{GenerationError, detail_strs, err_code, quality_error};
use crate::json::{JsonValue, field_str, json_clone, json_same};
use crate::period_payload::json_walk;
use crate::text::{chars_of, occurs_at, starts_with, str_starts_with, string_from_chars, string_views, trim, trim_chars, trim_str};

verus! {

// ---------------------------------------------------------------------------------------------
// The first balanced object
// ---------------------------------------------------------------------------------------------

/// The state of a scan: the nesting depth of braces, inside a string or not, and whether the
/// next string character is escaped.
pub struct ScanState {
    pub depth: int,
    pub in_string: bool,
    pub escaped: bool,
}

/// One character of the scan.
pub open spec fn scan_step(st: ScanState, c: char) -> ScanState {
    if st.in_string {
        if st.escaped {
            ScanState { escaped: false, ..st }
        } else if c == '\\' {
            ScanState { escaped: true, ..st }
        } else if c == '"' {
            ScanState { in_string: false, ..st }
        } else {
            st
        }
    } else if c == '"' {
        ScanState { in_string: true, ..st }
    } else if c == '{' {
        ScanState { depth: st.depth + 1, ..st }
    } else if c == '}' {
        ScanState { depth: st.depth - 1, ..st }
    } else {
        st
    }
}

/// The state after scanning a text from the start.
pub open spec fn scan(t: Seq<char>) -> ScanState
    decreases t.len(),
{
    if t.len() == 0 {
        ScanState { depth: 0, in_string: false, escaped: false }
    } else {
        scan_step(scan(t.drop_last()), t.last())
    }
}

/// The character at `i` is a closing brace outside any string that brings the depth back to
/// zero.
pub open spec fn closes_at(t: Seq<char>, i: int) -> bool {
    &&& !scan(t.take(i)).in_string
    &&& t[i] == '}'
    &&& scan(t.take(i)).depth == 1
}

/// The first position, from `i` on, where the object opened at the start closes.
pub open spec fn first_close_from(t: Seq<char>, i: nat) -> Option<nat>
    decreases t.len() - i,
{
    if i >= t.len() {
        None
    } else if closes_at(t, i as int) {
        Some(i)
    } else {
        first_close_from(t, i + 1)
    }
}

/// The first position of a character.
pub open spec fn first_index_from(s: Seq<char>, c: char, i: nat) -> Option<nat>
    decreases s.len() - i,
{
    if i >= s.len() {
        None
    } else if s[i as int] == c {
        Some(i)
    } else {
        first_index_from(s, c, i + 1)
    }
}

/// The first balanced object of a text: from its first `{` to the `}` that closes it,
/// braces inside strings not counted; `None` where there is no `{` or it never closes.
pub open spec fn balanced_object(raw: Seq<char>) -> Option<Seq<char>> {
    match first_index_from(raw, '{', 0) {
        None => None,
        Some(start) => {
            let t = raw.skip(start as int);
            match first_close_from(t, 0) {
                Some(k) => Some(t.take((k + 1) as int)),
                None => None,
            }
        },
    }
}

proof fn lemma_first_index(s: Seq<char>, c: char, i: nat)
    ensures
        first_index_from(s, c, i) matches Some(k) ==> k < s.len() && s[k as int] == c,
    decreases s.len() - i,
{
    if i < s.len() && s[i as int] != c {
        lemma_first_index(s, c, i + 1);
    }
}

fn find_char(cs: &Vec<char>, c: char) -> (r: Option<usize>)
    ensures
        match r {
            Some(i) => first_index_from(cs@, c, 0) == Some(i as nat) && i < cs@.len() && cs@[i as int] == c,
            None => first_index_from(cs@, c, 0) is None,
        },
{
    let n = cs.len();
    let mut i: usize = 0;
    while i < n
        invariant
            n == cs@.len(),
            i <= n,
            first_index_from(cs@, c, 0) == first_index_from(cs@, c, i as nat),
        decreases n - i,
    {
        if cs[i] == c {
            assert(first_index_from(cs@, c, i as nat) == Some(i as nat));
            return Some(i);
        }
        assert(first_index_from(cs@, c, i as nat) == first_index_from(cs@, c, (i + 1) as nat));
        i = i + 1;
    }
    assert(first_index_from(cs@, c, i as nat) is None);
    None
}

fn copy_chars(cs: &Vec<char>, start: usize, end: usize) -> (r: Vec<char>)
    requires
        start <= end <= cs@.len(),
    ensures
        r@ == cs@.subrange(start as int, end as int),
{
    let mut out: Vec<char> = Vec::new();
    let mut k: usize = start;
    while k < end
        invariant
            start <= k <= end <= cs@.len(),
            out@ == cs@.subrange(start as int, k as int),
        decreases end - k,
    {
        out.push(cs[k]);
        assert(out@ =~= cs@.subrange(start as int, k + 1));
        k = k + 1;
    }
    out
}

/// The first balanced object of a text.
pub fn extract_balanced_json_object(raw: &str) -> (r: Option<String>)
    ensures
        match r {
            Some(s) => balanced_object(raw@) == Some(s@),
            None => balanced_object(raw@) is None,
        },
{
    let cs = chars_of(raw);
    let start = match find_char(&cs, '{') {
        Some(s) => s,
        None => {
            return None;
        },
    };
    let ghost t = cs@.skip(start as int);
    let n = cs.len();
    let mut depth: usize = 0;
    let mut in_string = false;
    let mut escaped = false;
    let mut j: usize = start;
    proof {
        assert(t.take(0) =~= Seq::<char>::empty());
    }
    while j < n
        invariant
            n == cs@.len(),
            cs@ == raw@,
            start < n,
            cs@[start as int] == '{',
            first_index_from(raw@, '{', 0) == Some(start as nat),
            t == cs@.skip(start as int),
            start <= j <= n,
            scan(t.take(j - start)).depth == depth as int,
            scan(t.take(j - start)).in_string == in_string,
            scan(t.take(j - start)).escaped == escaped,
            j > start ==> depth >= 1,
            depth <= j - start,
            first_close_from(t, 0) == first_close_from(t, (j - start) as nat),
        decreases n - j,
    {
        let c = cs[j];
        let ghost i = j - start;
        proof {
            assert(t[i] == c);
            assert(t.take(i + 1).drop_last() =~= t.take(i));
            assert(t.take(i + 1).last() == c);
        }
        if in_string {
            if escaped {
                escaped = false;
            } else if c == '\\' {
                escaped = true;
            } else if c == '"' {
                in_string = false;
            }
        } else if c == '"' {
            in_string = true;
        } else if c == '{' {
            depth = depth + 1;
        } else if c == '}' {
            if depth == 1 {
                assert(closes_at(t, i));
                assert(first_close_from(t, i as nat) == Some(i as nat));
                let piece = copy_chars(&cs, start, j + 1);
                assert(piece@ =~= t.take(i + 1));
                return Some(string_from_chars(piece.as_slice()));
            }
            if depth == 0 {
                assert(j == start);
                assert(false);
            }
            depth = depth - 1;
        }
        proof {
            if j == start {
                assert(c == '{');
            }
        }
        j = j + 1;
    }
    None
}

// ---------------------------------------------------------------------------------------------
// A reply in a Markdown fence
// ---------------------------------------------------------------------------------------------

/// `s.ends_with(suffix)`.
pub open spec fn ends_with(s: Seq<char>, suffix: Seq<char>) -> bool {
    suffix.len() <= s.len() && s.subrange(s.len() - suffix.len(), s.len() as int) == suffix
}

/// The trimmed reply, taken out of a Markdown code fence (opened by three backquotes, with or
/// without `json`, and closed by three backquotes) where it stands in one.
pub open spec fn unfenced(raw: Seq<char>) -> Seq<char> {
    let t = trim(raw);
    let inner = if starts_with(t, "```json"@) {
        Some(t.skip(7))
    } else if starts_with(t, "```"@) {
        Some(t.skip(3))
    } else {
        None
    };
    match inner {
        Some(a) => if ends_with(a, "```"@) {
            trim(a.take(a.len() - 3))
        } else {
            t
        },
        None => t,
    }
}

fn skip_chars(cs: &Vec<char>, k: usize) -> (r: Vec<char>)
    requires
        k <= cs@.len(),
    ensures
        r@ == cs@.skip(k as int),
{
    let n = cs.len();
    let mut out: Vec<char> = Vec::new();
    let mut i: usize = k;
    while i < n
        invariant
            n == cs@.len(),
            k <= i <= n,
            out@ == cs@.subrange(k as int, i as int),
        decreases n - i,
    {
        out.push(cs[i]);
        assert(out@ =~= cs@.subrange(k as int, i + 1));
        i = i + 1;
    }
    assert(cs@.subrange(k as int, n as int) =~= cs@.skip(k as int));
    out
}

/// The reply out of its Markdown fence.
pub fn strip_json_fence(raw: &str) -> (r: String)
    ensures
        r@ == unfenced(raw@),
{
    proof {
        reveal_strlit("```json");
        reveal_strlit("```");
    }
    let t = trim_str(raw);
    let tc = chars_of(t.as_str());
    let inner = if str_starts_with(t.as_str(), "```json") {
        Some(skip_chars(&tc, 7))
    } else if str_starts_with(t.as_str(), "```") {
        Some(skip_chars(&tc, 3))
    } else {
        None
    };
    match inner {
        Some(a) => {
            let m = a.len();
            if m >= 3 && a[m - 3] == '`' && a[m - 2] == '`' && a[m - 1] == '`' {
                proof {
                    assert(a@.subrange(m - 3, m as int) =~= "```"@);
                }
                let mut body: Vec<char> = Vec::new();
                let mut i: usize = 0;
                while i < m - 3
                    invariant
                        m == a@.len(),
                        m >= 3,
                        i <= m - 3,
                        body@ == a@.take(i as int),
                    decreases m - 3 - i,
                {
                    body.push(a[i]);
                    assert(body@ =~= a@.take(i + 1));
                    i = i + 1;
                }
                let inner_trimmed = trim_chars(&body);
                return string_from_chars(inner_trimmed.as_slice());
            }
            proof {
                if m >= 3 && a@.subrange(m - 3, m as int) == "```"@ {
                    assert(a@[m - 3] == a@.subrange(m - 3, m as int)[0]);
                    assert(a@[m - 2] == a@.subrange(m - 3, m as int)[1]);
                    assert(a@[m - 1] == a@.subrange(m - 3, m as int)[2]);
                }
            }
            t
        },
        None => t,
    }
}

/// The texts to try to read a provider's reply from, in order: the reply as it is, the reply
/// out of its Markdown fence, and its first balanced object where it has one.
pub fn period_provider_json_candidates(raw: &str) -> (r: Vec<String>)
    ensures
        r@.len() >= 2,
        r@[0]@ == raw@,
        r@[1]@ == unfenced(raw@),
        match balanced_object(raw@) {
            Some(o) => r@.len() == 3 && r@[2]@ == o,
            None => r@.len() == 2,
        },
{
    let mut out: Vec<String> = Vec::new();
    out.push(raw.to_owned());
    out.push(strip_json_fence(raw));
    match extract_balanced_json_object(raw) {
        Some(o) => {
            out.push(o);
        },
        None => {},
    }
    out
}

// ---------------------------------------------------------------------------------------------
// Fields a writer request must carry
// ---------------------------------------------------------------------------------------------

/// The string `request[field]`; refused where it is missing or not a string, the detail naming
/// the field.
pub fn period_writer_v2_required_str<'a>(request: &'a JsonValue, field: &str) -> (r: Result<&'a str, GenerationError>)
    ensures
        match r {
            Ok(s) => field_str(*request, field@) == Some(s@),
            Err(e) => field_str(*request, field@) is None && err_code(e) == "HOROSCOPE_PERIOD_WRITER_REQUEST_V2_INVALID"@
                && field_str(e.detail.details, "missing_or_invalid_field"@) == Some(field@),
        },
{
    match request.field_str(field) {
        Some(s) => Ok(s),
        None => Err(quality_error(
            "HOROSCOPE_PERIOD_WRITER_REQUEST_V2_INVALID",
            crate::error::detail_str("missing_or_invalid_field", field),
        )),
    }
}

/// Why a provider left its reply incomplete: a copy of `incomplete_details.reason` in its
/// metadata, `null` where there is none.
pub fn period_provider_incomplete_reason(provider_metadata: &JsonValue) -> (r: JsonValue)
    ensures
        json_same(
            r,
            match json_walk(*provider_metadata, seq!["incomplete_details"@, "reason"@]) {
                Some(v) => v,
                None => JsonValue::Null,
            },
        ),
{
    let path = ["incomplete_details", "reason"];
    proof {
        assert(crate::period_payload::views(path@) =~= seq!["incomplete_details"@, "reason"@]);
    }
    match crate::period_quality::walk_path(provider_metadata, &path) {
        Some(v) => json_clone(v),
        None => JsonValue::Null,
    }
}

proof fn lemma_first_close(t: Seq<char>, i: nat)
    ensures
        first_close_from(t, i) matches Some(k) ==> i <= k < t.len() && closes_at(t, k as int),
    decreases t.len() - i,
{
    if i < t.len() && !closes_at(t, i as int) {
        lemma_first_close(t, i + 1);
    }
}

/// The first balanced object of a text is a piece of it that opens with `{`, closes with `}`,
/// and leaves the scan outside any string at depth zero.
pub proof fn law_balanced_object_shape(raw: Seq<char>)
    ensures
        balanced_object(raw) matches Some(o) ==> {
            &&& o.len() >= 1
            &&& o[0] == '{'
            &&& o.last() == '}'
            &&& scan(o).depth == 0
            &&& !scan(o).in_string
            &&& exists|i: int| crate::text::occurs_at(raw, o, i)
        },
{
    if let Some(start) = first_index_from(raw, '{', 0) {
        lemma_first_index(raw, '{', 0);
        let t = raw.skip(start as int);
        lemma_first_close(t, 0);
        if let Some(k) = first_close_from(t, 0) {
            let o = t.take((k + 1) as int);
            assert(o.drop_last() =~= t.take(k as int));
            assert(o.last() == t[k as int]);
            assert(o[0] == t[0]);
            assert(raw.subrange(start as int, (start + o.len()) as int) =~= o);
            assert(crate::text::occurs_at(raw, o, start as int));
        }
    }
}

} // verus!
