//! Public labels of a seven-day reading, read from the reference tables: themes, tones, natal
//! focuses, planets and day labels.
use vstd::prelude::*;

use crate::json::{JsonValue, field_str, json_at, json_bool, json_int};
use crate::period_editorial::{editorial_theme_key, period_editorial_theme_key};
use crate::public_request::{chrono_ymd_parts, ymd_date_parts};
use crate::text::{decimal, decimal_string, is_blank, lowercase_of, str_equal, str_is_blank, to_lowercase, trim, trim_str};

verus! {

// ---------------------------------------------------------------------------------------------
// Rows of the tables
// ---------------------------------------------------------------------------------------------

/// A row that its flag does not switch off (a missing or non-boolean flag keeps it).
pub open spec fn row_on(row: JsonValue, flag: Seq<char>) -> bool {
    json_bool(json_at(row, flag)) != Some(false)
}

fn row_is_on(row: &JsonValue, flag: &str) -> (r: bool)
    ensures
        r == row_on(*row, flag@),
{
    match row.get(flag) {
        Some(v) => match v.as_bool() {
            Some(b) => b,
            None => true,
        },
        None => true,
    }
}

/// The last row that counts for a code: switched on by `flag`, with `code_field` equal to the
/// code and a string under each of `needed` (later rows replace earlier ones).
pub open spec fn last_row(
    rows: Seq<JsonValue>,
    flag: Seq<char>,
    code_field: Seq<char>,
    code: Seq<char>,
    needed: Seq<Seq<char>>,
) -> Option<JsonValue>
    decreases rows.len(),
{
    if rows.len() == 0 {
        None
    } else {
        let row = rows.last();
        if row_on(row, flag) && field_str(row, code_field) == Some(code) && forall|k: int|
            0 <= k < needed.len() ==> field_str(row, #[trigger] needed[k]) is Some {
            Some(row)
        } else {
            last_row(rows.drop_last(), flag, code_field, code, needed)
        }
    }
}

/// The row found for a code is switched on, carries the code and a string under each needed
/// field.
pub proof fn lemma_last_row_props(
    rows: Seq<JsonValue>,
    flag: Seq<char>,
    code_field: Seq<char>,
    code: Seq<char>,
    needed: Seq<Seq<char>>,
)
    ensures
        last_row(rows, flag, code_field, code, needed) matches Some(r) ==> {
            &&& row_on(r, flag)
            &&& field_str(r, code_field) == Some(code)
            &&& forall|k: int| 0 <= k < needed.len() ==> field_str(r, #[trigger] needed[k]) is Some
        },
    decreases rows.len(),
{
    if rows.len() > 0 {
        lemma_last_row_props(rows.drop_last(), flag, code_field, code, needed);
    }
}

fn has_strings(row: &JsonValue, needed: &[&str]) -> (r: bool)
    ensures
        r == forall|k: int| 0 <= k < needed@.len() ==> field_str(*row, #[trigger] crate::period_payload::views(needed@)[k]) is Some,
{
    let n = needed.len();
    let mut k: usize = 0;
    while k < n
        invariant
            n == needed@.len(),
            k <= n,
            forall|j: int| 0 <= j < k ==> field_str(*row, #[trigger] crate::period_payload::views(needed@)[j]) is Some,
        decreases n - k,
    {
        if row.field_str(needed[k]).is_none() {
            assert(field_str(*row, crate::period_payload::views(needed@)[k as int]) is None);
            return false;
        }
        k = k + 1;
    }
    true
}

/// The last row that counts for a code.
pub fn find_last_row<'a>(
    rows: &'a Vec<JsonValue>,
    flag: &str,
    code_field: &str,
    code: &str,
    needed: &[&str],
) -> (r: Option<&'a JsonValue>)
    ensures
        crate::json::opt_deref(r) == last_row(rows@, flag@, code_field@, code@, crate::period_payload::views(needed@)),
{
    let ghost nv = crate::period_payload::views(needed@);
    let mut i: usize = rows.len();
    proof {
        assert(rows@.take(i as int) =~= rows@);
    }
    while i > 0
        invariant
            i <= rows@.len(),
            nv == crate::period_payload::views(needed@),
            last_row(rows@.take(i as int), flag@, code_field@, code@, nv) == last_row(rows@, flag@, code_field@, code@, nv),
        decreases i,
    {
        let row = &rows[i - 1];
        proof {
            assert(rows@.take(i as int).last() == rows@[i - 1]);
            assert(rows@.take(i as int).drop_last() =~= rows@.take(i - 1));
        }
        let code_matches = match row.field_str(code_field) {
            Some(c) => str_equal(c, code),
            None => false,
        };
        if row_is_on(row, flag) && code_matches && has_strings(row, needed) {
            return Some(row);
        }
        i = i - 1;
    }
    None
}

// ---------------------------------------------------------------------------------------------
// Themes
// ---------------------------------------------------------------------------------------------

/// The fields a theme row can give.
pub open spec fn theme_field_names() -> Seq<Seq<char>> {
    seq![
        "public_label"@, "domain_title"@, "domain_focus"@, "best_day_title"@, "watch_window_title"@,
        "watch_window_point"@,
    ]
}

/// The row of a theme: the last enabled row with its code.
pub open spec fn theme_row(rows: Seq<JsonValue>, code: Seq<char>) -> Option<JsonValue> {
    last_row(rows, "is_enabled"@, "theme_code"@, code, seq![])
}

/// A field of a theme, read from the row of its editorial key, or else from the `default`
/// row; the fallback where that row lacks the field or no row is found.
pub open spec fn theme_field(rows: Seq<JsonValue>, theme: Seq<char>, field: Seq<char>, fallback: Seq<char>) -> Seq<char> {
    let row = match theme_row(rows, editorial_theme_key(theme)) {
        Some(r) => Some(r),
        None => theme_row(rows, "default"@),
    };
    match row {
        Some(r) => if theme_field_names().contains(field) && field_str(r, field) is Some {
            field_str(r, field)->0
        } else {
            fallback
        },
        None => fallback,
    }
}

fn is_theme_field_name(field: &str) -> (r: bool)
    ensures
        r == theme_field_names().contains(field@),
{
    let names = [
        "public_label", "domain_title", "domain_focus", "best_day_title", "watch_window_title", "watch_window_point",
    ];
    assert(crate::period_payload::views(names@) =~= theme_field_names());
    let mut k: usize = 0;
    while k < 6
        invariant
            k <= 6,
            crate::period_payload::views(names@) == theme_field_names(),
            forall|j: int| 0 <= j < k ==> theme_field_names()[j] != field@,
        decreases 6 - k,
    {
        if str_equal(names[k], field) {
            assert(theme_field_names()[k as int] == field@);
            return true;
        }
        k = k + 1;
    }
    false
}

/// A field of a theme, from the theme table.
pub fn period_public_theme_field(theme_code: &str, field: &str, fallback: &str, rows: &Vec<JsonValue>) -> (r: String)
    ensures
        r@ == theme_field(rows@, theme_code@, field@, fallback@),
{
    let key = period_editorial_theme_key(theme_code);
    let empty: [&str; 0] = [];
    assert(crate::period_payload::views(empty@) =~= Seq::<Seq<char>>::empty());
    let row = match find_last_row(rows, "is_enabled", "theme_code", key, &empty) {
        Some(r) => Some(r),
        None => find_last_row(rows, "is_enabled", "theme_code", "default", &empty),
    };
    match row {
        Some(r) => {
            if is_theme_field_name(field) {
                match r.field_str(field) {
                    Some(v) => {
                        return v.to_owned();
                    },
                    None => {},
                }
            }
            fallback.to_owned()
        },
        None => fallback.to_owned(),
    }
}

/// The public label of a theme (its code where the table has none).
pub fn period_theme_public_label(theme_code: &str, rows: &Vec<JsonValue>) -> (r: String)
    ensures
        r@ == theme_field(rows@, theme_code@, "public_label"@, theme_code@),
{
    period_public_theme_field(theme_code, "public_label", theme_code, rows)
}

/// The title of a theme's domain section (its code where the table has none).
pub fn period_domain_title(theme_code: &str, rows: &Vec<JsonValue>) -> (r: String)
    ensures
        r@ == theme_field(rows@, theme_code@, "domain_title"@, theme_code@),
{
    period_public_theme_field(theme_code, "domain_title", theme_code, rows)
}

/// The title of a best day of a theme.
pub fn period_best_day_title(theme: &str, rows: &Vec<JsonValue>) -> (r: String)
    ensures
        r@ == theme_field(rows@, theme@, "best_day_title"@, "Jour favorable"@),
{
    period_public_theme_field(theme, "best_day_title", "Jour favorable", rows)
}

/// The title of a watch window of a theme; the starting hour plays no part.
pub fn period_watch_window_title(theme: &str, start_label: &str, rows: &Vec<JsonValue>) -> (r: String)
    ensures
        r@ == theme_field(rows@, theme@, "watch_window_title"@, "Ralentir avant de répondre"@),
{
    let _ = start_label;
    period_public_theme_field(theme, "watch_window_title", "Ralentir avant de répondre", rows)
}

/// What to watch in a watch window of a theme.
pub fn period_watch_window_point(theme: &str, rows: &Vec<JsonValue>) -> (r: String)
    ensures
        r@ == theme_field(
            rows@,
            theme@,
            "watch_window_point"@,
            "Gardez une marge avant de transformer l'impression en décision définitive."@,
        ),
{
    period_public_theme_field(
        theme,
        "watch_window_point",
        "Gardez une marge avant de transformer l'impression en décision définitive.",
        rows,
    )
}

/// The public label of a theme given as a code, the text itself where the table has no label
/// for it (the last enabled row with a code and a label).
pub open spec fn theme_label_if_code(rows: Seq<JsonValue>, theme: Seq<char>) -> Seq<char> {
    match last_row(rows, "is_enabled"@, "theme_code"@, editorial_theme_key(theme), seq!["public_label"@]) {
        Some(r) => field_str(r, "public_label"@)->0,
        None => theme,
    }
}

/// The public label of a theme given as a code.
pub fn period_theme_public_label_if_code(theme: &str, rows: &Vec<JsonValue>) -> (r: String)
    ensures
        r@ == theme_label_if_code(rows@, theme@),
{
    let needed = ["public_label"];
    assert(crate::period_payload::views(needed@) =~= seq!["public_label"@]);
    let key = period_editorial_theme_key(theme);
    proof {
        lemma_last_row_props(rows@, "is_enabled"@, "theme_code"@, key@, seq!["public_label"@]);
    }
    match find_last_row(rows, "is_enabled", "theme_code", key, &needed) {
        Some(r) => match r.field_str("public_label") {
            Some(label) => label.to_owned(),
            None => {
                assert(field_str(*r, seq!["public_label"@][0]) is Some);
                assert(false);
                theme.to_owned()
            },
        },
        None => theme.to_owned(),
    }
}

// ---------------------------------------------------------------------------------------------
// Tones
// ---------------------------------------------------------------------------------------------

/// The label of a tone: the last active row with its code and a French label.
pub open spec fn tone_row(rows: Seq<JsonValue>, code: Seq<char>) -> Option<JsonValue> {
    last_row(rows, "is_active"@, "tone_code"@, code, seq!["label_fr"@])
}

/// The public label of a tone code, the code itself where the table has none.
pub open spec fn tone_label(rows: Seq<JsonValue>, tone: Seq<char>) -> Seq<char> {
    match tone_row(rows, tone) {
        Some(r) => field_str(r, "label_fr"@)->0,
        None => tone,
    }
}

/// The public label of a tone code.
pub fn period_tone_public_label(tone_code: &str, rows: &Vec<JsonValue>) -> (r: String)
    ensures
        r@ == tone_label(rows@, tone_code@),
{
    let needed = ["label_fr"];
    assert(crate::period_payload::views(needed@) =~= seq!["label_fr"@]);
    proof {
        lemma_last_row_props(rows@, "is_active"@, "tone_code"@, tone_code@, seq!["label_fr"@]);
    }
    match find_last_row(rows, "is_active", "tone_code", tone_code, &needed) {
        Some(r) => match r.field_str("label_fr") {
            Some(label) => label.to_owned(),
            None => {
                assert(field_str(*r, seq!["label_fr"@][0]) is Some);
                assert(false);
                tone_code.to_owned()
            },
        },
        None => tone_code.to_owned(),
    }
}

/// A text that is the public label of some tone.
pub open spec fn is_tone_label(rows: Seq<JsonValue>, text: Seq<char>) -> bool {
    exists|c: Seq<char>| #[trigger] tone_row(rows, c) matches Some(r) && field_str(r, "label_fr"@) == Some(text)
}

/// The row found for a code is one of the rows, and carries the code.
pub proof fn lemma_last_row_member(
    rows: Seq<JsonValue>,
    flag: Seq<char>,
    code_field: Seq<char>,
    code: Seq<char>,
    needed: Seq<Seq<char>>,
)
    ensures
        last_row(rows, flag, code_field, code, needed) matches Some(r) ==> exists|k: int|
            0 <= k < rows.len() && rows[k] == r && field_str(r, code_field) == Some(code),
    decreases rows.len(),
{
    if rows.len() > 0 {
        let row = rows.last();
        if !(row_on(row, flag) && field_str(row, code_field) == Some(code) && forall|k: int|
            0 <= k < needed.len() ==> field_str(row, #[trigger] needed[k]) is Some) {
            lemma_last_row_member(rows.drop_last(), flag, code_field, code, needed);
            if let Some(r) = last_row(rows, flag, code_field, code, needed) {
                let k = choose|k: int| 0 <= k < rows.drop_last().len() && rows.drop_last()[k] == r && field_str(r, code_field) == Some(code);
                assert(rows[k] == r);
            }
        } else {
            assert(rows[rows.len() - 1] == row);
        }
    }
}

/// A tone made public: blank stays as it is; a known code (trimmed and lower-cased) gives its
/// label; a known label (trimmed and lower-cased) is kept in that form; anything else stays.
pub open spec fn tone_label_if_code(rows: Seq<JsonValue>, tone: Seq<char>) -> Seq<char> {
    let normalized = lowercase_of(trim(tone));
    if normalized.len() == 0 {
        tone
    } else if tone_row(rows, normalized) is Some {
        field_str(tone_row(rows, normalized)->0, "label_fr"@)->0
    } else if is_tone_label(rows, normalized) {
        normalized
    } else {
        tone
    }
}

/// A tone made public.
pub fn period_tone_public_label_if_code(tone: &str, rows: &Vec<JsonValue>) -> (r: String)
    ensures
        r@ == tone_label_if_code(rows@, tone@),
{
    let trimmed = trim_str(tone);
    let normalized = to_lowercase(trimmed.as_str());
    if crate::text::chars_of(normalized.as_str()).len() == 0 {
        return tone.to_owned();
    }
    let needed = ["label_fr"];
    assert(crate::period_payload::views(needed@) =~= seq!["label_fr"@]);
    proof {
        lemma_last_row_props(rows@, "is_active"@, "tone_code"@, normalized@, seq!["label_fr"@]);
    }
    match find_last_row(rows, "is_active", "tone_code", normalized.as_str(), &needed) {
        Some(r) => match r.field_str("label_fr") {
            Some(label) => {
                return label.to_owned();
            },
            None => {
                assert(field_str(*r, seq!["label_fr"@][0]) is Some);
                assert(false);
            },
        },
        None => {},
    }
    assert(tone_row(rows@, normalized@) is None);
    let n = rows.len();
    let mut i: usize = 0;
    while i < n
        invariant
            n == rows@.len(),
            i <= n,
            crate::period_payload::views(needed@) == seq!["label_fr"@],
            normalized@ == lowercase_of(trim(tone@)),
            normalized@.len() > 0,
            tone_row(rows@, normalized@) is None,
            forall|j: int|
                0 <= j < i ==> (field_str(#[trigger] rows@[j], "tone_code"@) matches Some(c) ==> !(tone_row(rows@, c) matches Some(
                    r,
                ) && field_str(r, "label_fr"@) == Some(normalized@))),
        decreases n - i,
    {
        let row = &rows[i];
        match row.field_str("tone_code") {
            Some(c) => {
                match find_last_row(rows, "is_active", "tone_code", c, &needed) {
                    Some(last) => {
                        match last.field_str("label_fr") {
                            Some(label) => {
                                if str_equal(label, normalized.as_str()) {
                                    assert(tone_row(rows@, c@) matches Some(r) && field_str(r, "label_fr"@) == Some(normalized@));
                                    return normalized;
                                }
                            },
                            None => {},
                        }
                    },
                    None => {},
                }
            },
            None => {},
        }
        i = i + 1;
    }
    proof {
        assert forall|c: Seq<char>| !(#[trigger] tone_row(rows@, c) matches Some(r) && field_str(r, "label_fr"@) == Some(normalized@)) by {
            lemma_last_row_member(rows@, "is_active"@, "tone_code"@, c, seq!["label_fr"@]);
            if let Some(r) = tone_row(rows@, c) {
                let k = choose|k: int| 0 <= k < rows@.len() && rows@[k] == r && field_str(r, "tone_code"@) == Some(c);
                assert(field_str(rows@[k], "tone_code"@) == Some(c));
            }
        }
    }
    tone.to_owned()
}

// ---------------------------------------------------------------------------------------------
// Natal focuses, planets and days
// ---------------------------------------------------------------------------------------------

/// The label and hint of a natal focus.
pub struct PeriodNatalFocus {
    pub label: String,
    pub hint: String,
}

/// The row of a natal focus: the last active row with its code, a French label and a French
/// hint.
pub open spec fn focus_row(rows: Seq<JsonValue>, code: Seq<char>) -> Option<JsonValue> {
    last_row(rows, "is_active"@, "focus_code"@, code, seq!["label_fr"@, "hint_fr"@])
}

/// The label and hint of a natal focus: from its row, else the code as label and no hint.
pub fn period_natal_focus(code: &str, rows: &Vec<JsonValue>) -> (r: PeriodNatalFocus)
    ensures
        match focus_row(rows@, code@) {
            Some(row) => field_str(row, "label_fr"@) == Some(r.label@) && field_str(row, "hint_fr"@) == Some(r.hint@),
            None => r.label@ == code@ && r.hint@ == Seq::<char>::empty(),
        },
{
    let needed = ["label_fr", "hint_fr"];
    assert(crate::period_payload::views(needed@) =~= seq!["label_fr"@, "hint_fr"@]);
    proof {
        lemma_last_row_props(rows@, "is_active"@, "focus_code"@, code@, seq!["label_fr"@, "hint_fr"@]);
    }
    match find_last_row(rows, "is_active", "focus_code", code, &needed) {
        Some(row) => {
            let label = match row.field_str("label_fr") {
                Some(l) => l.to_owned(),
                None => {
                    assert(field_str(*row, seq!["label_fr"@, "hint_fr"@][0]) is Some);
                    String::new()
                },
            };
            let hint = match row.field_str("hint_fr") {
                Some(h) => h.to_owned(),
                None => {
                    assert(field_str(*row, seq!["label_fr"@, "hint_fr"@][1]) is Some);
                    String::new()
                },
            };
            PeriodNatalFocus { label, hint }
        },
        None => PeriodNatalFocus { label: code.to_owned(), hint: String::new() },
    }
}

/// The natal focus of a fact: its natal target where it names one, else its natal house (from
/// 1 to 12) as `natal_house_N`, else the sixth house.
pub open spec fn natal_focus_code(fact: JsonValue) -> Seq<char> {
    match field_str(fact, "natal_target"@) {
        Some(t) if !is_blank(t) => t,
        _ => match json_int(json_at(fact, "natal_house"@)) {
            Some(h) if 1 <= h <= 12 => "natal_house_"@ + decimal(h as nat),
            _ => "natal_house_6"@,
        },
    }
}

/// The natal focus of a fact.
pub fn period_natal_focus_code(fact: &JsonValue) -> (r: String)
    ensures
        r@ == natal_focus_code(*fact),
{
    match fact.field_str("natal_target") {
        Some(t) => {
            if !str_is_blank(t) {
                return t.to_owned();
            }
        },
        None => {},
    }
    let house = match fact.get("natal_house") {
        Some(h) => h.as_i64(),
        None => None,
    };
    match house {
        Some(h) => {
            if 1 <= h && h <= 12 {
                let mut out = "natal_house_".to_owned();
                let digits = decimal_string(h as usize);
                out.append(digits.as_str());
                return out;
            }
        },
        None => {},
    }
    "natal_house_6".to_owned()
}

/// The public name of a planet, the code itself for any other body.
pub open spec fn object_label(object: Seq<char>) -> Seq<char> {
    if object == "sun"@ {
        "le Soleil"@
    } else if object == "moon"@ {
        "la Lune"@
    } else if object == "mercury"@ {
        "Mercure"@
    } else if object == "venus"@ {
        "Vénus"@
    } else if object == "mars"@ {
        "Mars"@
    } else if object == "jupiter"@ {
        "Jupiter"@
    } else if object == "saturn"@ {
        "Saturne"@
    } else {
        object
    }
}

/// The public name of a planet.
pub fn period_object_public_label(object_code: &str) -> (r: String)
    ensures
        r@ == object_label(object_code@),
{
    let label = if str_equal(object_code, "sun") {
        "le Soleil"
    } else if str_equal(object_code, "moon") {
        "la Lune"
    } else if str_equal(object_code, "mercury") {
        "Mercure"
    } else if str_equal(object_code, "venus") {
        "Vénus"
    } else if str_equal(object_code, "mars") {
        "Mars"
    } else if str_equal(object_code, "jupiter") {
        "Jupiter"
    } else if str_equal(object_code, "saturn") {
        "Saturne"
    } else {
        object_code
    };
    label.to_owned()
}

/// The French name of a day of the week, counted from Monday as 0.
pub open spec fn weekday_name(w: u32) -> Seq<char> {
    if w == 0 {
        "Lundi"@
    } else if w == 1 {
        "Mardi"@
    } else if w == 2 {
        "Mercredi"@
    } else if w == 3 {
        "Jeudi"@
    } else if w == 4 {
        "Vendredi"@
    } else if w == 5 {
        "Samedi"@
    } else {
        "Dimanche"@
    }
}

/// A number below 100 on two digits (`%d` and `%m` of a date).
pub open spec fn two_digits(n: nat) -> Seq<char> {
    if n < 10 {
        seq!['0'] + decimal(n)
    } else {
        decimal(n)
    }
}

fn two_digit_string(n: u32) -> (r: String)
    requires
        n < 100,
    ensures
        r@ == two_digits(n as nat),
{
    let digits = decimal_string(n as usize);
    if n < 10 {
        let mut out = "0".to_owned();
        out.append(digits.as_str());
        proof {
            reveal_strlit("0");
            assert("0"@ =~= seq!['0']);
        }
        out
    } else {
        digits
    }
}

/// The label of a day: its French weekday name and its day and month on two digits each
/// (`Lundi 08/06`), or the text itself where chrono does not read it as a date.
pub open spec fn day_label(date: Seq<char>) -> Seq<char> {
    match chrono_ymd_parts(date) {
        Some(p) => weekday_name(p.0) + seq![' '] + two_digits(p.1 as nat) + seq!['/'] + two_digits(p.2 as nat),
        None => date,
    }
}

/// The label of a day.
pub fn public_day_label(date: &str) -> (r: String)
    ensures
        r@ == day_label(date@),
{
    match ymd_date_parts(date) {
        Some((w, d, m)) => {
            let name = if w == 0 {
                "Lundi"
            } else if w == 1 {
                "Mardi"
            } else if w == 2 {
                "Mercredi"
            } else if w == 3 {
                "Jeudi"
            } else if w == 4 {
                "Vendredi"
            } else if w == 5 {
                "Samedi"
            } else {
                "Dimanche"
            };
            let mut out = name.to_owned();
            out.append(" ");
            let dd = two_digit_string(d);
            out.append(dd.as_str());
            out.append("/");
            let mm = two_digit_string(m);
            out.append(mm.as_str());
            proof {
                reveal_strlit(" ");
                reveal_strlit("/");
                assert(" "@ =~= seq![' ']);
                assert("/"@ =~= seq!['/']);
            }
            out
        },
        None => date.to_owned(),
    }
}

} // verus!
