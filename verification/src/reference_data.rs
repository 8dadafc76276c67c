//! Reference data of the horoscope services: time slots and the advice axes of the themes.
use vstd::prelude::*;

use crate::error::GenerationError;
use crate::json::{JsonValue, field_str, json_at, json_str};
use crate::text::{is_blank, str_equal, str_is_blank};

verus! {

/// A time slot of a daily service.
#[derive(Debug)]
pub struct SlotProfile {
    pub service_code: String,
    pub slot_code: String,
    pub start_local_time: String,
    pub end_local_time: String,
    pub reference_local_time: String,
    pub slot_label: Option<String>,
    pub is_public: Option<bool>,
    pub sort_order: i32,
}

/// The built-in label of a slot code.
pub open spec fn default_slot_label(slot_code: Seq<char>) -> Seq<char> {
    if slot_code == "morning"@ {
        "Matin"@
    } else if slot_code == "afternoon"@ {
        "Après-midi"@
    } else if slot_code == "evening"@ {
        "Soir"@
    } else {
        "Moment"@
    }
}

/// The built-in label of a slot code.
pub fn slot_label(slot_code: &str) -> (r: &'static str)
    ensures
        r@ == default_slot_label(slot_code@),
{
    if str_equal(slot_code, "morning") {
        "Matin"
    } else if str_equal(slot_code, "afternoon") {
        "Après-midi"
    } else if str_equal(slot_code, "evening") {
        "Soir"
    } else {
        "Moment"
    }
}

/// The first profile of the slot code, if any.
pub open spec fn first_slot(profiles: Seq<SlotProfile>, slot_code: Seq<char>) -> Option<SlotProfile>
    decreases profiles.len(),
{
    if profiles.len() == 0 {
        None
    } else if profiles[0].slot_code@ == slot_code {
        Some(profiles[0])
    } else {
        first_slot(profiles.drop_first(), slot_code)
    }
}

/// The label of a slot: that of the first profile with the code, where it has one, else the
/// built-in label.
pub open spec fn profile_slot_label(profiles: Seq<SlotProfile>, slot_code: Seq<char>) -> Seq<char> {
    match first_slot(profiles, slot_code) {
        Some(p) => match p.slot_label {
            Some(l) => l@,
            None => default_slot_label(slot_code),
        },
        None => default_slot_label(slot_code),
    }
}

/// The label of a slot among the service's slot profiles.
pub fn slot_profile_label(profiles: &Vec<SlotProfile>, slot_code: &str) -> (r: String)
    ensures
        r@ == profile_slot_label(profiles@, slot_code@),
{
    let n = profiles.len();
    let mut i: usize = 0;
    proof {
        assert(profiles@.skip(0) =~= profiles@);
    }
    while i < n
        invariant
            n == profiles@.len(),
            i <= n,
            first_slot(profiles@.skip(i as int), slot_code@) == first_slot(profiles@, slot_code@),
        decreases n - i,
    {
        proof {
            assert(profiles@.skip(i as int)[0] == profiles@[i as int]);
            assert(profiles@.skip(i as int).drop_first() =~= profiles@.skip(i + 1));
        }
        if str_equal(profiles[i].slot_code.as_str(), slot_code) {
            return match &profiles[i].slot_label {
                Some(l) => l.clone(),
                None => slot_label(slot_code).to_owned(),
            };
        }
        i = i + 1;
    }
    proof {
        assert(profiles@.skip(n as int).len() == 0);
    }
    slot_label(slot_code).to_owned()
}

/// A row of the advice axes that defines a theme: it names the theme and its advice axis.
pub open spec fn axis_row_for(row: JsonValue, theme_code: Seq<char>) -> bool {
    field_str(row, "theme_code"@) == Some(theme_code) && field_str(row, "advice_axis"@) is Some
}

/// The last row that defines the theme (later rows override earlier ones).
pub open spec fn last_axis_row(rows: Seq<JsonValue>, theme_code: Seq<char>) -> Option<JsonValue>
    decreases rows.len(),
{
    if rows.len() == 0 {
        None
    } else if axis_row_for(rows.last(), theme_code) {
        Some(rows.last())
    } else {
        last_axis_row(rows.drop_last(), theme_code)
    }
}

/// The public watch point of a theme, as the advice-axis rows define it.
pub open spec fn theme_watch_point(rows: Seq<JsonValue>, theme_code: Seq<char>) -> Option<Seq<char>> {
    if is_blank(theme_code) {
        None
    } else {
        match last_axis_row(rows, theme_code) {
            Some(row) => field_str(row, "public_watch_point"@),
            None => None,
        }
    }
}

/// The public watch point of a theme among the advice-axis rows: none for a blank theme, an
/// unknown theme, or a theme whose row has none.
pub fn public_watch_point_for_theme(theme_code: &str, axis_rows: &Vec<JsonValue>) -> (r: Result<
    Option<String>,
    GenerationError,
>)
    ensures
        r matches Ok(o) && match theme_watch_point(axis_rows@, theme_code@) {
            Some(t) => (o matches Some(s) && s@ == t),
            None => o is None,
        },
{
    if str_is_blank(theme_code) {
        return Ok(None);
    }
    let n = axis_rows.len();
    let mut i: usize = n;
    proof {
        assert(axis_rows@.take(n as int) =~= axis_rows@);
    }
    while i > 0
        invariant
            n == axis_rows@.len(),
            i <= n,
            !is_blank(theme_code@),
            last_axis_row(axis_rows@.take(i as int), theme_code@) == last_axis_row(axis_rows@, theme_code@),
        decreases i,
    {
        let row = &axis_rows[i - 1];
        proof {
            assert(axis_rows@.take(i as int).last() == axis_rows@[i - 1]);
            assert(axis_rows@.take(i as int).drop_last() =~= axis_rows@.take(i - 1));
        }
        let defines = match row.field_str("theme_code") {
            Some(t) => str_equal(t, theme_code) && row.field_str("advice_axis").is_some(),
            None => false,
        };
        if defines {
            return Ok(
                match row.field_str("public_watch_point") {
                    Some(p) => Some(p.to_owned()),
                    None => None,
                },
            );
        }
        i = i - 1;
    }
    Ok(None)
}

} // verus!
