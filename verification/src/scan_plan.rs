//! The scan profiles of the seven-day readings, and the checks a scan plan passes against the
//! window of its period: canonical UTC instants, one snapshot per profile time and included
//! day, distinct snapshot keys, and every snapshot inside the window.
use vstd::prelude::*;

use crate::error::{GenerationError, err_code, horoscope_error};
use crate::json::{JsonValue, field_arr, field_str, json_at};
use crate::period_metadata::{json_u64, row_flag};
use crate::text::{str_equal, string_list_contains, string_views};

verus! {

/// What `chrono::DateTime::parse_from_rfc3339(s)` makes of a text: `None` where it refuses it,
/// else the instant it names (whole seconds since the Unix epoch, then the nanoseconds past
/// them) and the text `to_rfc3339` gives of that instant in UTC.
pub uninterp spec fn rfc3339_reading(s: Seq<char>) -> Option<(i64, u32, Seq<char>)>;

/// `chrono::DateTime::parse_from_rfc3339(s)`, the date read as its `timestamp()`, its
/// `timestamp_subsec_nanos()` and `with_timezone(&Utc).to_rfc3339()`: the result is the named
/// reading of the text (the outside code reads nothing but the text).
#[verifier::external_body]
fn read_rfc3339(s: &str) -> (r: Option<(i64, u32, String)>)
    ensures
        match r {
            Some(p) => rfc3339_reading(s@) == Some((p.0, p.1, p.2@)),
            None => rfc3339_reading(s@) is None,
        },
{
    match chrono::DateTime::parse_from_rfc3339(s) {
        Ok(d) => Some((d.timestamp(), d.timestamp_subsec_nanos(), d.with_timezone(&chrono::Utc).to_rfc3339())),
        Err(_) => None,
    }
}

/// The error of a period window whose dates do not match.
pub open spec fn date_range_mismatch() -> Seq<char> {
    "HOROSCOPE_PERIOD_DATE_RANGE_MISMATCH"@
}

/// The error of a scan plan that does not fit its profile or window.
pub open spec fn scan_plan_invalid() -> Seq<char> {
    "HOROSCOPE_PERIOD_SCAN_PLAN_INVALID"@
}

/// A text that names an instant the way `to_rfc3339` writes it in UTC.
pub open spec fn canonical_utc(raw: Seq<char>) -> bool {
    rfc3339_reading(raw) matches Some(p) && p.2 == raw
}

/// Accepts an RFC 3339 instant only as written in UTC by `to_rfc3339`; any other text is a
/// date range mismatch.
pub fn require_canonical_utc_offset(raw: &str) -> (r: Result<(), GenerationError>)
    ensures
        r is Ok <==> canonical_utc(raw@),
        r matches Err(e) ==> err_code(e) == date_range_mismatch(),
{
    match read_rfc3339(raw) {
        Some((_, _, utc)) => {
            if str_equal(utc.as_str(), raw) {
                Ok(())
            } else {
                Err(horoscope_error("HOROSCOPE_PERIOD_DATE_RANGE_MISMATCH"))
            }
        },
        None => Err(horoscope_error("HOROSCOPE_PERIOD_DATE_RANGE_MISMATCH")),
    }
}

/// How a scan profile samples each day of a period.
#[derive(Debug)]
pub struct ScanProfile {
    pub granularity: String,
    pub reference_time_local: String,
    pub expected_snapshots_per_day: usize,
}

/// A row of the scan profiles that serves a code: it carries the code and is not disabled.
pub open spec fn serves_scan_code(row: JsonValue, code: Seq<char>) -> bool {
    field_str(row, "scan_profile_code"@) == Some(code) && row_flag(row, "is_enabled"@, true)
}

/// The first row that serves a code.
pub open spec fn scan_row(rows: Seq<JsonValue>, code: Seq<char>) -> Option<JsonValue>
    decreases rows.len(),
{
    if rows.len() == 0 {
        None
    } else if serves_scan_code(rows[0], code) {
        Some(rows[0])
    } else {
        scan_row(rows.drop_first(), code)
    }
}

/// The profile read from the row that serves a code: its granularity, reference times and
/// number of snapshots per day, `None` where there is no such row or it lacks one of them.
pub open spec fn scan_profile_fields(rows: Seq<JsonValue>, code: Seq<char>) -> Option<(Seq<char>, Seq<char>, u64)> {
    match scan_row(rows, code) {
        Some(row) => match (
            field_str(row, "granularity"@),
            field_str(row, "reference_time_local"@),
            json_u64(json_at(row, "expected_snapshots_per_day"@)),
        ) {
            (Some(g), Some(t), Some(n)) => Some((g, t, n)),
            _ => None,
        },
        None => None,
    }
}

/// Reads the scan profile of a code from the rows of the scan profiles: the first row that
/// serves the code, which must name its granularity, its reference times and its number of
/// snapshots per day; else the scan plan is invalid.
pub fn scan_profile(rows: &Vec<JsonValue>, scan_profile_code: &str) -> (r: Result<ScanProfile, GenerationError>)
    ensures
        match scan_profile_fields(rows@, scan_profile_code@) {
            Some((g, t, n)) => r matches Ok(p) && p.granularity@ == g && p.reference_time_local@ == t
                && p.expected_snapshots_per_day == n as usize,
            None => r matches Err(e) && err_code(e) == scan_plan_invalid(),
        },
{
    let n = rows.len();
    let mut i: usize = 0;
    assert(rows@.skip(0) =~= rows@);
    while i < n
        invariant
            n == rows@.len(),
            i <= n,
            scan_row(rows@, scan_profile_code@) == scan_row(rows@.skip(i as int), scan_profile_code@),
        decreases n - i,
    {
        let row = &rows[i];
        proof {
            assert(rows@.skip(i as int)[0] == rows@[i as int]);
            assert(rows@.skip(i as int).drop_first() =~= rows@.skip(i + 1));
        }
        let enabled = match row.get("is_enabled") {
            Some(v) => match v.as_bool() {
                Some(b) => b,
                None => true,
            },
            None => true,
        };
        let serves = match row.field_str("scan_profile_code") {
            Some(c) => str_equal(c, scan_profile_code),
            None => false,
        };
        if serves && enabled {
            let granularity = match row.field_str("granularity") {
                Some(g) => g.to_owned(),
                None => {
                    return Err(horoscope_error("HOROSCOPE_PERIOD_SCAN_PLAN_INVALID"));
                },
            };
            let reference_time_local = match row.field_str("reference_time_local") {
                Some(t) => t.to_owned(),
                None => {
                    return Err(horoscope_error("HOROSCOPE_PERIOD_SCAN_PLAN_INVALID"));
                },
            };
            let per_day: u64 = match row.get("expected_snapshots_per_day") {
                Some(v) => match v.as_i64() {
                    Some(k) => if k >= 0 {
                        k as u64
                    } else {
                        return Err(horoscope_error("HOROSCOPE_PERIOD_SCAN_PLAN_INVALID"));
                    },
                    None => {
                        return Err(horoscope_error("HOROSCOPE_PERIOD_SCAN_PLAN_INVALID"));
                    },
                },
                None => {
                    return Err(horoscope_error("HOROSCOPE_PERIOD_SCAN_PLAN_INVALID"));
                },
            };
            return Ok(
                ScanProfile {
                    granularity,
                    reference_time_local,
                    expected_snapshots_per_day: per_day as usize,
                },
            );
        }
        i = i + 1;
    }
    Err(horoscope_error("HOROSCOPE_PERIOD_SCAN_PLAN_INVALID"))
}

/// An instant, in seconds since the Unix epoch and nanoseconds past them.
pub open spec fn instant_before(a: (i64, u32), b: (i64, u32)) -> bool {
    a.0 < b.0 || (a.0 == b.0 && a.1 < b.1)
}

/// The instant of a reading.
pub open spec fn instant_of(p: (i64, u32, Seq<char>)) -> (i64, u32) {
    (p.0, p.1)
}

/// What is wrong with the snapshot at `i`, the earlier ones being sound: a missing key, a key
/// taken by an earlier snapshot, a missing date or UTC instant (scan plan invalid); an instant
/// not written in UTC by `to_rfc3339` (date range mismatch); an instant outside
/// `[start, end)` (scan plan invalid).
pub open spec fn snapshot_issue(snaps: Seq<JsonValue>, i: int, start: (i64, u32), end: (i64, u32)) -> Option<Seq<char>> {
    match field_str(snaps[i], "snapshot_key"@) {
        None => Some(scan_plan_invalid()),
        Some(k) => if exists|j: int| 0 <= j < i && field_str(#[trigger] snaps[j], "snapshot_key"@) == Some(k) {
            Some(scan_plan_invalid())
        } else if field_str(snaps[i], "date"@) is None {
            Some(scan_plan_invalid())
        } else {
            match field_str(snaps[i], "reference_datetime_utc"@) {
                None => Some(scan_plan_invalid()),
                Some(u) => if !canonical_utc(u) {
                    Some(date_range_mismatch())
                } else {
                    let t = instant_of(rfc3339_reading(u)->0);
                    if instant_before(t, start) || !instant_before(t, end) {
                        Some(scan_plan_invalid())
                    } else {
                        None
                    }
                },
            }
        },
    }
}

/// The first issue among the first `n` snapshots, in order.
pub open spec fn snapshots_issue(snaps: Seq<JsonValue>, n: int, start: (i64, u32), end: (i64, u32)) -> Option<Seq<char>>
    decreases n,
{
    if n <= 0 {
        None
    } else {
        match snapshots_issue(snaps, n - 1, start, end) {
            Some(e) => Some(e),
            None => snapshot_issue(snaps, n - 1, start, end),
        }
    }
}

/// Some snapshot falls on the date.
pub open spec fn dated(snaps: Seq<JsonValue>, d: Seq<char>) -> bool {
    exists|j: int| 0 <= j < snaps.len() && field_str(#[trigger] snaps[j], "date"@) == Some(d)
}

/// Some included date (a text) that no snapshot falls on.
pub open spec fn undated_day(included: Seq<JsonValue>, snaps: Seq<JsonValue>) -> bool {
    exists|i: int| 0 <= i < included.len() && (#[trigger] included[i] matches JsonValue::Str(d) && !dated(snaps, d@))
}

/// The first issue of the snapshots in order, else an included day that none covers.
pub open spec fn snapshots_and_days_issue(
    included: Seq<JsonValue>,
    snaps: Seq<JsonValue>,
    start: (i64, u32),
    end: (i64, u32),
) -> Option<Seq<char>> {
    match snapshots_issue(snaps, snaps.len() as int, start, end) {
        Some(e) => Some(e),
        None => if undated_day(included, snaps) {
            Some(scan_plan_invalid())
        } else {
            None
        },
    }
}

proof fn lemma_issue_persists(snaps: Seq<JsonValue>, k: int, m: int, start: (i64, u32), end: (i64, u32))
    requires
        0 <= k <= m,
        snapshots_issue(snaps, k, start, end) is Some,
    ensures
        snapshots_issue(snaps, m, start, end) == snapshots_issue(snaps, k, start, end),
    decreases m - k,
{
    if m > k {
        lemma_issue_persists(snaps, k, m - 1, start, end);
    }
}

/// What is wrong with the snapshots of a plan once the window is read: the count it states,
/// its profile, the number of snapshots against the included days, then each snapshot in
/// order, then the included days that no snapshot covers.
pub open spec fn snapshots_check(
    included: Seq<JsonValue>,
    scan_plan: JsonValue,
    rows: Seq<JsonValue>,
    start: (i64, u32),
    end: (i64, u32),
) -> Option<Seq<char>> {
    match field_arr(scan_plan, "snapshots"@) {
        None => Some(scan_plan_invalid()),
        Some(snaps) => if !(json_u64(json_at(scan_plan, "snapshot_count"@)) matches Some(c) && c == snaps.len()) {
            Some(scan_plan_invalid())
        } else {
            match field_str(scan_plan, "scan_profile_code"@) {
                None => Some(scan_plan_invalid()),
                Some(code) => match scan_profile_fields(rows, code) {
                    None => Some(scan_plan_invalid()),
                    Some(p) => if snaps.len() != included.len() * ((p.2 as usize) as int) {
                        Some(scan_plan_invalid())
                    } else {
                        snapshots_and_days_issue(included, snaps, start, end)
                    },
                },
            }
        },
    }
}

/// What is wrong with a scan plan against its period window, `None` where nothing is: the
/// window's start and end must be instants written in UTC by `to_rfc3339` and it must list
/// its included dates (else a date range mismatch); then `snapshots_check`.
pub open spec fn scan_plan_issue(period_resolution: JsonValue, scan_plan: JsonValue, rows: Seq<JsonValue>) -> Option<Seq<char>> {
    match (field_str(period_resolution, "start_datetime_utc"@), field_str(period_resolution, "end_datetime_utc"@)) {
        (Some(s), Some(e)) => if !canonical_utc(s) || !canonical_utc(e) {
            Some(date_range_mismatch())
        } else {
            match field_arr(period_resolution, "included_dates"@) {
                None => Some(date_range_mismatch()),
                Some(included) => snapshots_check(
                    included,
                    scan_plan,
                    rows,
                    instant_of(rfc3339_reading(s)->0),
                    instant_of(rfc3339_reading(e)->0),
                ),
            }
        },
        _ => Some(date_range_mismatch()),
    }
}

fn read_instant(raw: &str) -> (r: Option<(i64, u32)>)
    ensures
        match r {
            Some(t) => rfc3339_reading(raw@) is Some && t == instant_of(rfc3339_reading(raw@)->0),
            None => rfc3339_reading(raw@) is None,
        },
{
    match read_rfc3339(raw) {
        Some((t, n, _)) => Some((t, n)),
        None => None,
    }
}

fn before(a: (i64, u32), b: (i64, u32)) -> (r: bool)
    ensures
        r == instant_before(a, b),
{
    a.0 < b.0 || (a.0 == b.0 && a.1 < b.1)
}

/// Checks a scan plan against the window of its period and the scan profiles (see
/// `scan_plan_issue`).
pub fn validate_scan_plan(period_resolution: &JsonValue, scan_plan: &JsonValue, scan_rows: &Vec<JsonValue>) -> (r: Result<(), GenerationError>)
    ensures
        match scan_plan_issue(*period_resolution, *scan_plan, scan_rows@) {
            None => r is Ok,
            Some(code) => r matches Err(e) && err_code(e) == code,
        },
{
    let start_text = match period_resolution.field_str("start_datetime_utc") {
        Some(t) => t,
        None => {
            return Err(horoscope_error("HOROSCOPE_PERIOD_DATE_RANGE_MISMATCH"));
        },
    };
    let end_text = match period_resolution.field_str("end_datetime_utc") {
        Some(t) => t,
        None => {
            return Err(horoscope_error("HOROSCOPE_PERIOD_DATE_RANGE_MISMATCH"));
        },
    };
    let start = match read_instant(start_text) {
        Some(t) => t,
        None => {
            return Err(horoscope_error("HOROSCOPE_PERIOD_DATE_RANGE_MISMATCH"));
        },
    };
    let end = match read_instant(end_text) {
        Some(t) => t,
        None => {
            return Err(horoscope_error("HOROSCOPE_PERIOD_DATE_RANGE_MISMATCH"));
        },
    };
    match require_canonical_utc_offset(start_text) {
        Ok(()) => {},
        Err(e) => {
            return Err(e);
        },
    }
    match require_canonical_utc_offset(end_text) {
        Ok(()) => {},
        Err(e) => {
            return Err(e);
        },
    }
    let included = match period_resolution.field_arr("included_dates") {
        Some(a) => a,
        None => {
            return Err(horoscope_error("HOROSCOPE_PERIOD_DATE_RANGE_MISMATCH"));
        },
    };
    check_snapshots(included, scan_plan, scan_rows, start, end)
}

fn check_snapshots(
    included: &Vec<JsonValue>,
    scan_plan: &JsonValue,
    scan_rows: &Vec<JsonValue>,
    start: (i64, u32),
    end: (i64, u32),
) -> (r: Result<(), GenerationError>)
    ensures
        match snapshots_check(included@, *scan_plan, scan_rows@, start, end) {
            None => r is Ok,
            Some(code) => r matches Err(e) && err_code(e) == code,
        },
{
    let snaps = match scan_plan.field_arr("snapshots") {
        Some(a) => a,
        None => {
            return Err(horoscope_error("HOROSCOPE_PERIOD_SCAN_PLAN_INVALID"));
        },
    };
    let count_ok = match scan_plan.get("snapshot_count") {
        Some(v) => match v.as_i64() {
            Some(c) => c >= 0 && (c as u64) == (snaps.len() as u64),
            None => false,
        },
        None => false,
    };
    if !count_ok {
        return Err(horoscope_error("HOROSCOPE_PERIOD_SCAN_PLAN_INVALID"));
    }
    let code = match scan_plan.field_str("scan_profile_code") {
        Some(c) => c,
        None => {
            return Err(horoscope_error("HOROSCOPE_PERIOD_SCAN_PLAN_INVALID"));
        },
    };
    let profile = match scan_profile(scan_rows, code) {
        Ok(p) => p,
        Err(e) => {
            return Err(e);
        },
    };
    let expected: Option<usize> = included.len().checked_mul(profile.expected_snapshots_per_day);
    match expected {
        Some(x) => if x != snaps.len() {
            return Err(horoscope_error("HOROSCOPE_PERIOD_SCAN_PLAN_INVALID"));
        },
        None => {
            return Err(horoscope_error("HOROSCOPE_PERIOD_SCAN_PLAN_INVALID"));
        },
    }
    let n = snaps.len();
    let mut keys: Vec<String> = Vec::new();
    let mut dates: Vec<String> = Vec::new();
    let mut i: usize = 0;
    while i < n
        invariant
            n == snaps@.len(),
            i <= n,
            snapshots_issue(snaps@, i as int, start, end) is None,
            snapshots_check(included@, *scan_plan, scan_rows@, start, end) == snapshots_and_days_issue(included@, snaps@, start, end),
            keys@.len() == i,
            dates@.len() == i,
            forall|j: int| 0 <= j < i ==> field_str(#[trigger] snaps@[j], "snapshot_key"@) == Some(keys@[j]@),
            forall|j: int| 0 <= j < i ==> field_str(#[trigger] snaps@[j], "date"@) == Some(dates@[j]@),
        decreases n - i,
    {
        let snap = &snaps[i];
        let key = match snap.field_str("snapshot_key") {
            Some(k) => k,
            None => {
                proof {
                    lemma_issue_persists(snaps@, i + 1, n as int, start, end);
                }
                proof {
                lemma_issue_persists(snaps@, i + 1, n as int, start, end);
            }
            return Err(horoscope_error("HOROSCOPE_PERIOD_SCAN_PLAN_INVALID"));
            },
        };
        if string_list_contains(&keys, key) {
            proof {
                let j = choose|j: int| 0 <= j < string_views(keys@).len() && string_views(keys@)[j] == key@;
                assert(field_str(snaps@[j], "snapshot_key"@) == Some(key@));
            }
            proof {
                lemma_issue_persists(snaps@, i + 1, n as int, start, end);
            }
            return Err(horoscope_error("HOROSCOPE_PERIOD_SCAN_PLAN_INVALID"));
        }
        proof {
            assert forall|j: int| 0 <= j < i implies field_str(#[trigger] snaps@[j], "snapshot_key"@) != Some(key@) by {
                assert(string_views(keys@)[j] == keys@[j]@);
            }
        }
        let date = match snap.field_str("date") {
            Some(d) => d,
            None => {
                proof {
                    lemma_issue_persists(snaps@, i + 1, n as int, start, end);
                }
                proof {
                lemma_issue_persists(snaps@, i + 1, n as int, start, end);
            }
            return Err(horoscope_error("HOROSCOPE_PERIOD_SCAN_PLAN_INVALID"));
            },
        };
        let utc = match snap.field_str("reference_datetime_utc") {
            Some(u) => u,
            None => {
                proof {
                    lemma_issue_persists(snaps@, i + 1, n as int, start, end);
                }
                proof {
                lemma_issue_persists(snaps@, i + 1, n as int, start, end);
            }
            return Err(horoscope_error("HOROSCOPE_PERIOD_SCAN_PLAN_INVALID"));
            },
        };
        match require_canonical_utc_offset(utc) {
            Ok(()) => {},
            Err(e) => {
                proof {
                    lemma_issue_persists(snaps@, i + 1, n as int, start, end);
                }
                return Err(e);
            },
        }
        let t = match read_instant(utc) {
            Some(t) => t,
            None => {
                proof {
                    lemma_issue_persists(snaps@, i + 1, n as int, start, end);
                }
                proof {
                lemma_issue_persists(snaps@, i + 1, n as int, start, end);
            }
            return Err(horoscope_error("HOROSCOPE_PERIOD_SCAN_PLAN_INVALID"));
            },
        };
        if before(t, start) || !before(t, end) {
            proof {
                lemma_issue_persists(snaps@, i + 1, n as int, start, end);
            }
            return Err(horoscope_error("HOROSCOPE_PERIOD_SCAN_PLAN_INVALID"));
        }
        keys.push(key.to_owned());
        dates.push(date.to_owned());
        i = i + 1;
    }
    let m = included.len();
    let mut k: usize = 0;
    while k < m
        invariant
            m == included@.len(),
            k <= m,
            n == snaps@.len(),
            dates@.len() == n,
            forall|j: int| 0 <= j < n ==> field_str(#[trigger] snaps@[j], "date"@) == Some(dates@[j]@),
            forall|q: int| 0 <= q < k ==> !(#[trigger] included@[q] matches JsonValue::Str(d) && !dated(snaps@, d@)),
            snapshots_issue(snaps@, n as int, start, end) is None,
            snapshots_check(included@, *scan_plan, scan_rows@, start, end) == snapshots_and_days_issue(included@, snaps@, start, end),
        decreases m - k,
    {
        match &included[k] {
            JsonValue::Str(d) => {
                if !string_list_contains(&dates, d.as_str()) {
                    proof {
                        assert forall|j: int| 0 <= j < snaps@.len() implies field_str(#[trigger] snaps@[j], "date"@) != Some(d@) by {
                            assert(string_views(dates@)[j] == dates@[j]@);
                        }
                    }
                    return Err(horoscope_error("HOROSCOPE_PERIOD_SCAN_PLAN_INVALID"));
                }
                proof {
                    let j = choose|j: int| 0 <= j < string_views(dates@).len() && string_views(dates@)[j] == d@;
                    assert(field_str(snaps@[j], "date"@) == Some(d@));
                }
            },
            _ => {},
        }
        k = k + 1;
    }
    Ok(())
}

} // verus!
