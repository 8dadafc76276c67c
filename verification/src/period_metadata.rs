//! Sizing of a seven-day reading: the detail profiles and their word limits, the output budget
//! of the writer, and the word-count gate.
use vstd::prelude::*;

use crate::error::{GenerationError, err_code, horoscope_error, quality_error};
use crate::json::{
    JsonEntry, JsonValue, field_str, json_at, json_bool, json_get, json_int, opt_view,
};
use crate::service_codes::{
    HOROSCOPE_BASIC_NEXT_7_DAYS_NATAL_SERVICE_CODE, HOROSCOPE_FREE_NEXT_7_DAYS_NATAL_SERVICE_CODE,
    HOROSCOPE_PREMIUM_NEXT_7_DAYS_NATAL_SERVICE_CODE,
};
use crate::text::{count_words, str_equal, word_count};

verus! {

/// The output budget of a writer request of the second contract version.
pub const PERIOD_V2_MAX_OUTPUT_TOKENS: u32 = 16000;

/// How hard the provider should reason.
#[derive(Debug, Clone, Copy, PartialEq, Eq, Structural)]
pub enum ReasoningEffort {
    Minimal,
    Low,
    Medium,
    High,
}

/// The word range of a reading.
#[derive(Debug, Clone, Copy)]
pub struct PeriodWordLimits {
    pub target_min: usize,
    pub target_max: usize,
    pub hard_limit: usize,
}

/// What a detail profile allows a reading to carry.
#[derive(Debug, Clone, Copy)]
pub struct PeriodDetailProfile {
    pub max_evidence: usize,
    pub max_key_days: usize,
    pub max_best_days: usize,
    pub max_watch_days: usize,
    pub max_domain_sections: usize,
    pub max_best_windows: usize,
    pub max_watch_windows: usize,
    pub include_best_days: bool,
    pub include_watch_days: bool,
    pub include_best_windows: bool,
    pub include_watch_windows: bool,
    pub word_limits: PeriodWordLimits,
}

/// `request.contract_version` is the text given.
pub open spec fn str_field_is(v: JsonValue, key: Seq<char>, text: Seq<char>) -> bool {
    field_str(v, key) == Some(text)
}

/// A writer request of the second contract version.
pub open spec fn writer_request_v2(request: JsonValue) -> bool {
    str_field_is(request, "contract_version"@, "horoscope_period_writer_request_v2"@)
}

/// A request of the free seven-day service.
pub open spec fn free_period_request(request: JsonValue) -> bool {
    str_field_is(request, "service_code"@, HOROSCOPE_FREE_NEXT_7_DAYS_NATAL_SERVICE_CODE@)
}

/// A request of the premium seven-day service.
pub open spec fn premium_period_request(request: JsonValue) -> bool {
    str_field_is(request, "service_code"@, HOROSCOPE_PREMIUM_NEXT_7_DAYS_NATAL_SERVICE_CODE@)
}

/// Whether `v[key]` is the given string.
pub fn field_is(v: &JsonValue, key: &str, text: &str) -> (r: bool)
    ensures
        r == str_field_is(*v, key@, text@),
{
    match v.field_str(key) {
        Some(s) => str_equal(s, text),
        None => false,
    }
}

/// A writer request: of the writer contract, in its first or second version.
pub open spec fn writer_request(request: JsonValue) -> bool {
    str_field_is(request, "contract_version"@, "horoscope_period_writer_request"@) || str_field_is(
        request,
        "contract_version"@,
        "horoscope_period_writer_request_v2"@,
    )
}

/// Whether the request is a writer request (see `writer_request`).
pub fn is_period_writer_request(request: &JsonValue) -> (r: bool)
    ensures
        r == writer_request(*request),
{
    field_is(request, "contract_version", "horoscope_period_writer_request") || field_is(
        request,
        "contract_version",
        "horoscope_period_writer_request_v2",
    )
}

/// Whether the request is a writer request of the second contract version.
pub fn is_period_writer_request_v2(request: &JsonValue) -> (r: bool)
    ensures
        r == writer_request_v2(*request),
{
    field_is(request, "contract_version", "horoscope_period_writer_request_v2")
}

/// Whether the request is one of the free seven-day service.
pub fn is_free_period_request(request: &JsonValue) -> (r: bool)
    ensures
        r == free_period_request(*request),
{
    field_is(request, "service_code", HOROSCOPE_FREE_NEXT_7_DAYS_NATAL_SERVICE_CODE)
}

/// Whether the request is one of the premium seven-day service.
pub fn is_premium_period_request(request: &JsonValue) -> (r: bool)
    ensures
        r == premium_period_request(*request),
{
    field_is(request, "service_code", HOROSCOPE_PREMIUM_NEXT_7_DAYS_NATAL_SERVICE_CODE)
}

/// `v.as_u64()`: a non-negative integer.
pub open spec fn json_u64(v: JsonValue) -> Option<u64> {
    match v {
        JsonValue::Int(n) => if n >= 0 {
            Some(n as u64)
        } else {
            None
        },
        _ => None,
    }
}

/// `row.get(key).and_then(as_u64).unwrap_or(default) as usize`.
pub open spec fn row_count(row: JsonValue, key: Seq<char>, default: u64) -> usize {
    match json_u64(json_at(row, key)) {
        Some(n) => n as usize,
        None => default as usize,
    }
}

/// `row.get(key).and_then(as_bool).unwrap_or(default)`.
pub open spec fn row_flag(row: JsonValue, key: Seq<char>, default: bool) -> bool {
    match json_bool(json_at(row, key)) {
        Some(b) => b,
        None => default,
    }
}

fn row_count_of(row: &JsonValue, key: &str, default: u64) -> (r: usize)
    ensures
        r == row_count(*row, key@, default),
{
    let n: u64 = match row.get(key) {
        Some(v) => match v.as_i64() {
            Some(i) => if i >= 0 {
                i as u64
            } else {
                default
            },
            None => default,
        },
        None => default,
    };
    n as usize
}

fn row_flag_of(row: &JsonValue, key: &str, default: bool) -> (r: bool)
    ensures
        r == row_flag(*row, key@, default),
{
    match row.get(key) {
        Some(v) => match v.as_bool() {
            Some(b) => b,
            None => default,
        },
        None => default,
    }
}

/// The row of an enabled detail profile with the given code.
pub open spec fn profile_row_matches(row: JsonValue, code: Seq<char>) -> bool {
    field_str(row, "detail_profile_code"@) == Some(code) && row_flag(row, "is_enabled"@, true)
}

/// The first enabled row of the profile, if any.
pub open spec fn find_profile_row(rows: Seq<JsonValue>, code: Seq<char>) -> Option<JsonValue>
    decreases rows.len(),
{
    if rows.len() == 0 {
        None
    } else if profile_row_matches(rows[0], code) {
        Some(rows[0])
    } else {
        find_profile_row(rows.drop_first(), code)
    }
}

/// The profile that a row describes, defaults filling the missing values.
pub open spec fn profile_from_row(row: JsonValue, code: Seq<char>) -> PeriodDetailProfile {
    PeriodDetailProfile {
        max_evidence: row_count(row, "max_evidence"@, 20),
        max_key_days: row_count(row, "max_key_days"@, 2),
        max_best_days: row_count(row, "max_best_days"@, 2),
        max_watch_days: row_count(row, "max_watch_days"@, 2),
        max_domain_sections: if code == "premium_rich"@ {
            5
        } else {
            4
        },
        max_best_windows: row_count(row, "max_best_windows"@, 3),
        max_watch_windows: row_count(row, "max_watch_windows"@, 3),
        include_best_days: row_flag(row, "include_best_days"@, true),
        include_watch_days: row_flag(row, "include_watch_days"@, true),
        include_best_windows: row_flag(row, "include_best_windows"@, false),
        include_watch_windows: row_flag(row, "include_watch_windows"@, false),
        word_limits: PeriodWordLimits {
            target_min: row_count(row, "target_words_min"@, 800),
            target_max: row_count(row, "target_words_max"@, 1200),
            hard_limit: row_count(row, "hard_limit_words"@, 1500),
        },
    }
}

/// The detail profile of a code among the profile rows; an unknown or disabled code is
/// refused as unsupported.
pub fn period_detail_profile(detail_profile_code: &str, rows: &Vec<JsonValue>) -> (r: Result<
    PeriodDetailProfile,
    GenerationError,
>)
    ensures
        match find_profile_row(rows@, detail_profile_code@) {
            Some(row) => r == Ok::<PeriodDetailProfile, GenerationError>(
                profile_from_row(row, detail_profile_code@),
            ),
            None => (r matches Err(e) && err_code(e) == "HOROSCOPE_PERIOD_PROFILE_UNSUPPORTED"@),
        },
{
    let n = rows.len();
    let mut i: usize = 0;
    proof {
        assert(rows@.skip(0) =~= rows@);
    }
    while i < n
        invariant
            n == rows@.len(),
            i <= n,
            find_profile_row(rows@.skip(i as int), detail_profile_code@) == find_profile_row(
                rows@,
                detail_profile_code@,
            ),
        decreases n - i,
    {
        let row = &rows[i];
        proof {
            assert(rows@.skip(i as int)[0] == rows@[i as int]);
            assert(rows@.skip(i as int).drop_first() =~= rows@.skip(i + 1));
        }
        if field_is(row, "detail_profile_code", detail_profile_code) && row_flag_of(row, "is_enabled", true) {
            let max_domain_sections: usize = if str_equal(detail_profile_code, "premium_rich") {
                5
            } else {
                4
            };
            return Ok(
                PeriodDetailProfile {
                    max_evidence: row_count_of(row, "max_evidence", 20),
                    max_key_days: row_count_of(row, "max_key_days", 2),
                    max_best_days: row_count_of(row, "max_best_days", 2),
                    max_watch_days: row_count_of(row, "max_watch_days", 2),
                    max_domain_sections,
                    max_best_windows: row_count_of(row, "max_best_windows", 3),
                    max_watch_windows: row_count_of(row, "max_watch_windows", 3),
                    include_best_days: row_flag_of(row, "include_best_days", true),
                    include_watch_days: row_flag_of(row, "include_watch_days", true),
                    include_best_windows: row_flag_of(row, "include_best_windows", false),
                    include_watch_windows: row_flag_of(row, "include_watch_windows", false),
                    word_limits: PeriodWordLimits {
                        target_min: row_count_of(row, "target_words_min", 800),
                        target_max: row_count_of(row, "target_words_max", 1200),
                        hard_limit: row_count_of(row, "hard_limit_words", 1500),
                    },
                },
            );
        }
        i = i + 1;
    }
    Err(horoscope_error("HOROSCOPE_PERIOD_PROFILE_UNSUPPORTED"))
}

/// The word limits of the basic profile.
pub open spec fn basic_word_limits(rows: Seq<JsonValue>) -> PeriodWordLimits {
    profile_from_row(find_profile_row(rows, "basic_standard"@)->0, "basic_standard"@).word_limits
}

/// The word limits of the `basic_standard` profile, which the profile rows must define.
pub fn period_basic_word_limits(rows: &Vec<JsonValue>) -> (r: PeriodWordLimits)
    requires
        find_profile_row(rows@, "basic_standard"@) is Some,
    ensures
        r == basic_word_limits(rows@),
{
    match period_detail_profile("basic_standard", rows) {
        Ok(profile) => profile.word_limits,
        Err(_) => {
            proof {
                assert(false);
            }
            PeriodWordLimits { target_min: 0, target_max: 0, hard_limit: 0 }
        },
    }
}

/// The word limits of a request: those of its detail profile where it names a known one,
/// else those of the basic profile.
pub open spec fn request_word_limits(request: JsonValue, rows: Seq<JsonValue>) -> PeriodWordLimits {
    match field_str(request, "detail_profile_code"@) {
        Some(code) => match find_profile_row(rows, code) {
            Some(row) => profile_from_row(row, code).word_limits,
            None => basic_word_limits(rows),
        },
        None => basic_word_limits(rows),
    }
}

/// The word limits that apply to a request.
pub fn period_word_limits_for_request(request: &JsonValue, rows: &Vec<JsonValue>) -> (r: PeriodWordLimits)
    requires
        find_profile_row(rows@, "basic_standard"@) is Some,
    ensures
        r == request_word_limits(*request, rows@),
{
    match request.field_str("detail_profile_code") {
        Some(code) => match period_detail_profile(code, rows) {
            Ok(profile) => profile.word_limits,
            Err(_) => period_basic_word_limits(rows),
        },
        None => period_basic_word_limits(rows),
    }
}

/// `a * b`, saturating at `u32::MAX`.
pub open spec fn sat_mul_u32(a: u32, b: u32) -> u32 {
    if a * b > u32::MAX {
        u32::MAX
    } else {
        (a * b) as u32
    }
}

/// `a + b`, saturating at `u32::MAX`.
pub open spec fn sat_add_u32(a: u32, b: u32) -> u32 {
    if a + b > u32::MAX {
        u32::MAX
    } else {
        (a + b) as u32
    }
}

/// The output budget of the writer: the fixed budget of the second contract version, else three
/// tokens per word of the hard limit plus 500.
pub fn period_writer_max_output_tokens(request: &JsonValue, rows: &Vec<JsonValue>) -> (r: u32)
    requires
        find_profile_row(rows@, "basic_standard"@) is Some,
    ensures
        r == if writer_request(*request) {
            PERIOD_V2_MAX_OUTPUT_TOKENS
        } else {
            sat_add_u32(sat_mul_u32(request_word_limits(*request, rows@).hard_limit as u32, 3), 500)
        },
{
    if is_period_writer_request(request) {
        return PERIOD_V2_MAX_OUTPUT_TOKENS;
    }
    let limits = period_word_limits_for_request(request, rows);
    let hard = limits.hard_limit as u32;
    let tripled: u32 = if hard <= u32::MAX / 3 {
        hard * 3
    } else {
        u32::MAX
    };
    tripled.saturating_add(500)
}

/// The reasoning effort of the writer: minimal for the second contract version, the free
/// service and the basic service; unspecified otherwise.
pub fn period_writer_reasoning_effort(request: &JsonValue) -> (r: Option<ReasoningEffort>)
    ensures
        r == if writer_request(*request) || free_period_request(*request) || str_field_is(
            *request,
            "service_code"@,
            HOROSCOPE_BASIC_NEXT_7_DAYS_NATAL_SERVICE_CODE@,
        ) {
            Some(ReasoningEffort::Minimal)
        } else {
            None
        },
{
    if is_period_writer_request(request) || is_free_period_request(request) {
        Some(ReasoningEffort::Minimal)
    } else if field_is(request, "service_code", HOROSCOPE_BASIC_NEXT_7_DAYS_NATAL_SERVICE_CODE) {
        Some(ReasoningEffort::Minimal)
    } else {
        None
    }
}

/// The smallest word count a reading must reach: 700 below the target for the second contract
/// version (never below 0), the target otherwise.
pub open spec fn effective_min_words(request: JsonValue, limits: PeriodWordLimits) -> nat {
    if writer_request(request) {
        if limits.target_min >= 700 {
            (limits.target_min - 700) as nat
        } else {
            0
        }
    } else {
        limits.target_min as nat
    }
}

/// The smallest word count a reading must reach.
pub fn period_effective_min_word_count(request: &JsonValue, limits: &PeriodWordLimits) -> (r: usize)
    ensures
        r as nat == effective_min_words(*request, *limits),
{
    if is_period_writer_request(request) {
        limits.target_min.saturating_sub(700)
    } else {
        limits.target_min
    }
}

/// The response comes from the fake provider.
pub open spec fn from_fake_provider(response: JsonValue) -> bool {
    field_str(json_at(response, "quality"@), "provider"@) == Some("fake"@)
}

/// The word-count gate: readings of the fake provider pass; others must fall between the
/// effective minimum and the hard limit.
pub open spec fn word_count_out_of_range(request: JsonValue, response: JsonValue, public_text: Seq<char>, rows: Seq<JsonValue>) -> bool {
    let limits = request_word_limits(request, rows);
    !from_fake_provider(response) && (word_count(public_text) < effective_min_words(request, limits)
        || word_count(public_text) > limits.hard_limit)
}

fn count_value(n: usize) -> (r: JsonValue)
    ensures
        n <= i64::MAX ==> r == JsonValue::Int(n as i64),
{
    let wide = n as u64;
    if wide <= 0x7fff_ffff_ffff_ffffu64 {
        JsonValue::Int(wide as i64)
    } else {
        JsonValue::Int(0x7fff_ffff_ffff_ffffi64)
    }
}

/// The detail of a word-count refusal: the count, the target minimum, the effective minimum,
/// the target maximum and the hard limit, where each fits an `i64`.
pub open spec fn word_count_detail(d: JsonValue, n: nat, limits: PeriodWordLimits, effective: nat) -> bool {
    &&& n <= i64::MAX ==> json_at(d, "word_count"@) == JsonValue::Int(n as i64)
    &&& limits.target_min <= i64::MAX ==> json_at(d, "target_words_min"@) == JsonValue::Int(limits.target_min as i64)
    &&& effective <= i64::MAX ==> json_at(d, "effective_words_min"@) == JsonValue::Int(effective as i64)
    &&& limits.target_max <= i64::MAX ==> json_at(d, "target_words_max"@) == JsonValue::Int(limits.target_max as i64)
    &&& limits.hard_limit <= i64::MAX ==> json_at(d, "hard_limit_words"@) == JsonValue::Int(limits.hard_limit as i64)
}

/// Refuses a public text whose word count falls outside the range of the request's profile;
/// the detail gives the count and the limits.
pub fn validate_period_public_word_count(
    request: &JsonValue,
    response: &JsonValue,
    public_text: &str,
    rows: &Vec<JsonValue>,
) -> (r: Result<(), GenerationError>)
    requires
        find_profile_row(rows@, "basic_standard"@) is Some,
    ensures
        r is Err <==> word_count_out_of_range(*request, *response, public_text@, rows@),
        r matches Err(e) ==> err_code(e) == "HOROSCOPE_PERIOD_WORD_COUNT_OUT_OF_RANGE"@,
        r matches Err(e) ==> word_count_detail(
            e.detail.details,
            word_count(public_text@),
            request_word_limits(*request, rows@),
            effective_min_words(*request, request_word_limits(*request, rows@)),
        ),
{
    let provider_fake = match response.get("quality") {
        Some(q) => field_is(q, "provider", "fake"),
        None => false,
    };
    if provider_fake {
        return Ok(());
    }
    let limits = period_word_limits_for_request(request, rows);
    let effective_min = period_effective_min_word_count(request, &limits);
    let words = count_words(public_text);
    if words < effective_min || words > limits.hard_limit {
        let mut entries: Vec<JsonEntry> = Vec::new();
        entries.push(JsonEntry { key: "word_count".to_owned(), value: count_value(words) });
        entries.push(JsonEntry { key: "target_words_min".to_owned(), value: count_value(limits.target_min) });
        entries.push(JsonEntry { key: "effective_words_min".to_owned(), value: count_value(effective_min) });
        entries.push(JsonEntry { key: "target_words_max".to_owned(), value: count_value(limits.target_max) });
        entries.push(JsonEntry { key: "hard_limit_words".to_owned(), value: count_value(limits.hard_limit) });
        proof {
            reveal_strlit("word_count");
            reveal_strlit("target_words_min");
            reveal_strlit("effective_words_min");
            reveal_strlit("target_words_max");
            reveal_strlit("hard_limit_words");
            let es = entries@;
            assert(es.drop_first()[0] == es[1]);
            assert(es.drop_first().drop_first()[0] == es[2]);
            assert(es.drop_first().drop_first().drop_first()[0] == es[3]);
            assert(es.drop_first().drop_first().drop_first().drop_first()[0] == es[4]);
            assert("target_words_min"@[14] != "target_words_max"@[14]);
            reveal_with_fuel(crate::json::entries_lookup, 6);
            let d = JsonValue::Object(entries);
            assert(es[0].key@ == "word_count"@);
            assert(crate::json::entries_lookup(es, "word_count"@) == Some(es[0].value));
            assert(crate::json::entries_lookup(es, "target_words_min"@) == Some(es[1].value));
            assert(crate::json::entries_lookup(es, "effective_words_min"@) == Some(es[2].value));
            assert(crate::json::entries_lookup(es, "target_words_max"@) == Some(es[3].value));
            let e4 = es.drop_first().drop_first().drop_first().drop_first();
            assert(e4[0].key@ == "hard_limit_words"@);
            assert(crate::json::entries_lookup(e4, "hard_limit_words"@) == Some(es[4].value));
            assert(crate::json::entries_lookup(es.drop_first().drop_first().drop_first(), "hard_limit_words"@) == Some(es[4].value));
            assert(crate::json::entries_lookup(es, "hard_limit_words"@) == Some(es[4].value));
            assert(word_count_detail(d, words as nat, limits, effective_min as nat));
        }
        return Err(quality_error("HOROSCOPE_PERIOD_WORD_COUNT_OUT_OF_RANGE", JsonValue::Object(entries)));
    }
    Ok(())
}

} // verus!
