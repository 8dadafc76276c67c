//! The error that the validators return: a code and a JSON detail object.
use vstd::prelude::*;

use crate::json::{JsonEntry, JsonValue, entries_lookup, field_str, json_int};

verus! {

/// The code and the structured detail of an error.
#[derive(Debug)]
pub struct ErrorDetail {
    pub message: String,
    pub details: JsonValue,
}

/// The kind of a generation failure.
#[derive(Debug, Clone, Copy, PartialEq, Eq, Structural)]
pub enum GenerationErrorCode {
    InvalidInput,
    InvalidJsonOutput,
    PostSafetyValidationFailed,
    PremiumEvidenceDiversityFailed,
    ProductPolicyViolation,
    ProviderRateLimited,
    ProviderTimeout,
    ProviderUnavailable,
    ReadingQualityFailed,
    SchemaValidationFailed,
    UnsupportedCapability,
    UnsupportedProvider,
}

/// A generation or validation failure: its kind, and its code and detail.
#[derive(Debug)]
pub struct GenerationError {
    pub code: GenerationErrorCode,
    pub detail: ErrorDetail,
}

impl GenerationError {
    /// The code and detail of this error.
    pub fn detail(&self) -> (r: &ErrorDetail)
        ensures
            *r == self.detail,
    {
        &self.detail
    }
}

/// The kind of an error.
pub open spec fn err_kind(e: GenerationError) -> GenerationErrorCode {
    e.code
}

/// An error of a kind, with a code and a detail object.
pub fn error_with_kind(kind: GenerationErrorCode, code: &str, details: JsonValue) -> (r: GenerationError)
    ensures
        err_kind(r) == kind,
        err_code(r) == code@,
        r.detail.details == details,
{
    GenerationError { code: kind, detail: ErrorDetail { message: code.to_owned(), details } }
}

/// A refusal of a writer request: an invalid input with a code and a detail object.
pub fn period_v2_request_error(code: &str, details: JsonValue) -> (r: GenerationError)
    ensures
        err_kind(r) == GenerationErrorCode::InvalidInput,
        err_code(r) == code@,
        r.detail.details == details,
{
    error_with_kind(GenerationErrorCode::InvalidInput, code, details)
}

/// The code of an error.
pub open spec fn err_code(e: GenerationError) -> Seq<char> {
    e.detail.message@
}

/// What a validation returned: `None` for success, else the error code.
pub open spec fn outcome<T>(r: Result<T, GenerationError>) -> Option<Seq<char>> {
    match r {
        Ok(_) => None,
        Err(e) => Some(err_code(e)),
    }
}

/// The first failure of two checks run in order.
pub open spec fn first_failure(a: Option<Seq<char>>, b: Option<Seq<char>>) -> Option<Seq<char>> {
    if a is Some {
        a
    } else {
        b
    }
}

/// A failure with the given code when `failed` holds.
pub open spec fn fail_if(failed: bool, code: Seq<char>) -> Option<Seq<char>> {
    if failed {
        Some(code)
    } else {
        None
    }
}

/// An error with a code and a detail object, of the kind `InvalidInput`; its contract leaves
/// the kind unstated.
pub fn quality_error(code: &str, details: JsonValue) -> (r: GenerationError)
    ensures
        err_code(r) == code@,
        r.detail.details == details,
{
    error_with_kind(GenerationErrorCode::InvalidInput, code, details)
}

/// An error with a code and no detail, of the kind `InvalidInput`; its contract leaves the kind
/// unstated, as for `quality_error`.
pub fn horoscope_error(code: &str) -> (r: GenerationError)
    ensures
        err_code(r) == code@,
        r.detail.details == JsonValue::Null,
{
    quality_error(code, JsonValue::Null)
}

/// The detail object `{ key: text }`.
pub fn detail_str(key: &str, text: &str) -> (r: JsonValue)
    ensures
        field_str(r, key@) == Some(text@),
{
    let mut entries: Vec<JsonEntry> = Vec::new();
    entries.push(JsonEntry { key: key.to_owned(), value: JsonValue::Str(text.to_owned()) });
    proof {
        assert(entries@.drop_first().len() == 0);
    }
    JsonValue::Object(entries)
}

/// The detail object `{ key: number }`.
pub fn detail_count(key: &str, n: usize) -> (r: JsonValue)
    ensures
        n <= i64::MAX ==> json_int(crate::json::json_at(r, key@)) == Some(n as i64),
{
    let wide = n as u64;
    let v = if wide <= 0x7fff_ffff_ffff_ffffu64 {
        JsonValue::Int(wide as i64)
    } else {
        JsonValue::Int(0x7fff_ffff_ffff_ffffi64)
    };
    let mut entries: Vec<JsonEntry> = Vec::new();
    entries.push(JsonEntry { key: key.to_owned(), value: v });
    proof {
        assert(entries@.drop_first().len() == 0);
        assert(entries_lookup(entries@, key@) == Some(v));
    }
    JsonValue::Object(entries)
}

/// The detail object `{ k1: v1, k2: v2, .. }`, its members in the order given.
pub fn detail_strs(pairs: &[(&str, &str)]) -> (r: JsonValue)
    ensures
        r matches JsonValue::Object(es) && es@.len() == pairs@.len() && forall|i: int|
            0 <= i < pairs@.len() ==> (#[trigger] es@[i]).key@ == pairs@[i].0@ && (es@[i].value
                matches JsonValue::Str(t) && t@ == pairs@[i].1@),
{
    let n = pairs.len();
    let mut entries: Vec<JsonEntry> = Vec::new();
    let mut i: usize = 0;
    while i < n
        invariant
            n == pairs@.len(),
            i <= n,
            entries@.len() == i,
            forall|j: int|
                0 <= j < i ==> (#[trigger] entries@[j]).key@ == pairs@[j].0@ && (entries@[j].value
                    matches JsonValue::Str(t) && t@ == pairs@[j].1@),
        decreases n - i,
    {
        let (k, v) = pairs[i];
        entries.push(JsonEntry { key: k.to_owned(), value: JsonValue::Str(v.to_owned()) });
        i = i + 1;
    }
    JsonValue::Object(entries)
}

/// The detail object `{ "field": field, key: number }`.
pub fn detail_field_count(field: &str, key: &str, n: usize) -> (r: JsonValue)
    requires
        key@ != "field"@,
    ensures
        field_str(r, "field"@) == Some(field@),
        n <= i64::MAX ==> json_int(crate::json::json_at(r, key@)) == Some(n as i64),
{
    let wide = n as u64;
    let v = if wide <= 0x7fff_ffff_ffff_ffffu64 {
        JsonValue::Int(wide as i64)
    } else {
        JsonValue::Int(0x7fff_ffff_ffff_ffffi64)
    };
    let mut entries: Vec<JsonEntry> = Vec::new();
    entries.push(JsonEntry { key: "field".to_owned(), value: JsonValue::Str(field.to_owned()) });
    entries.push(JsonEntry { key: key.to_owned(), value: v });
    proof {
        let es = entries@;
        assert(es.drop_first()[0] == es[1]);
        assert(entries_lookup(es.drop_first(), key@) == Some(v));
    }
    JsonValue::Object(entries)
}

} // verus!
