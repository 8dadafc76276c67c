//! Repeated chapter openings across a reading: which detected repetitions block the reading and
//! which are only warnings.
use vstd::prelude::*;

use crate::error::{GenerationError, GenerationErrorCode, err_code, err_kind, error_with_kind};
use crate::json::{JsonEntry, JsonValue};
use crate::quality::SYNTHESIS_CHAPTER_CODE;
use crate::text::{contains, starts_with, str_contains, str_equal, str_starts_with};

verus! {

/// A repeated or stock opening found in a chapter.
#[derive(Debug)]
pub struct OpeningViolation {
    pub chapter_code: String,
    pub phrase: String,
    pub kind: String,
}

/// A repetition found by the opening detector: chapter code, phrase, and kind.
#[derive(Debug)]
pub struct DetectedOpening {
    pub chapter_code: String,
    pub phrase: String,
    pub kind: String,
}

/// A violation blocks the reading when a chapter opens like an earlier chapter.
pub open spec fn blocking_kind(kind: Seq<char>) -> bool {
    starts_with(kind, "chapter_opening_duplicate_of:"@)
}

/// A detected repetition that counts: outside the synthesis, a duplicate or a stock opening.
pub open spec fn counts_as_violation(d: DetectedOpening) -> bool {
    d.chapter_code@ != SYNTHESIS_CHAPTER_CODE@ && (contains(d.kind@, "duplicate"@) || contains(
        d.kind@,
        "stock_opening"@,
    ))
}

/// The (code, phrase, kind) texts of a violation.
pub open spec fn violation_view(v: OpeningViolation) -> (Seq<char>, Seq<char>, Seq<char>) {
    (v.chapter_code@, v.phrase@, v.kind@)
}

/// The (code, phrase, kind) texts of a detected repetition.
pub open spec fn detected_view(d: DetectedOpening) -> (Seq<char>, Seq<char>, Seq<char>) {
    (d.chapter_code@, d.phrase@, d.kind@)
}

/// The detected repetitions that count as violations and whose blocking status is `blocking`
/// (or any status where `blocking` is `None`), in order.
pub open spec fn selected_violations(ds: Seq<DetectedOpening>, blocking: Option<bool>) -> Seq<
    (Seq<char>, Seq<char>, Seq<char>),
>
    decreases ds.len(),
{
    if ds.len() == 0 {
        seq![]
    } else {
        let d = ds.last();
        let keep = counts_as_violation(d) && match blocking {
            Some(b) => blocking_kind(d.kind@) == b,
            None => true,
        };
        if keep {
            selected_violations(ds.drop_last(), blocking).push(detected_view(d))
        } else {
            selected_violations(ds.drop_last(), blocking)
        }
    }
}

impl OpeningViolation {
    /// A violation blocks the reading when a chapter opens like an earlier chapter.
    pub fn is_blocking(&self) -> (r: bool)
        ensures
            r == blocking_kind(self.kind@),
    {
        str_starts_with(self.kind.as_str(), "chapter_opening_duplicate_of:")
    }
}

/// The detector of repeated openings.
pub struct ReadingOpeningDiversityValidator;

impl ReadingOpeningDiversityValidator {
    fn select(detected: &Vec<DetectedOpening>, blocking: Option<bool>) -> (r: Vec<OpeningViolation>)
        ensures
            r@.map_values(|v: OpeningViolation| violation_view(v)) == selected_violations(
                detected@,
                blocking,
            ),
    {
        let n = detected.len();
        let mut out: Vec<OpeningViolation> = Vec::new();
        let mut i: usize = 0;
        while i < n
            invariant
                n == detected@.len(),
                i <= n,
                out@.map_values(|v: OpeningViolation| violation_view(v)) == selected_violations(
                    detected@.take(i as int),
                    blocking,
                ),
            decreases n - i,
        {
            let d = &detected[i];
            proof {
                assert(detected@.take(i + 1).drop_last() =~= detected@.take(i as int));
                assert(detected@.take(i + 1).last() == detected@[i as int]);
            }
            let counts = !str_equal(d.chapter_code.as_str(), SYNTHESIS_CHAPTER_CODE) && (str_contains(
                d.kind.as_str(),
                "duplicate",
            ) || str_contains(d.kind.as_str(), "stock_opening"));
            let keep = counts && match blocking {
                Some(b) => str_starts_with(d.kind.as_str(), "chapter_opening_duplicate_of:") == b,
                None => true,
            };
            if keep {
                let ghost prev = out@.map_values(|v: OpeningViolation| violation_view(v));
                out.push(
                    OpeningViolation {
                        chapter_code: d.chapter_code.clone(),
                        phrase: d.phrase.clone(),
                        kind: d.kind.clone(),
                    },
                );
                proof {
                    assert(out@.map_values(|v: OpeningViolation| violation_view(v)) =~= prev.push(
                        detected_view(*d),
                    ));
                }
            }
            i = i + 1;
        }
        proof {
            assert(detected@.take(n as int) =~= detected@);
        }
        out
    }

    /// Every detected repetition that counts as a violation: outside the synthesis chapter, a
    /// duplicate or a stock opening.
    pub fn detect_all(detected: &Vec<DetectedOpening>) -> (r: Vec<OpeningViolation>)
        ensures
            r@.map_values(|v: OpeningViolation| violation_view(v)) == selected_violations(
                detected@,
                None,
            ),
    {
        Self::select(detected, None)
    }

    /// The violations that block the reading.
    pub fn detect(detected: &Vec<DetectedOpening>) -> (r: Vec<OpeningViolation>)
        ensures
            r@.map_values(|v: OpeningViolation| violation_view(v)) == selected_violations(
                detected@,
                Some(true),
            ),
    {
        Self::select(detected, Some(true))
    }

    /// The violations that are only warnings.
    pub fn detect_warnings(detected: &Vec<DetectedOpening>) -> (r: Vec<OpeningViolation>)
        ensures
            r@.map_values(|v: OpeningViolation| violation_view(v)) == selected_violations(
                detected@,
                Some(false),
            ),
    {
        Self::select(detected, Some(false))
    }

    /// Refuses a reading with a blocking violation; the detail lists the blocking violations.
    pub fn validate(detected: &Vec<DetectedOpening>) -> (r: Result<(), GenerationError>)
        ensures
            r is Ok <==> selected_violations(detected@, Some(true)).len() == 0,
            r matches Err(e) ==> err_code(e) == "Repeated chapter openings across the reading"@,
            r matches Err(e) ==> err_kind(e) == GenerationErrorCode::ReadingQualityFailed,
    {
        let blocking = Self::detect(detected);
        if blocking.len() == 0 {
            return Ok(());
        }
        let mut items: Vec<JsonValue> = Vec::new();
        let n = blocking.len();
        let mut i: usize = 0;
        while i < n
            invariant
                n == blocking@.len(),
                i <= n,
            decreases n - i,
        {
            let v = &blocking[i];
            let mut fields: Vec<JsonEntry> = Vec::new();
            fields.push(JsonEntry { key: "chapter".to_owned(), value: JsonValue::Str(v.chapter_code.clone()) });
            fields.push(JsonEntry { key: "phrase".to_owned(), value: JsonValue::Str(v.phrase.clone()) });
            fields.push(JsonEntry { key: "kind".to_owned(), value: JsonValue::Str(v.kind.clone()) });
            items.push(JsonValue::Object(fields));
            i = i + 1;
        }
        let mut details: Vec<JsonEntry> = Vec::new();
        details.push(JsonEntry { key: "violations".to_owned(), value: JsonValue::Array(items) });
        Err(error_with_kind(GenerationErrorCode::ReadingQualityFailed, "Repeated chapter openings across the reading", JsonValue::Object(details)))
    }
}

} // verus!
