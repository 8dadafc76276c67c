//! A natal reading as the validators read it: summary, legal block and chapters.
use vstd::prelude::*;

verus! {

/// One chapter of a reading.
#[derive(Debug)]
pub struct ReadingChapter {
    pub code: String,
    pub title: String,
    pub summary_sentence: String,
    pub body: String,
    /// The factor of each item of the chapter's astrological basis.
    pub astro_basis_factors: Vec<String>,
}

/// A natal reading.
#[derive(Debug)]
pub struct NatalReading {
    pub language: String,
    pub summary_title: String,
    pub summary_short_text: String,
    pub disclaimer: String,
    pub chapters: Vec<ReadingChapter>,
}

} // verus!
