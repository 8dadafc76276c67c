//! Editorial quality of a natal reading: chapter length, interpretive framing, repeated
//! phrases, astrological basis, disclaimer, deterministic wording and jargon.
use vstd::prelude::*;

use crate::period_payload::{join, views};
use crate::reading::{NatalReading, ReadingChapter};
use crate::text::{
    contains, decimal, decimal_string, is_blank, lowercase_of, split_words, str_contains,
    str_equal, str_is_blank, string_views, to_lowercase, word_count, words, count_words,
};

verus! {

/// The code of the closing synthesis chapter.
pub const SYNTHESIS_CHAPTER_CODE: &'static str = "synthesis";

// ---------------------------------------------------------------------------------------------
// Repeated word trigrams
// ---------------------------------------------------------------------------------------------

/// The trigrams starting at `i` and `j` are the same three words.
pub open spec fn same_trigram(ws: Seq<Seq<char>>, i: int, j: int) -> bool {
    &&& ws[i] == ws[j]
    &&& ws[i + 1] == ws[j + 1]
    &&& ws[i + 2] == ws[j + 2]
}

/// The trigram at `i` occurs here for the first time and occurs again later.
pub open spec fn first_of_repeated(ws: Seq<Seq<char>>, i: int) -> bool {
    &&& forall|j: int| 0 <= j < i ==> !same_trigram(ws, i, j)
    &&& exists|j: int| i < j && j + 2 < ws.len() && same_trigram(ws, i, j)
}

/// Among the first `n` trigram positions, how many start a trigram that is repeated.
pub open spec fn repeated_upto(ws: Seq<Seq<char>>, n: nat) -> nat
    decreases n,
{
    if n == 0 {
        0
    } else {
        repeated_upto(ws, (n - 1) as nat) + if first_of_repeated(ws, n - 1) {
            1nat
        } else {
            0nat
        }
    }
}

/// The number of distinct word trigrams of the lower-cased text that occur more than once.
pub open spec fn repeated_trigram_count(text: Seq<char>) -> nat {
    let ws = words(lowercase_of(text));
    if ws.len() < 3 {
        0
    } else {
        repeated_upto(ws, (ws.len() - 2) as nat)
    }
}

fn same_trigram_at(ws: &Vec<String>, i: usize, j: usize) -> (r: bool)
    requires
        i + 2 < ws@.len(),
        j + 2 < ws@.len(),
    ensures
        r == same_trigram(string_views(ws@), i as int, j as int),
{
    let _n = ws.len();
    let i1: usize = i + 1;
    let i2: usize = i + 2;
    let j1: usize = j + 1;
    let j2: usize = j + 2;
    str_equal(ws[i].as_str(), ws[j].as_str()) && str_equal(ws[i1].as_str(), ws[j1].as_str())
        && str_equal(ws[i2].as_str(), ws[j2].as_str())
}

/// The number of distinct word trigrams that occur more than once in a text, words taken
/// lower-cased and separated by whitespace. Every window of a phrase said three times counts
/// once, not once per repetition. The count is the same for every locale.
pub fn count_repeated_trigrams(body: &str, locale: &str) -> (r: usize)
    ensures
        r as nat == repeated_trigram_count(body@),
{
    let lower = to_lowercase(body);
    let ws = split_words(lower.as_str());
    let ghost sv = string_views(ws@);
    let n = ws.len();
    if n < 3 {
        return 0;
    }
    let m = n - 2;
    let mut count: usize = 0;
    let mut i: usize = 0;
    while i < m
        invariant
            n == ws@.len(),
            m + 2 == n,
            sv == string_views(ws@),
            sv == words(lowercase_of(body@)),
            i <= m,
            count as nat == repeated_upto(sv, i as nat),
            count <= i,
        decreases m - i,
    {
        let mut seen_before = false;
        let mut j: usize = 0;
        while j < i
            invariant
                n == ws@.len(),
                m + 2 == n,
                sv == string_views(ws@),
                i < m,
                j <= i,
                !seen_before ==> forall|k: int| 0 <= k < j ==> !same_trigram(sv, i as int, k),
                seen_before ==> exists|k: int| 0 <= k < i && same_trigram(sv, i as int, k),
            decreases i - j,
        {
            if !seen_before && same_trigram_at(&ws, i, j) {
                seen_before = true;
            }
            j = j + 1;
        }
        let mut seen_after = false;
        let mut k: usize = i + 1;
        while k < m
            invariant
                n == ws@.len(),
                m + 2 == n,
                sv == string_views(ws@),
                i < m,
                i + 1 <= k <= m,
                !seen_after ==> forall|l: int| i < l < k ==> !same_trigram(sv, i as int, l),
                seen_after ==> exists|l: int| i < l && l + 2 < sv.len() && same_trigram(sv, i as int, l),
            decreases m - k,
        {
            if !seen_after && same_trigram_at(&ws, i, k) {
                seen_after = true;
            }
            k = k + 1;
        }
        proof {
            if !seen_after {
                assert forall|l: int| i < l && l + 2 < sv.len() implies !same_trigram(
                    sv,
                    i as int,
                    l,
                ) by {
                    assert(l < m);
                }
            }
        }
        if !seen_before && seen_after {
            count = count + 1;
        }
        assert(first_of_repeated(sv, i as int) == (!seen_before && seen_after));
        i = i + 1;
    }
    count
}

// ---------------------------------------------------------------------------------------------
// Thresholds and report
// ---------------------------------------------------------------------------------------------

/// The thresholds of the premium quality gate.
#[derive(Debug)]
pub struct PremiumQualityThresholds {
    pub min_words_per_chapter: usize,
    pub max_repeated_trigrams: usize,
    pub min_astro_basis_per_chapter: u8,
}

impl Default for PremiumQualityThresholds {
    fn default() -> (r: Self)
        ensures
            r.min_words_per_chapter == 40,
            r.max_repeated_trigrams == 3,
            r.min_astro_basis_per_chapter == 1,
    {
        PremiumQualityThresholds {
            min_words_per_chapter: 40,
            max_repeated_trigrams: 3,
            min_astro_basis_per_chapter: 1,
        }
    }
}

/// What the quality gate found: one flag per family of checks and the warnings themselves.
#[derive(Debug)]
pub struct ReadingQualityReport {
    pub chapter_length_ok: bool,
    pub interpretive_framing_ok: bool,
    pub repetition_ok: bool,
    pub deterministic_claims_ok: bool,
    pub disclaimer_ok: bool,
    pub astro_basis_density_ok: bool,
    pub warnings: Vec<String>,
}

impl Default for ReadingQualityReport {
    fn default() -> (r: Self)
        ensures
            !r.chapter_length_ok,
            !r.interpretive_framing_ok,
            !r.repetition_ok,
            !r.deterministic_claims_ok,
            !r.disclaimer_ok,
            !r.astro_basis_density_ok,
            r.warnings@.len() == 0,
    {
        ReadingQualityReport {
            chapter_length_ok: false,
            interpretive_framing_ok: false,
            repetition_ok: false,
            deterministic_claims_ok: false,
            disclaimer_ok: false,
            astro_basis_density_ok: false,
            warnings: Vec::new(),
        }
    }
}

impl ReadingQualityReport {
    /// A reading is acceptable when the quality check raised no warning.
    pub fn is_acceptable(&self) -> (r: bool)
        ensures
            r == (self.warnings@.len() == 0),
    {
        self.warnings.len() == 0
    }
}

/// The editorial quality gate.
pub struct ReadingQualityValidator;

/// What the quality check reads of the request: whether a disclaimer is owed, whether the audience is a
/// beginner one.
#[derive(Debug, Clone, Copy)]
pub struct QualityRequest {
    pub include_legal_disclaimer: bool,
    pub beginner_audience: bool,
}

// ---------------------------------------------------------------------------------------------
// Lexical checks
// ---------------------------------------------------------------------------------------------

/// The markers of interpretive framing.
pub open spec fn framing_markers() -> Seq<Seq<char>> {
    seq![
        "symbolique"@, "interpretation"@, "interprétation"@, "suggere"@, "suggère"@, "invite"@,
        "tendance"@, "peut"@, "offre"@, "révèle"@, "revel"@, "met en lumière"@, "met en lumiere"@,
        "suggests"@, "invites"@, "tendency"@, "may"@, "offers"@,
    ]
}

/// The phrases of deterministic wording.
pub open spec fn deterministic_phrases() -> Seq<Seq<char>> {
    seq![
        "destin inevitable"@,
        "sera inevitablement"@,
        "a coup sur"@,
        "sans aucun doute vous allez"@,
        "definitely will happen"@,
        "certain death"@,
    ]
}

/// The jargon a beginner reading avoids.
pub open spec fn beginner_jargon() -> Seq<Seq<char>> {
    seq!["maison xii"@, "quincunx"@, "pars fortunae"@, "biquintile"@]
}

/// The stock phrases of the symbolic disclaimer.
pub open spec fn symbolic_stock_phrases() -> Seq<Seq<char>> {
    seq![
        "lecture reste symbolique"@,
        "lecture astrologique reste symbolique"@,
        "dans une lecture symbolique"@,
        "cette lecture reste symbolique"@,
    ]
}

/// The text holds one of the phrases.
pub open spec fn holds_any(text: Seq<char>, phrases: Seq<Seq<char>>) -> bool {
    exists|k: int| 0 <= k < phrases.len() && contains(text, #[trigger] phrases[k])
}

/// Whether the text holds one of the phrases.
pub fn contains_any(text: &str, phrases: &[&str]) -> (r: bool)
    ensures
        r == holds_any(text@, views(phrases@)),
{
    let n = phrases.len();
    let mut k: usize = 0;
    while k < n
        invariant
            n == phrases@.len(),
            k <= n,
            forall|j: int| 0 <= j < k ==> !contains(text@, #[trigger] views(phrases@)[j]),
        decreases n - k,
    {
        if str_contains(text, phrases[k]) {
            assert(contains(text@, views(phrases@)[k as int]));
            return true;
        }
        k = k + 1;
    }
    false
}

/// Whether the lower-cased body carries interpretive framing.
pub fn has_interpretive_framing(body: &str) -> (r: bool)
    ensures
        r == holds_any(lowercase_of(body@), framing_markers()),
{
    let markers = [
        "symbolique", "interpretation", "interprétation", "suggere", "suggère", "invite",
        "tendance", "peut", "offre", "révèle", "revel", "met en lumière", "met en lumiere",
        "suggests", "invites", "tendency", "may", "offers",
    ];
    proof {
        assert(views(markers@) =~= framing_markers());
    }
    let lower = to_lowercase(body);
    contains_any(lower.as_str(), &markers)
}

/// Whether the corpus holds deterministic wording.
pub fn has_deterministic_wording(corpus: &str) -> (r: bool)
    ensures
        r == holds_any(corpus@, deterministic_phrases()),
{
    let phrases = [
        "destin inevitable",
        "sera inevitablement",
        "a coup sur",
        "sans aucun doute vous allez",
        "definitely will happen",
        "certain death",
    ];
    proof {
        assert(views(phrases@) =~= deterministic_phrases());
    }
    contains_any(corpus, &phrases)
}

/// Whether the corpus holds beginner-unfriendly jargon.
pub fn has_beginner_jargon(corpus: &str) -> (r: bool)
    ensures
        r == holds_any(corpus@, beginner_jargon()),
{
    let phrases = ["maison xii", "quincunx", "pars fortunae", "biquintile"];
    proof {
        assert(views(phrases@) =~= beginner_jargon());
    }
    contains_any(corpus, &phrases)
}

/// Whether the lower-cased body repeats a stock phrase of the symbolic disclaimer.
pub fn chapter_has_symbolic_disclaimer_boilerplate(body: &str) -> (r: bool)
    ensures
        r == holds_any(lowercase_of(body@), symbolic_stock_phrases()),
{
    let phrases = [
        "lecture reste symbolique",
        "lecture astrologique reste symbolique",
        "dans une lecture symbolique",
        "cette lecture reste symbolique",
    ];
    proof {
        assert(views(phrases@) =~= symbolic_stock_phrases());
    }
    let lower = to_lowercase(body);
    contains_any(lower.as_str(), &phrases)
}

// ---------------------------------------------------------------------------------------------
// The assessment
// ---------------------------------------------------------------------------------------------

/// A one-message list when `cond` holds, else an empty one.
pub open spec fn warn_if(cond: bool, message: Seq<char>) -> Seq<Seq<char>> {
    if cond {
        seq![message]
    } else {
        seq![]
    }
}

/// The number of basis factors that are not blank.
pub open spec fn nonblank_count(factors: Seq<String>) -> nat
    decreases factors.len(),
{
    if factors.len() == 0 {
        0
    } else {
        nonblank_count(factors.drop_last()) + if is_blank(factors.last()@) {
            0nat
        } else {
            1nat
        }
    }
}

/// `chapter '<code>'`.
pub open spec fn chapter_label(code: Seq<char>) -> Seq<char> {
    "chapter '"@ + code + "'"@
}

/// The smallest word count a chapter must reach.
pub open spec fn min_words_for(ch: ReadingChapter, t: PremiumQualityThresholds, synthesis_min_words: Option<usize>) -> nat {
    if ch.code@ == SYNTHESIS_CHAPTER_CODE@ {
        match synthesis_min_words {
            Some(w) => w as nat,
            None => t.min_words_per_chapter as nat,
        }
    } else {
        t.min_words_per_chapter as nat
    }
}

/// The smallest number of non-blank basis factors a chapter must carry.
pub open spec fn min_basis_for(ch: ReadingChapter, t: PremiumQualityThresholds, synthesis_min_basis: Option<u8>) -> nat {
    if ch.code@ == SYNTHESIS_CHAPTER_CODE@ {
        match synthesis_min_basis {
            Some(b) => b as nat,
            None => t.min_astro_basis_per_chapter as nat,
        }
    } else {
        t.min_astro_basis_per_chapter as nat
    }
}

/// The warnings about one chapter, in the order the quality check raises them.
pub open spec fn chapter_warnings(
    ch: ReadingChapter,
    t: PremiumQualityThresholds,
    synthesis_min_basis: Option<u8>,
    synthesis_min_words: Option<usize>,
) -> Seq<Seq<char>> {
    let label = chapter_label(ch.code@);
    let n_words = word_count(ch.body@);
    let min_words = min_words_for(ch, t, synthesis_min_words);
    let repeats = repeated_trigram_count(ch.body@);
    let valid = nonblank_count(ch.astro_basis_factors@);
    warn_if(
        n_words < min_words,
        label + " too short ("@ + decimal(n_words) + " words, min "@ + decimal(min_words) + ")"@,
    ) + warn_if(
        !holds_any(lowercase_of(ch.body@), framing_markers()),
        label + " lacks interpretive framing"@,
    ) + warn_if(
        repeats > t.max_repeated_trigrams,
        label + " repetition score too high ("@ + decimal(repeats) + ")"@,
    ) + warn_if(
        valid < min_basis_for(ch, t, synthesis_min_basis),
        label + " astro_basis density too low ("@ + decimal(valid) + ")"@,
    )
}

/// The warnings about every chapter, chapter after chapter.
pub open spec fn chapters_warnings(
    chs: Seq<ReadingChapter>,
    t: PremiumQualityThresholds,
    synthesis_min_basis: Option<u8>,
    synthesis_min_words: Option<usize>,
) -> Seq<Seq<char>>
    decreases chs.len(),
{
    if chs.len() == 0 {
        seq![]
    } else {
        chapters_warnings(chs.drop_last(), t, synthesis_min_basis, synthesis_min_words)
            + chapter_warnings(chs.last(), t, synthesis_min_basis, synthesis_min_words)
    }
}

/// The lower-cased bodies of the chapters.
pub open spec fn lowered_bodies(chs: Seq<ReadingChapter>) -> Seq<Seq<char>> {
    chs.map_values(|c: ReadingChapter| lowercase_of(c.body@))
}

/// The lower-cased bodies joined by newlines.
pub open spec fn corpus_of(chs: Seq<ReadingChapter>) -> Seq<char> {
    join(lowered_bodies(chs), "\n"@)
}

/// The number of chapters other than the synthesis that repeat the symbolic disclaimer.
pub open spec fn boilerplate_chapters(chs: Seq<ReadingChapter>) -> nat
    decreases chs.len(),
{
    if chs.len() == 0 {
        0
    } else {
        boilerplate_chapters(chs.drop_last()) + if chs.last().code@ != SYNTHESIS_CHAPTER_CODE@
            && holds_any(lowercase_of(chs.last().body@), symbolic_stock_phrases()) {
            1nat
        } else {
            0nat
        }
    }
}

/// Every warning of the quality check, in the order it raises them.
pub open spec fn quality_warnings(
    request: QualityRequest,
    reading: NatalReading,
    t: PremiumQualityThresholds,
    blocking_gate: bool,
    synthesis_min_basis: Option<u8>,
    synthesis_min_words: Option<usize>,
) -> Seq<Seq<char>> {
    let chs = reading.chapters@;
    let corpus = corpus_of(chs);
    let boiler = boilerplate_chapters(chs);
    warn_if(blocking_gate && chs.len() == 0, "premium reading has no chapters"@) + chapters_warnings(
        chs,
        t,
        synthesis_min_basis,
        synthesis_min_words,
    ) + warn_if(
        request.include_legal_disclaimer && reading.disclaimer@.len() == 0,
        "legal disclaimer missing"@,
    ) + warn_if(holds_any(corpus, deterministic_phrases()), "deterministic wording detected"@)
        + warn_if(
        boiler > 2,
        "symbolic disclaimer boilerplate repeated in "@ + decimal(boiler) + " domain chapters (max 2)"@,
    ) + warn_if(
        request.beginner_audience && holds_any(corpus, beginner_jargon()),
        "beginner audience contains excessive jargon"@,
    )
}

/// No warning mentions `needle`.
pub open spec fn none_mentions(ws: Seq<Seq<char>>, needle: Seq<char>) -> bool {
    forall|i: int| 0 <= i < ws.len() ==> !contains(#[trigger] ws[i], needle)
}

/// Whether no warning mentions `needle`.
fn no_warning_mentions(ws: &Vec<String>, needle: &str) -> (r: bool)
    ensures
        r == none_mentions(string_views(ws@), needle@),
{
    let n = ws.len();
    let mut i: usize = 0;
    while i < n
        invariant
            n == ws@.len(),
            i <= n,
            forall|j: int| 0 <= j < i ==> !contains(#[trigger] string_views(ws@)[j], needle@),
        decreases n - i,
    {
        if str_contains(ws[i].as_str(), needle) {
            assert(contains(string_views(ws@)[i as int], needle@));
            return false;
        }
        i = i + 1;
    }
    true
}

/// The number of factors that are not blank.
fn count_nonblank(factors: &Vec<String>) -> (r: usize)
    ensures
        r as nat == nonblank_count(factors@),
{
    let n = factors.len();
    let mut count: usize = 0;
    let mut i: usize = 0;
    while i < n
        invariant
            n == factors@.len(),
            i <= n,
            count <= i,
            count as nat == nonblank_count(factors@.take(i as int)),
        decreases n - i,
    {
        proof {
            assert(factors@.take(i + 1).drop_last() =~= factors@.take(i as int));
        }
        if !str_is_blank(factors[i].as_str()) {
            count = count + 1;
        }
        i = i + 1;
    }
    proof {
        assert(factors@.take(n as int) =~= factors@);
    }
    count
}

/// `chapter '<code>'` followed by the given text.
fn chapter_message(code: &str, tail: &str) -> (r: String)
    ensures
        r@ == chapter_label(code@) + tail@,
{
    let mut m = "chapter '".to_owned();
    m.append(code);
    m.append("'");
    m.append(tail);
    m
}

/// `chapter '<code>'`, then `head`, the number, and `tail`.
fn chapter_count_message(code: &str, head: &str, n: usize, tail: &str) -> (r: String)
    ensures
        r@ == chapter_label(code@) + head@ + decimal(n as nat) + tail@,
{
    let mut m = chapter_message(code, head);
    let digits = decimal_string(n);
    m.append(digits.as_str());
    m.append(tail);
    m
}

/// The warnings about one chapter.
fn assess_chapter(
    ch: &ReadingChapter,
    t: &PremiumQualityThresholds,
    locale: &str,
    synthesis_min_basis: Option<u8>,
    synthesis_min_words: Option<usize>,
) -> (r: Vec<String>)
    ensures
        string_views(r@) == chapter_warnings(*ch, *t, synthesis_min_basis, synthesis_min_words),
{
    let code = ch.code.as_str();
    let body = ch.body.as_str();
    let is_synthesis = str_equal(code, SYNTHESIS_CHAPTER_CODE);
    let mut out: Vec<String> = Vec::new();
    let n_words = count_words(body);
    let min_words = if is_synthesis {
        match synthesis_min_words {
            Some(w) => w,
            None => t.min_words_per_chapter,
        }
    } else {
        t.min_words_per_chapter
    };
    if n_words < min_words {
        let mut m = chapter_count_message(code, " too short (", n_words, " words, min ");
        let digits = decimal_string(min_words);
        m.append(digits.as_str());
        m.append(")");
        out.push(m);
    }
    let ghost w1 = string_views(out@);
    if !has_interpretive_framing(body) {
        out.push(chapter_message(code, " lacks interpretive framing"));
    }
    let ghost w2 = string_views(out@);
    let repeats = count_repeated_trigrams(body, locale);
    if repeats > t.max_repeated_trigrams {
        out.push(chapter_count_message(code, " repetition score too high (", repeats, ")"));
    }
    let ghost w3 = string_views(out@);
    let valid = count_nonblank(&ch.astro_basis_factors);
    let min_basis: u8 = if is_synthesis {
        match synthesis_min_basis {
            Some(b) => b,
            None => t.min_astro_basis_per_chapter,
        }
    } else {
        t.min_astro_basis_per_chapter
    };
    if valid < min_basis as usize {
        out.push(chapter_count_message(code, " astro_basis density too low (", valid, ")"));
    }
    proof {
        let label = chapter_label(ch.code@);
        assert(w1 =~= warn_if(
            word_count(ch.body@) < min_words_for(*ch, *t, synthesis_min_words),
            label + " too short ("@ + decimal(word_count(ch.body@)) + " words, min "@ + decimal(
                min_words_for(*ch, *t, synthesis_min_words),
            ) + ")"@,
        ));
        assert(string_views(out@) =~= chapter_warnings(
            *ch,
            *t,
            synthesis_min_basis,
            synthesis_min_words,
        ));
    }
    out
}

impl ReadingQualityValidator {
    /// The repetition score of a chapter: its distinct repeated word trigrams.
    pub fn chapter_repetition_score(body: &str, locale: &str) -> (r: usize)
        ensures
            r as nat == repeated_trigram_count(body@),
    {
        count_repeated_trigrams(body, locale)
    }

    /// Whether a chapter repeats more distinct trigrams than the thresholds allow.
    pub fn chapter_exceeds_repetition(body: &str, thresholds: &PremiumQualityThresholds, locale: &str) -> (r: bool)
        ensures
            r == (repeated_trigram_count(body@) > thresholds.max_repeated_trigrams),
    {
        count_repeated_trigrams(body, locale) > thresholds.max_repeated_trigrams
    }

    /// Runs every quality check over a reading and reports each failure as a warning; the
    /// flags say which families of checks raised none.
    pub fn assess_with_thresholds(
        request: &QualityRequest,
        reading: &NatalReading,
        thresholds: &PremiumQualityThresholds,
        locale: &str,
        blocking_gate: bool,
        synthesis_min_astro_basis: Option<u8>,
        synthesis_min_words: Option<usize>,
    ) -> (r: ReadingQualityReport)
        ensures
            string_views(r.warnings@) == quality_warnings(
                *request,
                *reading,
                *thresholds,
                blocking_gate,
                synthesis_min_astro_basis,
                synthesis_min_words,
            ),
            r.chapter_length_ok == none_mentions(string_views(r.warnings@), "too short"@),
            r.interpretive_framing_ok == none_mentions(string_views(r.warnings@), "interpretive"@),
            r.repetition_ok == none_mentions(string_views(r.warnings@), "repetition"@),
            r.deterministic_claims_ok == none_mentions(string_views(r.warnings@), "deterministic"@),
            r.disclaimer_ok == none_mentions(string_views(r.warnings@), "disclaimer"@),
            r.astro_basis_density_ok == none_mentions(string_views(r.warnings@), "astro_basis"@),
    {
        let chs = &reading.chapters;
        let n = chs.len();
        let mut warnings: Vec<String> = Vec::new();
        let mut corpus = String::new();
        let mut boiler: usize = 0;
        if blocking_gate && n == 0 {
            warnings.push("premium reading has no chapters".to_owned());
        }
        let ghost head = string_views(warnings@);
        let mut i: usize = 0;
        while i < n
            invariant
                n == chs@.len(),
                *chs == reading.chapters,
                i <= n,
                boiler <= i,
                string_views(warnings@) == head + chapters_warnings(
                    chs@.take(i as int),
                    *thresholds,
                    synthesis_min_astro_basis,
                    synthesis_min_words,
                ),
                corpus@ == join(lowered_bodies(chs@.take(i as int)), "\n"@),
                boiler as nat == boilerplate_chapters(chs@.take(i as int)),
            decreases n - i,
        {
            let ch = &chs[i];
            proof {
                assert(chs@.take(i + 1).drop_last() =~= chs@.take(i as int));
                assert(chs@.take(i + 1).last() == chs@[i as int]);
                assert(lowered_bodies(chs@.take(i + 1)).drop_last() =~= lowered_bodies(
                    chs@.take(i as int),
                ));
            }
            let mut cw = assess_chapter(ch, thresholds, locale, synthesis_min_astro_basis, synthesis_min_words);
            let ghost before = string_views(warnings@);
            let ghost added = string_views(cw@);
            warnings.append(&mut cw);
            proof {
                assert(string_views(warnings@) =~= before + added);
            }
            if i > 0 {
                corpus.append("\n");
            } else {
                assert(lowered_bodies(chs@.take(0)) =~= Seq::<Seq<char>>::empty());
            }
            let lower = to_lowercase(ch.body.as_str());
            corpus.append(lower.as_str());
            if !str_equal(ch.code.as_str(), SYNTHESIS_CHAPTER_CODE)
                && chapter_has_symbolic_disclaimer_boilerplate(ch.body.as_str()) {
                boiler = boiler + 1;
            }
            i = i + 1;
        }
        proof {
            assert(chs@.take(n as int) =~= chs@);
            assert(corpus@ == corpus_of(reading.chapters@));
            assert(boiler as nat == boilerplate_chapters(reading.chapters@));
            assert(head =~= warn_if(blocking_gate && reading.chapters@.len() == 0, "premium reading has no chapters"@));
        }
        let ghost g0 = string_views(warnings@);
        if request.include_legal_disclaimer && reading.disclaimer.as_str().is_empty() {
            warnings.push("legal disclaimer missing".to_owned());
        }
        let ghost g1 = string_views(warnings@);
        proof {
            assert(g1 =~= g0 + warn_if(
                request.include_legal_disclaimer && reading.disclaimer@.len() == 0,
                "legal disclaimer missing"@,
            ));
        }
        if has_deterministic_wording(corpus.as_str()) {
            warnings.push("deterministic wording detected".to_owned());
        }
        let ghost g2 = string_views(warnings@);
        proof {
            assert(g2 =~= g1 + warn_if(holds_any(corpus@, deterministic_phrases()), "deterministic wording detected"@));
        }
        if boiler > 2 {
            let mut m = "symbolic disclaimer boilerplate repeated in ".to_owned();
            let digits = decimal_string(boiler);
            m.append(digits.as_str());
            m.append(" domain chapters (max 2)");
            warnings.push(m);
        }
        let ghost g3 = string_views(warnings@);
        proof {
            assert(g3 =~= g2 + warn_if(
                boiler > 2,
                "symbolic disclaimer boilerplate repeated in "@ + decimal(boiler as nat) + " domain chapters (max 2)"@,
            ));
        }
        if request.beginner_audience && has_beginner_jargon(corpus.as_str()) {
            warnings.push("beginner audience contains excessive jargon".to_owned());
        }
        proof {
            assert(string_views(warnings@) =~= g3 + warn_if(
                request.beginner_audience && holds_any(corpus@, beginner_jargon()),
                "beginner audience contains excessive jargon"@,
            ));
        }
        proof {
            assert(string_views(warnings@) =~= quality_warnings(
                *request,
                *reading,
                *thresholds,
                blocking_gate,
                synthesis_min_astro_basis,
                synthesis_min_words,
            ));
        }
        let chapter_length_ok = no_warning_mentions(&warnings, "too short");
        let interpretive_framing_ok = no_warning_mentions(&warnings, "interpretive");
        let repetition_ok = no_warning_mentions(&warnings, "repetition");
        let deterministic_claims_ok = no_warning_mentions(&warnings, "deterministic");
        let disclaimer_ok = no_warning_mentions(&warnings, "disclaimer");
        let astro_basis_density_ok = no_warning_mentions(&warnings, "astro_basis");
        ReadingQualityReport {
            chapter_length_ok,
            interpretive_framing_ok,
            repetition_ok,
            deterministic_claims_ok,
            disclaimer_ok,
            astro_basis_density_ok,
            warnings,
        }
    }
}

} // verus!
