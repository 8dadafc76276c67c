use astral_llm_application::quality::{
    count_repeated_trigrams, PremiumQualityThresholds, QualityRequest, ReadingQualityReport,
    ReadingQualityValidator, SYNTHESIS_CHAPTER_CODE,
};
use astral_llm_application::reading::{NatalReading, ReadingChapter};

fn chapter(code: &str, body: &str, factors: &[&str]) -> ReadingChapter {
    ReadingChapter {
        code: code.to_string(),
        title: code.to_string(),
        summary_sentence: String::new(),
        body: body.to_string(),
        astro_basis_factors: factors.iter().map(|f| f.to_string()).collect(),
    }
}

fn reading(chapters: Vec<ReadingChapter>, disclaimer: &str) -> NatalReading {
    NatalReading {
        language: "fr".to_string(),
        summary_title: "T".to_string(),
        summary_short_text: "S".to_string(),
        disclaimer: disclaimer.to_string(),
        chapters,
    }
}

const RICH_BODY: &str = "Votre theme suggere une personnalite reflechie, orientee vers la \
    comprehension symbolique des experiences et des transitions interieures. \
    Vous avancez avec prudence lorsque le sens n'est pas clair, tout en montrant \
    une grande capacite d'adaptation lorsque vous sentez une direction authentique. \
    Cette configuration invite a accueillir les phases de questionnement comme \
    des espaces creatifs, plutot que comme des blocages rigides.";

#[test]
fn counts_distinct_repeated_phrases_not_every_window() {
    let body = "votre theme invite votre theme invite votre theme invite \
        a explorer la vie interieure avec douceur et clarte symbolique \
        pour comprendre les emotions et les liens humains avec bienveillance";
    let score = count_repeated_trigrams(body, "fr");
    assert!(score <= 3, "expected at most 3 distinct repeats, got {score}");
}

#[test]
fn repeated_phrase_counts_each_distinct_trigram_once() {
    let body = "votre theme invite votre theme invite votre theme invite a explorer";
    assert_eq!(count_repeated_trigrams(body, "fr"), 3);
    assert_eq!(count_repeated_trigrams("un deux trois quatre cinq", "fr"), 0);
    assert_eq!(count_repeated_trigrams("A b C a B c", "en"), 1);
}

#[test]
fn repetition_score_and_threshold() {
    let t = PremiumQualityThresholds::default();
    assert_eq!(t.min_words_per_chapter, 40);
    assert_eq!(t.max_repeated_trigrams, 3);
    assert_eq!(t.min_astro_basis_per_chapter, 1);
    let body = "a b c d a b c d a b c d";
    assert_eq!(ReadingQualityValidator::chapter_repetition_score(body, "fr"), 4);
    assert!(ReadingQualityValidator::chapter_exceeds_repetition(body, &t, "fr"));
}

#[test]
fn rich_chapter_passes_the_gate() {
    let r = reading(vec![chapter("identity", RICH_BODY, &["identity", "sun"])], "Lecture symbolique.");
    let request = QualityRequest { include_legal_disclaimer: true, beginner_audience: false };
    let report = ReadingQualityValidator::assess_with_thresholds(
        &request,
        &r,
        &PremiumQualityThresholds::default(),
        "fr",
        true,
        None,
        None,
    );
    assert!(report.is_acceptable(), "{:?}", report.warnings);
    assert!(report.chapter_length_ok && report.astro_basis_density_ok && report.disclaimer_ok);
}

#[test]
fn poor_chapter_raises_each_warning() {
    let r = reading(vec![chapter("identity", "sun in aries. moon in cancer.", &["  "])], "");
    let request = QualityRequest { include_legal_disclaimer: true, beginner_audience: false };
    let report = ReadingQualityValidator::assess_with_thresholds(
        &request,
        &r,
        &PremiumQualityThresholds::default(),
        "fr",
        true,
        None,
        None,
    );
    assert_eq!(
        report.warnings,
        vec![
            "chapter 'identity' too short (6 words, min 40)".to_string(),
            "chapter 'identity' lacks interpretive framing".to_string(),
            "chapter 'identity' astro_basis density too low (0)".to_string(),
            "legal disclaimer missing".to_string(),
        ]
    );
    assert!(!report.is_acceptable());
    assert!(!report.chapter_length_ok);
    assert!(!report.interpretive_framing_ok);
    assert!(report.repetition_ok);
    assert!(!report.disclaimer_ok);
    assert!(!report.astro_basis_density_ok);
    assert!(report.deterministic_claims_ok);
}

#[test]
fn synthesis_chapter_uses_its_own_minimums() {
    let r = reading(
        vec![
            chapter("identity", RICH_BODY, &["sun"]),
            chapter(SYNTHESIS_CHAPTER_CODE, "Court.", &["jupiter", "jupiter"]),
        ],
        "Lecture symbolique.",
    );
    let request = QualityRequest { include_legal_disclaimer: true, beginner_audience: false };
    let report = ReadingQualityValidator::assess_with_thresholds(
        &request,
        &r,
        &PremiumQualityThresholds::default(),
        "fr",
        true,
        Some(4),
        Some(120),
    );
    assert!(report
        .warnings
        .iter()
        .any(|w| w.contains("synthesis") && w.contains("too short") && w.contains("min 120")));
    assert!(report
        .warnings
        .iter()
        .any(|w| w == "chapter 'synthesis' astro_basis density too low (2)"));
}

#[test]
fn empty_blocking_reading_and_deterministic_wording() {
    let request = QualityRequest { include_legal_disclaimer: false, beginner_audience: true };
    let empty = reading(vec![], "x");
    let report = ReadingQualityValidator::assess_with_thresholds(
        &request,
        &empty,
        &PremiumQualityThresholds::default(),
        "fr",
        true,
        None,
        None,
    );
    assert_eq!(report.warnings, vec!["premium reading has no chapters".to_string()]);
    let body = format!("{RICH_BODY} Ce destin inevitable passe par la maison XII.");
    let r = reading(vec![chapter("identity", &body, &["sun"])], "x");
    let report = ReadingQualityValidator::assess_with_thresholds(
        &request,
        &r,
        &PremiumQualityThresholds::default(),
        "fr",
        false,
        None,
        None,
    );
    assert_eq!(
        report.warnings,
        vec![
            "deterministic wording detected".to_string(),
            "beginner audience contains excessive jargon".to_string(),
        ]
    );
    assert!(!report.deterministic_claims_ok);
}

#[test]
fn symbolic_boilerplate_in_more_than_two_domain_chapters() {
    let body = format!("{RICH_BODY} Cette lecture reste symbolique.");
    let r = reading(
        vec![
            chapter("identity", &body, &["sun"]),
            chapter("career", &body, &["sun"]),
            chapter("love", &body, &["sun"]),
        ],
        "x",
    );
    let request = QualityRequest { include_legal_disclaimer: false, beginner_audience: false };
    let report = ReadingQualityValidator::assess_with_thresholds(
        &request,
        &r,
        &PremiumQualityThresholds::default(),
        "fr",
        false,
        None,
        None,
    );
    assert!(report.warnings.contains(
        &"symbolic disclaimer boilerplate repeated in 3 domain chapters (max 2)".to_string()
    ));
    assert!(!report.disclaimer_ok);
}

#[test]
fn report_without_warnings_is_acceptable() {
    let report = ReadingQualityReport::default();
    assert!(report.is_acceptable());
}
