use astral_llm_application::prior_usage::{
    ChapterEvidencePack, EvidenceFamily, InterpretiveEvidence, PriorChapterUsage,
};

fn ev(key: &str, kind: &str, family: EvidenceFamily) -> InterpretiveEvidence {
    InterpretiveEvidence {
        semantic_fact_key: key.to_string(),
        kind_code: kind.to_string(),
        family,
    }
}

fn pack() -> ChapterEvidencePack {
    ChapterEvidencePack {
        core: vec![ev("sun", "placement", EvidenceFamily::Other)],
        supporting: vec![
            ev("sun_moon", "aspect", EvidenceFamily::Other),
            ev("sun_moon", "aspect", EvidenceFamily::Other),
            ev("mars", "essential_dignity", EvidenceFamily::Other),
        ],
        nuance: vec![ev("venus", "placement", EvidenceFamily::Dignity)],
    }
}

#[test]
fn supporting_keys_count_chapters_not_citations() {
    let mut usage = PriorChapterUsage::new();
    usage.record_pack(&pack());
    assert_eq!(usage.supporting_semantic_chapters_used("sun_moon"), 1);
    usage.record_pack(&pack());
    assert_eq!(usage.supporting_semantic_chapters_used("sun_moon"), 2);
    assert_eq!(usage.supporting_semantic_chapters_used("unknown"), 0);
    assert!(usage.exceeds_supporting_semantic_cap("sun_moon", 2));
    assert!(!usage.exceeds_supporting_semantic_cap("sun_moon", 3));
    assert!(!usage.exceeds_supporting_semantic_cap("sun_moon", 0));
}

#[test]
fn planner_avoids_core_aspect_and_dignity_keys_once() {
    let mut usage = PriorChapterUsage::new();
    usage.record_pack(&pack());
    usage.record_pack(&pack());
    assert_eq!(
        usage.planner_avoid_keys(),
        vec!["sun".to_string(), "sun_moon".to_string(), "mars".to_string(), "venus".to_string()]
    );
    assert_eq!(usage.core_keys, vec!["sun".to_string(), "sun".to_string()]);
}

#[test]
fn avoid_repeating_keeps_the_latest_core_keys() {
    let mut usage = PriorChapterUsage::new();
    usage.record_pack(&ChapterEvidencePack {
        core: vec![ev("a", "placement", EvidenceFamily::Other), ev("b", "placement", EvidenceFamily::Other)],
        supporting: vec![],
        nuance: vec![ev("b", "aspect", EvidenceFamily::Aspect)],
    });
    usage.record_pack(&ChapterEvidencePack {
        core: vec![ev("c", "placement", EvidenceFamily::Other)],
        supporting: vec![],
        nuance: vec![ev("d", "accidental_dignity", EvidenceFamily::Other)],
    });
    assert_eq!(
        usage.build_avoid_repeating(2),
        vec!["b".to_string(), "c".to_string(), "d".to_string()]
    );
    assert_eq!(
        usage.build_avoid_repeating(10),
        vec!["a".to_string(), "b".to_string(), "c".to_string(), "d".to_string()]
    );
}
