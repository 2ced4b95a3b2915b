use level5_ai_scientist::AgentEvent::{LanguageAwareAgentEvent, LanguageAwareEventBuilder, LanguageMetadata};
use level5_ai_scientist::fold_multilingual_memory::{
    AlignmentResult, FoldError, MultilingualMemoryFolder, PatternType,
};

fn aligned(overall: u32) -> Option<AlignmentResult> {
    Some(AlignmentResult {
        overall_score: overall,
        semantic_score: 880,
        structural_score: 820,
        cultural_score: 850,
    })
}

#[test]
fn fold_multilingual_memory_test_multilingual_memory_folding() {
    let folder = MultilingualMemoryFolder::new();

    let event1 = LanguageAwareAgentEvent::new("Explorer", "input1", "output1", "en", 900);
    let mut event2 = LanguageAwareAgentEvent::new("Translator", "input2", "output2", "id", 850);
    event2.add_secondary_language("en");

    let events = vec![event1, event2];
    let fold = folder.fold_memory("trace1", &events, &[aligned(850)]).unwrap();

    assert_eq!(fold.total_events, 2);
    assert!(fold.compression_ratio > 0);
}

#[test]
fn test_language_distribution() {
    let folder = MultilingualMemoryFolder::new();

    let event1 = LanguageAwareAgentEvent::new("Explorer", "input1", "output1", "en", 900);
    let mut event2 = LanguageAwareAgentEvent::new("Translator", "input2", "output2", "id", 850);
    event2.add_secondary_language("en");

    let events = vec![event1, event2];
    let dist = folder.compute_language_distribution(&events);

    assert!(dist.contains_key("en"));
    assert!(dist.contains_key("id"));
}

#[test]
fn fold_multilingual_memory_test_cross_language_patterns() {
    let folder = MultilingualMemoryFolder::new();

    let event1 = LanguageAwareAgentEvent::new("Explorer", "input1", "output1", "en", 900);
    let event2 = LanguageAwareAgentEvent::new("Translator", "input2", "output2", "id", 850);

    let events = vec![event1, event2];
    let patterns = folder.detect_cross_language_patterns(&events);

    assert!(!patterns.is_empty());
}

#[test]
fn test_serenqa_integration_test_multilingual_memory_folding() {
    let folder = MultilingualMemoryFolder::new();

    let event1 = LanguageAwareAgentEvent::new("Explorer", "input1", "output1", "en", 900);
    let mut event2 = LanguageAwareAgentEvent::new("Translator", "input2", "output2", "id", 850);
    event2.add_secondary_language("en");
    event2.set_alignment_score(880);

    let events = vec![event1, event2];
    let fold = folder.fold_memory("trace1", &events, &[aligned(850)]).unwrap();

    assert_eq!(fold.total_events, 2);
    assert!(fold.compression_ratio > 0);
    assert!(fold.overall_alignment > 0);
    assert!(!fold.cross_language_patterns.is_empty());
}

#[test]
fn test_serenqa_integration_test_cross_language_patterns() {
    let folder = MultilingualMemoryFolder::new();

    let event1 = LanguageAwareAgentEvent::new("Explorer", "input1", "output1", "en", 900);
    let event2 = LanguageAwareAgentEvent::new("Translator", "input2", "output2", "id", 850);
    let mut event3 = LanguageAwareAgentEvent::new("Synthesizer", "input3", "output3", "en", 880);
    event3.add_secondary_language("id");

    let events = vec![event1, event2, event3];
    let fold = folder.fold_memory("trace1", &events, &[aligned(850), aligned(800)]).unwrap();

    assert!(!fold.cross_language_patterns.is_empty());

    let has_switch = fold
        .cross_language_patterns
        .iter()
        .any(|p| p.pattern_type == PatternType::LanguageSwitch);
    assert!(has_switch);
}

#[test]
fn test_translation_quality_tracking() {
    let folder = MultilingualMemoryFolder::new();

    let event1 = LanguageAwareAgentEvent::new("Explorer", "Hello", "output1", "en", 900);
    let event2 = LanguageAwareAgentEvent::new("Translator", "Halo", "output2", "id", 850);

    let events = vec![event1, event2];
    let fold = folder.fold_memory("trace1", &events, &[aligned(850)]).unwrap();

    assert!(fold.translation_summary.total_translations > 0);
    assert!(fold.translation_summary.average_quality > 0);
    assert!(!fold.translation_summary.language_pairs.is_empty());
}

#[test]
fn test_language_aware_events() {
    let mut event = LanguageAwareAgentEvent::new("Translator", "Hello", "Halo", "en", 900);

    event.add_secondary_language("id");
    event.set_alignment_score(880);
    event.set_translation_quality(900);

    assert!(event.is_multilingual());
    assert_eq!(event.all_languages().len(), 2);
    assert!(event.alignment_score.is_some());
    assert!(event.language_quality_score() > 0);
}

#[test]
fn test_event_builder() {
    let event = LanguageAwareEventBuilder::new("Translator", "Hello", "Halo", "en")
        .confidence(900)
        .add_language("id")
        .alignment_score(880)
        .translation_quality(900)
        .semantic_similarity(850)
        .cultural_context(870)
        .build();

    assert_eq!(event.confidence, 900);
    assert!(event.is_multilingual());
    assert_eq!(event.alignment_score, Some(880));
    assert_eq!(event.translation_quality, Some(900));
    assert_eq!(event.semantic_similarity, Some(850));
    assert_eq!(event.cultural_context_score, Some(870));
}

#[test]
fn test_language_metadata() {
    let mut metadata = LanguageMetadata::new("id", "Halo dunia", "Latin", "Austronesian");
    metadata.set_formality("informal");
    metadata.add_domain_term("greeting");
    metadata.add_domain_term("world");

    assert_eq!(metadata.language_code, "id");
    assert_eq!(metadata.script, "Latin");
    assert_eq!(metadata.language_family, "Austronesian");
    assert_eq!(metadata.formality, "informal");
    assert_eq!(metadata.domain_terms.len(), 2);
}

#[test]
fn language_switch_confidence_is_mean_of_pair() {
    let folder = MultilingualMemoryFolder::new();
    let events = vec![
        LanguageAwareAgentEvent::new("Explorer", "a", "b", "en", 900),
        LanguageAwareAgentEvent::new("Translator", "c", "d", "id", 880),
    ];
    let patterns = folder.detect_cross_language_patterns(&events);
    assert_eq!(patterns.len(), 1);
    assert_eq!(patterns[0].pattern_type, PatternType::LanguageSwitch);
    assert_eq!(patterns[0].confidence, 890);
    assert_eq!(patterns[0].languages, vec!["en".to_string(), "id".to_string()]);
    assert_eq!(patterns[0].description, "Switch from en to id");
}

#[test]
fn multilingual_reasoning_needs_three_multilingual_events() {
    let folder = MultilingualMemoryFolder::new();
    let mut events = Vec::new();
    for (i, conf) in [700u32, 800, 900].iter().enumerate() {
        let mut e = LanguageAwareAgentEvent::new("Translator", "a", "b", "en", *conf);
        e.add_secondary_language(if i == 1 { "es" } else { "id" });
        events.push(e);
        let patterns = folder.detect_cross_language_patterns(&events);
        assert_eq!(patterns.len(), if i == 2 { 1 } else { 0 });
    }
    let patterns = folder.detect_cross_language_patterns(&events);
    assert_eq!(patterns[0].pattern_type, PatternType::MultilingualReasoning);
    assert_eq!(patterns[0].confidence, 800);
    assert_eq!(patterns[0].description, "3 multilingual reasoning steps detected");
    assert_eq!(
        patterns[0].languages,
        vec!["en".to_string(), "id".to_string(), "es".to_string()]
    );
}

#[test]
fn key_insights_are_formatted_and_truncated() {
    let folder = MultilingualMemoryFolder::new();
    let long = "x".repeat(60);
    let mut multi = LanguageAwareAgentEvent::new("Translator", &long, "short", "en", 500);
    multi.add_secondary_language("id");
    let events = vec![
        LanguageAwareAgentEvent::new("Explorer", "in", &long, "en", 900),
        LanguageAwareAgentEvent::new("Explorer", "in", "out", "en", 800),
        multi,
    ];
    let insights = folder.extract_key_insights(&events);
    let cut = "x".repeat(50);
    assert_eq!(
        insights,
        vec![
            format!("[en] Explorer: {}", cut),
            format!("[Multilingual en+id] Translator: {} -> short", cut),
        ]
    );
}

#[test]
fn language_distribution_counts_every_language_touched() {
    let folder = MultilingualMemoryFolder::new();
    let mut e2 = LanguageAwareAgentEvent::new("Translator", "a", "b", "id", 850);
    e2.add_secondary_language("en");
    let events = vec![
        LanguageAwareAgentEvent::new("Explorer", "a", "b", "en", 900),
        e2,
        LanguageAwareAgentEvent::new("Explorer", "a", "b", "es", 900),
    ];
    let dist = folder.compute_language_distribution(&events);
    assert_eq!(dist.len(), 3);
    assert_eq!(dist.get("en"), Some(2));
    assert_eq!(dist.get("id"), Some(1));
    assert_eq!(dist.get("es"), Some(1));
    assert_eq!(dist.get("fr"), None);
}

#[test]
fn translation_summary_aggregates_answers() {
    let folder = MultilingualMemoryFolder::new();
    let events = vec![
        LanguageAwareAgentEvent::new("Explorer", "a0", "b0", "en", 900),
        LanguageAwareAgentEvent::new("Translator", "a1", "b1", "id", 850),
        LanguageAwareAgentEvent::new("Translator", "a2", "b2", "id", 850),
        LanguageAwareAgentEvent::new("Explorer", "a3", "b3", "en", 900),
        LanguageAwareAgentEvent::new("Explorer", "a4", "b4", "id", 900),
    ];
    let requests = folder.translation_requests(&events);
    assert_eq!(requests.len(), 3);
    assert_eq!(requests[1].source_text, "b2");
    assert_eq!(requests[1].target_text, "a3");
    assert_eq!(requests[1].source_language, "id");
    assert_eq!(requests[1].target_language, "en");
    let summary = folder
        .compute_translation_summary(&events, &[aligned(900), aligned(600), aligned(750)])
        .unwrap();
    assert_eq!(summary.total_translations, 3);
    assert_eq!(summary.average_quality, 750);
    assert_eq!(summary.language_pairs, vec!["en-id".to_string(), "id-en".to_string()]);
    assert_eq!(summary.problematic_translations, 1);
}

#[test]
fn no_translation_means_full_quality_and_alignment() {
    let folder = MultilingualMemoryFolder::new();
    let events = vec![
        LanguageAwareAgentEvent::new("Explorer", "a", "b", "en", 900),
        LanguageAwareAgentEvent::new("Explorer", "a", "b", "en", 700),
    ];
    let fold = folder.fold_memory("t", &events, &[]).unwrap();
    assert_eq!(fold.translation_summary.total_translations, 0);
    assert_eq!(fold.translation_summary.average_quality, 1000);
    assert_eq!(fold.overall_alignment, 1000);
    assert_eq!(fold.compression_ratio, 500);
    assert_eq!(fold.trace_id, "t");
}

#[test]
fn overall_alignment_averages_present_scores() {
    let folder = MultilingualMemoryFolder::new();
    let mut a = LanguageAwareAgentEvent::new("Explorer", "a", "b", "en", 900);
    a.set_alignment_score(900);
    let mut c = LanguageAwareAgentEvent::new("Explorer", "a", "b", "en", 900);
    c.set_alignment_score(600);
    let events = vec![a, LanguageAwareAgentEvent::new("Explorer", "a", "b", "en", 900), c];
    assert_eq!(folder.calculate_overall_alignment(&events), 750);
}

#[test]
fn empty_fold_has_zero_ratio() {
    let folder = MultilingualMemoryFolder::default();
    let fold = folder.fold_memory("t", &[], &[]).unwrap();
    assert_eq!(fold.total_events, 0);
    assert_eq!(fold.compression_ratio, 0);
    assert!(fold.key_insights.is_empty());
}

#[test]
fn missing_alignment_fails_the_whole_fold() {
    let folder = MultilingualMemoryFolder::new();
    let events = vec![
        LanguageAwareAgentEvent::new("Explorer", "a", "b", "en", 900),
        LanguageAwareAgentEvent::new("Translator", "a", "b", "id", 850),
        LanguageAwareAgentEvent::new("Translator", "a", "b", "es", 850),
    ];
    match folder.fold_memory("t", &events, &[aligned(900), None]) {
        Err(FoldError::AlignmentUnavailable { from_language, to_language }) => {
            assert_eq!(from_language, "id");
            assert_eq!(to_language, "es");
        }
        Ok(_) => panic!("fold must fail when an alignment is missing"),
    }
    assert!(folder.fold_memory("t", &events, &[aligned(900)]).is_err());
}

#[test]
fn secondary_languages_stay_distinct() {
    let mut e = LanguageAwareAgentEvent::new("Translator", "a", "b", "en", 900);
    e.add_secondary_language("en");
    assert!(!e.is_multilingual());
    e.add_secondary_language("id");
    e.add_secondary_language("id");
    assert_eq!(e.all_languages(), vec!["en".to_string(), "id".to_string()]);
    assert!(e.has_language("id"));
    assert!(!e.has_language("es"));
    assert_eq!(e.language_quality_score(), 0);
    e.set_alignment_score(800);
    e.set_cultural_context_score(600);
    assert_eq!(e.language_quality_score(), 700);
}
