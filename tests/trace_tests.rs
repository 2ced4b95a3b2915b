use level5_ai_scientist::serendipity_trace::{SerendipityAgent, SerendipityStage, SerendipityTrace};
use sha2::{Digest, Sha256};

fn two_event_trace() -> SerendipityTrace {
    let mut trace = SerendipityTrace::new_at("r1", "b", "D", 5_000);
    trace.log_event_at(
        SerendipityStage::Exploration,
        SerendipityAgent::Explorer,
        "in",
        "out",
        "en",
        850,
        900,
        6_000,
    );
    trace.log_event_at(
        SerendipityStage::UnexpectedConnection,
        SerendipityAgent::PatternRecognizer,
        "in2",
        "out2",
        "id",
        1000,
        800,
        7_000,
    );
    trace
}

#[test]
fn test_serendipity_trace_creation() {
    let trace = SerendipityTrace::new("researcher1", "quantum_backend", "Journavx");
    assert_eq!(trace.contributor_id, "researcher1");
    assert_eq!(trace.discovery_name, "Journavx");
    assert_eq!(trace.events.len(), 0);
}

#[test]
fn test_log_event() {
    let mut trace = SerendipityTrace::new("researcher1", "backend", "Discovery");
    trace.log_event(
        SerendipityStage::Exploration,
        SerendipityAgent::Explorer,
        "Search for patterns",
        "Found unexpected connection",
        "en",
        850,
        900,
    );
    assert_eq!(trace.events.len(), 1);
    assert_eq!(trace.languages.len(), 1);
}

#[test]
fn test_provenance_hash() {
    let mut trace = SerendipityTrace::new("researcher1", "backend", "Discovery");
    trace.log_event(
        SerendipityStage::Exploration,
        SerendipityAgent::Explorer,
        "input",
        "output",
        "en",
        800,
        900,
    );
    let hash = trace.compute_provenance_hash();
    assert_eq!(hash.len(), 64);
}

#[test]
fn test_memory_folding() {
    let mut trace = SerendipityTrace::new("researcher1", "backend", "Discovery");
    trace.log_event(
        SerendipityStage::Exploration,
        SerendipityAgent::Explorer,
        "input1",
        "output1",
        "en",
        900,
        850,
    );
    trace.log_event(
        SerendipityStage::UnexpectedConnection,
        SerendipityAgent::PatternRecognizer,
        "input2",
        "output2",
        "id",
        950,
        900,
    );

    let folded = trace.fold_memory();
    assert_eq!(folded.total_events, 2);
    assert!(folded.compression_ratio > 0);
}

#[test]
fn test_uniqueness_score() {
    let mut trace = SerendipityTrace::new("researcher1", "backend", "Discovery");
    trace.log_event(
        SerendipityStage::Exploration,
        SerendipityAgent::Explorer,
        "input",
        "output",
        "en",
        800,
        900,
    );
    let score = trace.uniqueness_score();
    assert!(score <= 1000);
}

#[test]
fn test_serendipity_stages() {
    let mut trace = SerendipityTrace::new("researcher", "backend", "Discovery");

    let stages = vec![
        SerendipityStage::Exploration,
        SerendipityStage::UnexpectedConnection,
        SerendipityStage::HypothesisFormation,
        SerendipityStage::Validation,
        SerendipityStage::Integration,
        SerendipityStage::Publication,
    ];

    for (i, stage) in stages.iter().enumerate() {
        trace.log_event(
            stage.clone(),
            SerendipityAgent::Explorer,
            &format!("input{}", i),
            &format!("output{}", i),
            "en",
            800,
            850,
        );
    }

    assert_eq!(trace.events.len(), 6);
    assert_eq!(trace.transitions.len(), 5);
}

#[test]
fn alternating_languages_give_eight_transitions() {
    let mut trace = SerendipityTrace::new("researcher", "backend", "Discovery");
    for i in 0..9 {
        let language = if i % 2 == 0 { "en" } else { "id" };
        trace.log_event(
            SerendipityStage::Exploration,
            SerendipityAgent::Translator,
            "input",
            "output",
            language,
            500,
            500,
        );
    }
    assert_eq!(trace.transitions.len(), 8);
    assert!(trace.transitions.iter().any(|t| t.language_shift.is_some()));
    assert_eq!(trace.languages, vec!["en".to_string(), "id".to_string()]);
}

#[test]
fn transition_count_tracks_events() {
    let mut trace = SerendipityTrace::new_at("c", "b", "d", 0);
    assert_eq!(trace.transitions.len(), 0);
    for i in 0..5u64 {
        trace.log_event_at(
            SerendipityStage::Validation,
            SerendipityAgent::Validator,
            "x",
            "y",
            "en",
            100,
            200,
            i,
        );
        assert_eq!(trace.transitions.len() as u64, i);
        assert_eq!(trace.events.len() as u64, i + 1);
    }
}

#[test]
fn transitions_record_scores_reasons_and_shifts() {
    let trace = two_event_trace();
    let t = &trace.transitions[0];
    assert_eq!(t.from_event, "event_0_6000");
    assert_eq!(t.to_event, "event_1_7000");
    assert_eq!(t.transition_score, 850);
    assert_eq!(t.reason, "Exploration -> UnexpectedConnection");
    assert_eq!(t.language_shift, Some(("en".to_string(), "id".to_string())));
    assert_eq!(t.from_agent, SerendipityAgent::Explorer);
    assert_eq!(t.to_agent, SerendipityAgent::PatternRecognizer);
    assert_eq!(trace.trace_id, "seren_r1_5");
    assert_eq!(trace.overall_serendipity, 925);
}

#[test]
fn provenance_text_is_canonical() {
    let trace = two_event_trace();
    assert_eq!(
        trace.provenance_text(),
        "seren_r1_5r1bDevent_0_6000inouten0.85event_1_7000in2out2id1event_0_6000event_1_70000.85"
    );
}

#[test]
fn provenance_hash_is_sha256_of_provenance_text() {
    let trace = two_event_trace();
    let expected = format!("{:x}", Sha256::digest(trace.provenance_text().as_bytes()));
    let hash = trace.compute_provenance_hash();
    assert_eq!(hash, expected);
    assert_ne!(hash, trace.provenance_text());
    assert!(hash.chars().all(|c| c.is_ascii_digit() || ('a'..='f').contains(&c)));
}

#[test]
fn provenance_hash_is_deterministic() {
    assert_eq!(
        two_event_trace().compute_provenance_hash(),
        two_event_trace().compute_provenance_hash()
    );
}

#[test]
fn provenance_hash_changes_with_any_character() {
    let base = two_event_trace().compute_provenance_hash();
    for (input, output, language) in [("im", "out", "en"), ("in", "ouT", "en"), ("in", "out", "es")] {
        let mut trace = SerendipityTrace::new_at("r1", "b", "D", 5_000);
        trace.log_event_at(
            SerendipityStage::Exploration,
            SerendipityAgent::Explorer,
            input,
            output,
            language,
            850,
            900,
            6_000,
        );
        trace.log_event_at(
            SerendipityStage::UnexpectedConnection,
            SerendipityAgent::PatternRecognizer,
            "in2",
            "out2",
            "id",
            1000,
            800,
            7_000,
        );
        assert_ne!(trace.compute_provenance_hash(), base);
    }
}

#[test]
fn empty_trace_folds_to_zero_ratio() {
    let trace = SerendipityTrace::new_at("c", "b", "d", 0);
    let folded = trace.fold_memory();
    assert_eq!(folded.total_events, 0);
    assert_eq!(folded.compression_ratio, 0);
    assert!(folded.key_discoveries.is_empty());
}

#[test]
fn fold_keeps_events_above_threshold() {
    let mut trace = SerendipityTrace::new_at("c", "b", "d", 0);
    let scores = [700u32, 710, 300];
    for (i, s) in scores.iter().enumerate() {
        trace.log_event_at(
            SerendipityStage::Integration,
            SerendipityAgent::Synthesizer,
            "i",
            &format!("o{}", i),
            if i == 2 { "id" } else { "en" },
            *s,
            500,
            i as u64,
        );
    }
    let folded = trace.fold_memory();
    assert_eq!(folded.key_discoveries, vec!["Integration: o1".to_string()]);
    assert_eq!(folded.compression_ratio, 333);
    assert_eq!(folded.language_transitions, vec!["en -> id".to_string()]);
    assert_eq!(folded.overall_serendipity, 570);
}

#[test]
fn uniqueness_follows_the_weighted_formula() {
    let mut trace = SerendipityTrace::new_at("c", "b", "d", 0);
    trace.log_event_at(SerendipityStage::Exploration, SerendipityAgent::Explorer, "i", "o", "en", 0, 0, 1);
    // one agent, one language, one stage: 400/7 + 60 + 50
    assert_eq!(trace.uniqueness_score(), 57 + 60 + 50);
    trace.log_event_at(SerendipityStage::Validation, SerendipityAgent::Validator, "i", "o", "id", 0, 0, 2);
    assert_eq!(trace.uniqueness_score(), 114 + 120 + 100);
    assert_eq!(trace.depth(), 2);
}

#[test]
fn uniqueness_reaches_one_at_full_diversity() {
    let stages = [
        SerendipityStage::Exploration,
        SerendipityStage::UnexpectedConnection,
        SerendipityStage::HypothesisFormation,
        SerendipityStage::Validation,
        SerendipityStage::Integration,
        SerendipityStage::Publication,
        SerendipityStage::Publication,
    ];
    let agents = [
        SerendipityAgent::Explorer,
        SerendipityAgent::PatternRecognizer,
        SerendipityAgent::HypothesisGenerator,
        SerendipityAgent::Validator,
        SerendipityAgent::Synthesizer,
        SerendipityAgent::Translator,
        SerendipityAgent::MetaOrchestrator,
    ];
    let languages = ["en", "id", "es", "fr", "de", "ja", "zh"];
    let mut trace = SerendipityTrace::new_at("c", "b", "d", 0);
    for i in 0..7 {
        trace.log_event_at(stages[i], agents[i], "i", "o", languages[i], 500, 500, i as u64);
    }
    assert_eq!(trace.uniqueness_score(), 1000);
}
