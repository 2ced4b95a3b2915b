use level5_ai_scientist::Journavx_Discovery::simulate_journavx_discovery;
use level5_ai_scientist::serendipity_trace::{SerendipityAgent, SerendipityStage, SerendipityTrace};

#[test]
fn test_journavx_discovery() {
    let trace = simulate_journavx_discovery();
    assert_eq!(trace.discovery_name, "Journavx");
    assert!(trace.events.len() >= 9);
    assert!(trace.languages.contains(&"en".to_string()));
    assert!(trace.languages.contains(&"id".to_string()));
}

#[test]
fn test_journavx_serendipity() {
    let trace = simulate_journavx_discovery();
    assert!(trace.overall_serendipity > 800);
}

#[test]
fn test_journavx_provenance() {
    let trace = simulate_journavx_discovery();
    let hash = trace.compute_provenance_hash();
    assert_eq!(hash.len(), 64);
}

#[test]
fn test_journavx_discovery_simulation() {
    let trace = simulate_journavx_discovery();

    assert_eq!(trace.discovery_name, "Journavx");
    assert!(trace.events.len() >= 9);
    assert!(trace.languages.contains(&"en".to_string()));
    assert!(trace.languages.contains(&"id".to_string()));
    assert!(trace.overall_serendipity > 800);

    let hash = trace.compute_provenance_hash();
    assert_eq!(hash.len(), 64);

    let folded = trace.fold_memory();
    assert!(folded.compression_ratio > 0);
}

#[test]
fn test_complete_serendipity_workflow() {
    let mut trace = SerendipityTrace::new("researcher1", "backend", "TestDiscovery");

    trace.log_event(
        SerendipityStage::Exploration,
        SerendipityAgent::Explorer,
        "Search",
        "Found pattern",
        "en",
        700,
        850,
    );

    trace.log_event(
        SerendipityStage::UnexpectedConnection,
        SerendipityAgent::PatternRecognizer,
        "Analyze",
        "Unexpected link",
        "id",
        920,
        880,
    );

    assert_eq!(trace.events.len(), 2);
    assert_eq!(trace.transitions.len(), 1);
    assert_eq!(trace.languages.len(), 2);

    let hash = trace.compute_provenance_hash();
    assert_eq!(hash.len(), 64);

    let folded = trace.fold_memory();
    assert!(folded.compression_ratio > 0);
    assert_eq!(folded.total_events, 2);
}

#[test]
fn journavx_trace_summary() {
    let trace = simulate_journavx_discovery();
    assert_eq!(trace.overall_serendipity, 846);
    assert_eq!(trace.transitions.len(), 8);
    assert!(trace.trace_id.starts_with("seren_dr_sari_wijaya_"));
    assert!(trace.created_at > 0);
    let folded = trace.fold_memory();
    // every step but the first is above 0.7
    assert_eq!(folded.key_discoveries.len(), 8);
    assert_eq!(folded.compression_ratio, 888);
    assert_eq!(folded.language_transitions.len(), 6);
    assert_eq!(folded.language_transitions[0], "en -> id");
}

#[test]
fn clock_timestamps_are_recent_and_ordered() {
    let mut trace = SerendipityTrace::new("c", "b", "d");
    trace.log_event(SerendipityStage::Exploration, SerendipityAgent::Explorer, "i", "o", "en", 1, 1);
    // after 2020-01-01
    assert!(trace.created_at > 1_577_836_800_000);
    assert!(trace.events[0].timestamp >= trace.created_at);
    assert!(trace.events[0].event_id.starts_with("event_0_"));
    let secs = trace.created_at / 1000;
    assert_eq!(trace.trace_id, format!("seren_c_{}", secs));
}
