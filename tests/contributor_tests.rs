use level5_ai_scientist::ContributorStats::{
    LanguageAwareContributorStats, LanguageAwareLeaderboard, LanguageAwareRankingCriteria,
};

fn langs(codes: &[&str]) -> Vec<String> {
    codes.iter().map(|c| c.to_string()).collect()
}

#[test]
fn test_contributor_stats() {
    let mut stats = LanguageAwareContributorStats::new("researcher1");
    stats.add_trace(10, 800, 850, vec!["en".to_string(), "id".to_string()], 900, 880);

    assert_eq!(stats.total_traces(), 1);
    assert_eq!(stats.multilingual_traces(), 1);
    assert_eq!(stats.languages_used().len(), 2);
}

#[test]
fn test_overall_score() {
    let mut stats = LanguageAwareContributorStats::new("researcher1");
    stats.add_trace(20, 850, 900, vec!["en".to_string(), "id".to_string()], 880, 900);
    stats.add_discovery("Journavx");

    let score = stats.overall_score();
    assert!(score > 0 && score <= 1000);
}

#[test]
fn test_leaderboard() {
    let mut leaderboard = LanguageAwareLeaderboard::new();

    let mut stats1 = LanguageAwareContributorStats::new("researcher1");
    stats1.add_trace(20, 850, 900, vec!["en".to_string(), "id".to_string()], 880, 900);

    let mut stats2 = LanguageAwareContributorStats::new("researcher2");
    stats2.add_trace(15, 750, 800, vec!["en".to_string()], 850, 820);

    leaderboard.add_contributor(stats1);
    leaderboard.add_contributor(stats2);

    let top = leaderboard.get_top_n(2, LanguageAwareRankingCriteria::Overall);
    assert_eq!(top.len(), 2);
}

#[test]
fn test_contributor_statistics() {
    let mut stats = LanguageAwareContributorStats::new("researcher1");

    stats.add_trace(20, 850, 900, vec!["en".to_string(), "id".to_string()], 880, 900);

    stats.add_discovery("TestDiscovery");
    stats.add_expertise_domain("Quantum Computing");

    assert_eq!(stats.total_traces(), 1);
    assert_eq!(stats.multilingual_traces(), 1);
    assert_eq!(stats.languages_used().len(), 2);
    assert_eq!(stats.discoveries().len(), 1);
    assert!(stats.overall_score() > 0);
}

#[test]
fn test_language_aware_leaderboard() {
    let mut leaderboard = LanguageAwareLeaderboard::new();

    let mut stats1 = LanguageAwareContributorStats::new("researcher1");
    stats1.add_trace(20, 850, 900, vec!["en".to_string(), "id".to_string()], 880, 900);
    stats1.add_discovery("Discovery1");

    let mut stats2 = LanguageAwareContributorStats::new("researcher2");
    stats2.add_trace(15, 750, 800, vec!["en".to_string()], 850, 820);

    leaderboard.add_contributor(stats1);
    leaderboard.add_contributor(stats2);

    let top = leaderboard.get_top_n(2, LanguageAwareRankingCriteria::Overall);
    assert_eq!(top.len(), 2);

    assert!(top[0].overall_score() > top[1].overall_score());
}

#[test]
fn test_ranking_criteria() {
    let mut stats = LanguageAwareContributorStats::new("researcher");
    stats.add_trace(
        25,
        900,
        950,
        vec!["en".to_string(), "id".to_string(), "es".to_string()],
        920,
        930,
    );
    stats.add_discovery("Discovery1");
    stats.add_discovery("Discovery2");

    let mut leaderboard = LanguageAwareLeaderboard::new();
    leaderboard.add_contributor(stats);

    let criteria = vec![
        LanguageAwareRankingCriteria::Overall,
        LanguageAwareRankingCriteria::Serendipity,
        LanguageAwareRankingCriteria::CrossLanguageExpertise,
        LanguageAwareRankingCriteria::Discoveries,
        LanguageAwareRankingCriteria::TranslationQuality,
        LanguageAwareRankingCriteria::LanguageDiversity,
    ];

    for criterion in criteria {
        let top = leaderboard.get_top_n(1, criterion);
        assert_eq!(top.len(), 1);
    }
}

#[test]
fn cross_language_expertise_after_one_bilingual_trace() {
    let mut stats = LanguageAwareContributorStats::new("c");
    stats.add_trace(5, 500, 500, langs(&["en", "id"]), 500, 500);
    stats.add_discovery("a");
    stats.add_discovery("b");
    stats.add_discovery("c");
    assert_eq!(stats.cross_language_expertise(), 200);
}

#[test]
fn overall_score_exact_value() {
    let mut stats = LanguageAwareContributorStats::new("researcher1");
    stats.add_trace(20, 850, 900, langs(&["en", "id"]), 880, 900);
    stats.add_discovery("Discovery1");
    // 0.2·0.4 + 0.25·0.85 + 0.2·0.9 + 0.15·0.2 + 0.1·0.89 + 0.1·0.1 = 0.6015
    assert_eq!(stats.overall_score(), 601);
    let mut other = LanguageAwareContributorStats::new("researcher2");
    other.add_trace(15, 750, 800, langs(&["en"]), 850, 820);
    assert_eq!(other.overall_score(), 491);
}

#[test]
fn overall_score_at_its_ceiling() {
    let mut stats = LanguageAwareContributorStats::new("c");
    stats.add_trace(100, 1000, 1000, langs(&["a", "b", "c", "d", "e", "f", "g", "h", "i", "j", "k"]), 1000, 1000);
    for i in 0..12 {
        stats.add_discovery(&format!("d{}", i));
    }
    assert_eq!(stats.cross_language_expertise(), 1000);
    assert_eq!(stats.overall_score(), 1000);
}

#[test]
fn running_means_are_exact() {
    let mut stats = LanguageAwareContributorStats::new("c");
    let depths = [3usize, 4, 4];
    let scores = [100u32, 200, 400];
    for i in 0..3 {
        stats.add_trace(depths[i], scores[i], scores[i], langs(&["en"]), scores[i], scores[i]);
    }
    // (3 + 4 + 4) / 3 events, in thousandths
    assert_eq!(stats.avg_trace_depth(), 3666);
    assert_eq!(stats.avg_uniqueness(), 233);
    assert_eq!(stats.avg_serendipity(), 233);
    assert_eq!(stats.avg_alignment_score(), 233);
    assert_eq!(stats.avg_translation_quality(), 233);
    assert_eq!(stats.total_traces(), 3);
    assert_eq!(stats.multilingual_traces(), 0);
}

#[test]
fn proficiency_is_recency_weighted() {
    let mut stats = LanguageAwareContributorStats::new("c");
    assert_eq!(stats.language_proficiency("en"), None);
    stats.add_trace(1, 800, 0, langs(&["en"]), 0, 0);
    assert_eq!(stats.language_proficiency("en"), Some(400));
    stats.add_trace(1, 400, 0, langs(&["en", "id"]), 0, 0);
    assert_eq!(stats.language_proficiency("en"), Some(400));
    assert_eq!(stats.language_proficiency("id"), Some(200));
    assert_eq!(stats.languages_used(), &langs(&["en", "id"]));
    // one of two traces multilingual, two languages: 0.2 · 0.5
    assert_eq!(stats.cross_language_expertise(), 100);
}

#[test]
fn discoveries_and_domains_are_deduplicated() {
    let mut stats = LanguageAwareContributorStats::new("c");
    stats.add_discovery("x");
    stats.add_discovery("y");
    stats.add_discovery("x");
    stats.add_expertise_domain("Quantum");
    stats.add_expertise_domain("Quantum");
    assert_eq!(stats.discoveries(), &langs(&["x", "y"]));
    assert_eq!(stats.expertise_domains(), &langs(&["Quantum"]));
    assert_eq!(stats.contributor_id(), "c");
}

#[test]
fn top_n_is_sorted_stable_and_bounded() {
    let mut board = LanguageAwareLeaderboard::new();
    for (id, count) in [("a", 1usize), ("b", 3), ("c", 1), ("d", 2)] {
        let mut s = LanguageAwareContributorStats::new(id);
        for k in 0..count {
            s.add_discovery(&format!("{}{}", id, k));
        }
        board.add_contributor(s);
    }
    let top = board.get_top_n(10, LanguageAwareRankingCriteria::Discoveries);
    let ids: Vec<&str> = top.iter().map(|s| s.contributor_id()).collect();
    assert_eq!(ids, vec!["b", "d", "a", "c"]);
    let top2 = board.get_top_n(2, LanguageAwareRankingCriteria::Discoveries);
    assert_eq!(top2.len(), 2);
    assert!(board.get_top_n(0, LanguageAwareRankingCriteria::Overall).is_empty());
    assert!(LanguageAwareLeaderboard::default().get_top_n(3, LanguageAwareRankingCriteria::Overall).is_empty());
}

#[test]
fn same_id_replaces_the_record() {
    let mut board = LanguageAwareLeaderboard::new();
    board.add_contributor(LanguageAwareContributorStats::new("a"));
    board.add_contributor(LanguageAwareContributorStats::new("b"));
    let mut again = LanguageAwareContributorStats::new("a");
    again.add_discovery("x");
    board.add_contributor(again);
    assert_eq!(board.len(), 2);
    let top = board.get_top_n(5, LanguageAwareRankingCriteria::Discoveries);
    assert_eq!(top[0].contributor_id(), "a");
    assert_eq!(top[0].discoveries().len(), 1);
}
