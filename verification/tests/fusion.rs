use av_core::config::{ConfigError, ScannerConfig};
use av_core::engine::SignatureMatch;
use av_core::heuristics::{recommend, score, Score};
use av_core::RecommendedAction;

fn a_match() -> SignatureMatch {
    SignatureMatch { rule: "Some_Rule".to_string(), namespace: "default".to_string(), metadata: Vec::new() }
}

fn config_with_threshold(threshold: u32) -> ScannerConfig {
    let mut config = ScannerConfig::default();
    config.heuristic_threshold = threshold;
    config
}

#[test]
fn default_configuration_holds_the_documented_values() {
    let config = ScannerConfig::default();
    assert!(config.signature_sources.is_empty());
    assert_eq!(config.heuristic_threshold, 800);
    assert_eq!(config.bloom_filter_bits, 1 << 18);
    assert_eq!(config.max_scan_depth, 4);
    assert_eq!(config.thread_pool_size, 4);
    assert!(config.enable_entropy_analysis);
    assert_eq!(config.validate(), Ok(()));
}

#[test]
fn validation_accepts_the_bounds() {
    let mut config = config_with_threshold(0);
    config.thread_pool_size = 1;
    assert_eq!(config.validate(), Ok(()));
    let mut config = config_with_threshold(1000);
    config.thread_pool_size = 32;
    assert_eq!(config.validate(), Ok(()));
}

#[test]
fn validation_rejects_a_threshold_above_one() {
    assert_eq!(config_with_threshold(1001).validate(), Err(ConfigError::ThresholdOutOfRange));
}

#[test]
fn validation_rejects_pool_sizes_outside_the_range() {
    let mut config = ScannerConfig::default();
    config.thread_pool_size = 0;
    assert_eq!(config.validate(), Err(ConfigError::PoolSizeOutOfRange));
    config.thread_pool_size = 33;
    assert_eq!(config.validate(), Err(ConfigError::PoolSizeOutOfRange));
}

#[test]
fn validation_reports_the_threshold_first() {
    let mut config = config_with_threshold(5000);
    config.thread_pool_size = 0;
    assert_eq!(config.validate(), Err(ConfigError::ThresholdOutOfRange));
}

#[test]
fn default_threshold_scores_half_and_allows() {
    let config = ScannerConfig::default();
    let s = score("clean.txt", b"Hello, world!", &config);
    assert_eq!(s, Score(400));
    let none: Vec<SignatureMatch> = Vec::new();
    assert_eq!(recommend(&none, s, &config), RecommendedAction::Allow);
}

#[test]
fn score_rounds_half_of_an_odd_threshold_down() {
    assert_eq!(score("a", b"", &config_with_threshold(801)), Score(400));
    assert_eq!(score("a", b"", &config_with_threshold(1)), Score(0));
}

#[test]
fn any_match_quarantines_whatever_the_score() {
    let config = ScannerConfig::default();
    let one = vec![a_match()];
    assert_eq!(recommend(&one, Score(0), &config), RecommendedAction::Quarantine);
    assert_eq!(recommend(&one, Score(400), &config), RecommendedAction::Quarantine);
    assert_eq!(recommend(&one, Score(u32::MAX), &config), RecommendedAction::Quarantine);
    assert_eq!(recommend(&one, Score(0), &config_with_threshold(1000)), RecommendedAction::Quarantine);
}

#[test]
fn score_at_the_threshold_quarantines() {
    let config = ScannerConfig::default();
    let none: Vec<SignatureMatch> = Vec::new();
    assert_eq!(recommend(&none, Score(800), &config), RecommendedAction::Quarantine);
    assert_eq!(recommend(&none, Score(801), &config), RecommendedAction::Quarantine);
    assert_eq!(recommend(&none, Score(799), &config), RecommendedAction::Monitor);
}

#[test]
fn score_at_six_tenths_of_the_threshold_is_monitored() {
    let config = ScannerConfig::default();
    let none: Vec<SignatureMatch> = Vec::new();
    assert_eq!(recommend(&none, Score(480), &config), RecommendedAction::Monitor);
    assert_eq!(recommend(&none, Score(479), &config), RecommendedAction::Allow);
}

#[test]
fn six_tenths_is_exact_for_thresholds_that_five_does_not_divide() {
    // 0.6 * 801 = 480.6: 480 lies below, 481 above.
    let config = config_with_threshold(801);
    let none: Vec<SignatureMatch> = Vec::new();
    assert_eq!(recommend(&none, Score(480), &config), RecommendedAction::Allow);
    assert_eq!(recommend(&none, Score(481), &config), RecommendedAction::Monitor);
}

#[test]
fn a_threshold_of_zero_quarantines_everything() {
    let config = config_with_threshold(0);
    let none: Vec<SignatureMatch> = Vec::new();
    assert_eq!(recommend(&none, score("a", b"", &config), &config), RecommendedAction::Quarantine);
}

#[test]
fn the_largest_score_does_not_overflow() {
    let none: Vec<SignatureMatch> = Vec::new();
    let config = config_with_threshold(u32::MAX);
    assert_eq!(recommend(&none, Score(u32::MAX), &config), RecommendedAction::Quarantine);
    assert_eq!(recommend(&none, Score(u32::MAX - 1), &config), RecommendedAction::Monitor);
    assert_eq!(recommend(&none, Score(0), &config), RecommendedAction::Allow);
}

#[test]
fn raising_the_threshold_never_raises_the_severity() {
    let none: Vec<SignatureMatch> = Vec::new();
    for s in [0u32, 100, 479, 480, 481, 599, 600, 799, 800, 1000] {
        let mut previous = RecommendedAction::Quarantine.rank();
        for threshold in 0..=1000u32 {
            let action = recommend(&none, Score(s), &config_with_threshold(threshold));
            assert!(action.rank() <= previous);
            previous = action.rank();
        }
    }
}

#[test]
fn severity_ranks_allow_monitor_quarantine() {
    assert_eq!(RecommendedAction::Allow.rank(), 0);
    assert_eq!(RecommendedAction::Monitor.rank(), 1);
    assert_eq!(RecommendedAction::Quarantine.rank(), 2);
}
