//! Heuristic fusion: rule matches, a score and a threshold become one
//! recommended action.

use vstd::prelude::*;
use crate::config::ScannerConfig;
use crate::engine::SignatureMatch;
use crate::RecommendedAction;

verus! {

/// Heuristic confidence in thousandths: `Score(400)` stands for 0.4.
///
/// Validation bounds the threshold a score is compared against, not the score
/// itself, so any `u32` is a score.
#[derive(Debug, Clone, Copy, PartialEq, Eq, Structural)]
pub struct Score(pub u32);

impl Default for Score {
    fn default() -> (s: Self)
        ensures
            s.0 == 0,
    {
        Score(0)
    }
}

/// The fusion rule over plain numbers: `matches` rule matches, a score and a
/// threshold in the same unit.
///
/// A rule match decides alone. Without one, a score at or above the threshold
/// quarantines, a score at or above six tenths of the threshold is watched,
/// and anything lower is allowed. Six tenths is taken exactly:
/// `score >= 0.6 * threshold` is `5 * score >= 3 * threshold`.
pub open spec fn fuse(matches: nat, score: int, threshold: int) -> RecommendedAction {
    if matches > 0 {
        RecommendedAction::Quarantine
    } else if score >= threshold {
        RecommendedAction::Quarantine
    } else if 5 * score >= 3 * threshold {
        RecommendedAction::Monitor
    } else {
        RecommendedAction::Allow
    }
}

/// The score given to a sample: half the configured threshold, rounded down.
/// Neither the path nor the content weighs in yet.
pub fn score(path: &str, data: &[u8], config: &ScannerConfig) -> (s: Score)
    ensures
        s.0 == config.heuristic_threshold / 2,
{
    Score(config.heuristic_threshold / 2)
}

/// Fuse rule matches and a score into the recommended action.
pub fn recommend(matches: &[SignatureMatch], score: Score, config: &ScannerConfig) -> (action:
    RecommendedAction)
    ensures
        action == fuse(matches@.len(), score.0 as int, config.heuristic_threshold as int),
        matches@.len() > 0 ==> action == RecommendedAction::Quarantine,
{
    if matches.len() > 0 {
        return RecommendedAction::Quarantine;
    }
    let s: u64 = score.0 as u64;
    let t: u64 = config.heuristic_threshold as u64;
    if s >= t {
        RecommendedAction::Quarantine
    } else if 5 * s >= 3 * t {
        RecommendedAction::Monitor
    } else {
        RecommendedAction::Allow
    }
}

/// Signature override: with at least one rule match the action is
/// `Quarantine`, whatever the score and the threshold.
pub proof fn lemma_signature_overrides(matches: nat, score: int, threshold: int)
    requires
        matches > 0,
    ensures
        fuse(matches, score, threshold) == RecommendedAction::Quarantine,
{
}

/// Raising the threshold never makes the action more severe: with matches and
/// score fixed, the action under the higher threshold is at most as severe as
/// under the lower one.
pub proof fn lemma_threshold_monotonic(matches: nat, score: int, low: int, high: int)
    requires
        low <= high,
    ensures
        fuse(matches, score, high).severity() <= fuse(matches, score, low).severity(),
{
}

/// Raising the score never makes the action less severe.
pub proof fn lemma_score_monotonic(matches: nat, low: int, high: int, threshold: int)
    requires
        low <= high,
    ensures
        fuse(matches, low, threshold).severity() <= fuse(matches, high, threshold).severity(),
{
}

/// The score that `score` gives lies below a positive threshold and below six
/// tenths of it, so without rule matches a sample is allowed.
pub proof fn lemma_half_threshold_allows(threshold: int)
    requires
        threshold > 0,
    ensures
        fuse(0, threshold / 2, threshold) == RecommendedAction::Allow,
{
}

} // verus!
