//! Scanner configuration and its validation.

use vstd::prelude::*;

verus! {

/// A heuristic threshold of one whole, in thousandths.
pub const THRESHOLD_MAX: u32 = 1000;

/// Smallest accepted worker pool.
pub const POOL_SIZE_MIN: usize = 1;

/// Largest accepted worker pool.
pub const POOL_SIZE_MAX: usize = 32;

/// `url::Url`, carried through the configuration untouched.
#[verifier::external_type_specification]
#[verifier::external_body]
pub struct ExUrl(url::Url);

/// `Clone` for `url::Url`: the copy is a `Url` again; nothing more is claimed.
pub assume_specification[ <url::Url as Clone>::clone ](url: &url::Url) -> (copy: url::Url);

/// Describes how signature bundles are sourced.
#[derive(Clone, Debug)]
pub struct SignatureSource {
    pub name: String,
    pub url: url::Url,
    pub pinned_spki_sha256: String,
    pub local_cache: String,
}

/// Top-level configuration for the scanning engine.
///
/// `heuristic_threshold` is in thousandths: 800 stands for 0.8.
#[derive(Clone, Debug)]
pub struct ScannerConfig {
    pub signature_sources: Vec<SignatureSource>,
    pub heuristic_threshold: u32,
    pub bloom_filter_bits: usize,
    pub max_scan_depth: usize,
    pub thread_pool_size: usize,
    pub enable_entropy_analysis: bool,
}

/// Why a configuration was refused.
#[derive(Debug, Clone, Copy, PartialEq, Eq, Structural)]
pub enum ConfigError {
    /// The heuristic threshold lies above one whole.
    ThresholdOutOfRange,
    /// The worker pool size lies outside 1..=32.
    PoolSizeOutOfRange,
}

impl ScannerConfig {
    /// The threshold is at most one whole.
    pub open spec fn threshold_in_range(&self) -> bool {
        self.heuristic_threshold <= THRESHOLD_MAX
    }

    /// The worker pool has between 1 and 32 threads.
    pub open spec fn pool_size_in_range(&self) -> bool {
        POOL_SIZE_MIN <= self.thread_pool_size <= POOL_SIZE_MAX
    }

    /// A configuration that scans may run under.
    pub open spec fn is_valid(&self) -> bool {
        self.threshold_in_range() && self.pool_size_in_range()
    }

    /// What validation answers: the threshold is looked at first, so a
    /// configuration with both faults reports the threshold.
    pub open spec fn validate_spec(&self) -> Result<(), ConfigError> {
        if !self.threshold_in_range() {
            Err(ConfigError::ThresholdOutOfRange)
        } else if !self.pool_size_in_range() {
            Err(ConfigError::PoolSizeOutOfRange)
        } else {
            Ok(())
        }
    }

    /// Validate the configuration so that a daemon can fail fast at startup.
    pub fn validate(&self) -> (r: Result<(), ConfigError>)
        ensures
            r == self.validate_spec(),
            r is Ok <==> self.is_valid(),
            r == Err::<(), ConfigError>(ConfigError::ThresholdOutOfRange)
                <==> !self.threshold_in_range(),
            r == Err::<(), ConfigError>(ConfigError::PoolSizeOutOfRange)
                <==> self.threshold_in_range() && !self.pool_size_in_range(),
    {
        if self.heuristic_threshold > THRESHOLD_MAX {
            return Err(ConfigError::ThresholdOutOfRange);
        }
        if self.thread_pool_size < POOL_SIZE_MIN || self.thread_pool_size > POOL_SIZE_MAX {
            return Err(ConfigError::PoolSizeOutOfRange);
        }
        Ok(())
    }
}

impl Default for ScannerConfig {
    /// Conservative defaults: no signature sources, a threshold of 0.8, four
    /// workers, entropy analysis on.
    fn default() -> (c: Self)
        ensures
            c.signature_sources@.len() == 0,
            c.heuristic_threshold == 800,
            c.bloom_filter_bits == 262144,
            c.max_scan_depth == 4,
            c.thread_pool_size == 4,
            c.enable_entropy_analysis,
            c.is_valid(),
    {
        ScannerConfig {
            signature_sources: Vec::new(),
            heuristic_threshold: 800,
            bloom_filter_bits: 262144,
            max_scan_depth: 4,
            thread_pool_size: 4,
            enable_entropy_analysis: true,
        }
    }
}

} // verus!
