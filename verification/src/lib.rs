//! Host-based antivirus core: the decision pipeline between a file-access
//! event and the answer given to the kernel.
//!
//! The library holds the rules of that pipeline and proves them: how much of
//! a file is read, how rule matches, entropy and a threshold are fused into
//! one recommended action, how that action becomes an enforcement response,
//! and how the monitor degrades when it lacks the privilege to block.
//! Reading files, waiting for events and logging are left to the caller.
//!
//! Real-valued quantities are fixed-point integers here: scores and
//! thresholds in thousandths, entropy in steps of 2^-16 bit per byte.

use vstd::prelude::*;

pub mod capability;
pub mod config;
pub mod engine;
pub mod entropy;
pub mod fanotify;
pub mod heuristics;
pub mod log2;
pub mod monitoring;
pub mod quarantine;
pub mod security;
pub mod signatures;
pub mod telemetry;
pub mod text;
pub mod updater;

pub use config::ScannerConfig;

use vstd::string::StringExecFns;
use config::ConfigError;
use engine::{
    is_engine_for, is_selection_of, match_names, none_loads, outcome_of_scan,
    ContentSample, RuleSource, ScanContext, ScanError, YaraEngine,
};
use text::{decimal_nat, natural_string, thousandths, thousandths_string};

verus! {

/// What the scanner recommends for a file. The scanner itself never touches
/// the file: acting on a recommendation is left to the caller.
#[derive(Debug, Clone, Copy, PartialEq, Eq, Structural)]
pub enum RecommendedAction {
    /// No malicious indicators were observed.
    Allow,
    /// Suspicious traits were observed; suggest monitoring.
    Monitor,
    /// High confidence detection; quarantine recommended but not automatic.
    Quarantine,
}

/// Result of a scan: what was looked at, what was found, and what to do.
#[derive(Debug, Clone)]
pub struct ScanOutcome {
    /// The path that was scanned.
    pub path: String,
    /// The rules of the corpus that matched, in the order the corpus reported them.
    pub signatures: Vec<engine::SignatureMatch>,
    /// The heuristic score of the sample.
    pub heuristic_score: heuristics::Score,
    /// The entropy profile of the sample; empty when the analysis is off.
    pub entropy: entropy::EntropyReport,
    /// The one action that the findings add up to.
    pub recommended_action: RecommendedAction,
}

/// High-level scanning interface: a configuration that has been validated.
///
/// Scanning is strictly read-only: callers receive a `ScanOutcome` describing
/// detections and the recommended next step.
pub struct Scanner {
    config: ScannerConfig,
}

impl Scanner {
    #[verifier::type_invariant]
    spec fn validated(self) -> bool {
        self.config.is_valid()
    }

    /// The configuration that the scanner runs under.
    pub closed spec fn spec_config(&self) -> ScannerConfig {
        self.config
    }

    /// Construct a scanner with the supplied configuration. The configuration
    /// is validated here, so that a scan never runs under a faulty one.
    pub fn new(config: ScannerConfig) -> (r: Result<Self, ConfigError>)
        ensures
            r matches Ok(scanner) ==> scanner.spec_config() == config && config.is_valid(),
            r matches Err(fault) ==> config.validate_spec() == Err::<(), ConfigError>(fault),
            r is Ok <==> config.is_valid(),
    {
        match config.validate() {
            Ok(()) => Ok(Self { config }),
            Err(fault) => Err(fault),
        }
    }

    /// The configuration that the scanner runs under.
    pub fn config(&self) -> (config: &ScannerConfig)
        ensures
            *config == self.spec_config(),
            config.is_valid(),
    {
        proof {
            use_type_invariant(self);
        }
        &self.config
    }

    /// Scan the sample of the file at `path` against the first of `sources`
    /// that can be loaded.
    ///
    /// The sample's entropy is analysed if the configuration asks for it,
    /// and the findings are fused into the outcome. The file itself is never
    /// touched. A scanner's configuration is valid, so the scan fails only
    /// where the corpus scan ran out of time or broke. Where no candidate
    /// loads the scan succeeds, and the outcome has no match.
    pub fn scan_path(
        &self,
        path: &str,
        sample: &ContentSample,
        sources: &[Option<RuleSource>],
    ) -> (r: Result<ScanOutcome, ScanError>)
        ensures
            match r {
                Ok(outcome) => none_loads(sources@) ==> outcome.signatures@.len() == 0,
                Err(ScanError::Timeout) => !none_loads(sources@),
                Err(ScanError::Engine(_)) => !none_loads(sources@),
                Err(_) => false,
            },
            none_loads(sources@) ==> r is Ok,
            r matches Ok(outcome) ==> outcome.path@ == path@ && outcome_of_scan(
                self.spec_config(),
                ScanContext { target: outcome.path },
                sample@,
                outcome,
            ),
            r matches Ok(outcome) ==> exists|engine: YaraEngine|
                #[trigger] is_engine_for(engine, sources@) && is_selection_of(
                    match_names(outcome.signatures@),
                    engine.corpus(),
                ),
    {
        proof {
            use_type_invariant(self);
        }
        let context = ScanContext::new(path.to_owned());
        engine::scan_path(&self.config, &context, sample, sources)
    }

    /// Scan the sample of the file at `path` with a rule engine that is
    /// shared between scans. An engine without rules matches nothing.
    pub fn scan_with_engine(
        &self,
        path: &str,
        sample: &ContentSample,
        engine: &YaraEngine,
    ) -> (r: Result<ScanOutcome, ScanError>)
        ensures
            r matches Err(e) ==> engine.is_loaded() && (e is Timeout || e is Engine),
            !engine.is_loaded() ==> (r matches Ok(outcome) && outcome.signatures@.len() == 0),
            r matches Ok(outcome) ==> outcome.path@ == path@ && outcome_of_scan(
                self.spec_config(),
                ScanContext { target: outcome.path },
                sample@,
                outcome,
            ),
            r matches Ok(outcome) ==> is_selection_of(
                match_names(outcome.signatures@),
                engine.corpus(),
            ),
    {
        proof {
            use_type_invariant(self);
        }
        let context = ScanContext::new(path.to_owned());
        engine::scan_with_engine(&self.config, &context, sample, engine)
    }
}

impl ScanOutcome {
    /// The outcome in three lines for a reader: the action, the number of
    /// rule matches, and the score with three decimal places.
    pub open spec fn spec_summary(&self) -> Seq<char> {
        "Result: "@ + self.recommended_action.spec_name() + "\nSignatures: "@ + decimal_nat(
            self.signatures@.len(),
        ) + "\nScore: "@ + thousandths(self.heuristic_score.0 as nat)
    }

    /// The outcome in three lines for a reader.
    pub fn summary(&self) -> (text: String)
        ensures
            text@ == self.spec_summary(),
    {
        let mut text = "Result: ".to_owned();
        text.append(self.recommended_action.name());
        text.append("\nSignatures: ");
        text.append(natural_string(self.signatures.len() as u64).as_str());
        text.append("\nScore: ");
        text.append(thousandths_string(self.heuristic_score.0).as_str());
        assert(text@ =~= self.spec_summary());
        text
    }
}

impl RecommendedAction {
    /// The name of the action.
    pub open spec fn spec_name(self) -> Seq<char> {
        match self {
            RecommendedAction::Allow => "Allow"@,
            RecommendedAction::Monitor => "Monitor"@,
            RecommendedAction::Quarantine => "Quarantine"@,
        }
    }

    /// The name of the action.
    pub fn name(&self) -> (name: &'static str)
        ensures
            name@ == self.spec_name(),
    {
        match self {
            RecommendedAction::Allow => "Allow",
            RecommendedAction::Monitor => "Monitor",
            RecommendedAction::Quarantine => "Quarantine",
        }
    }

    /// Position in the order of increasing severity: `Allow`, `Monitor`, `Quarantine`.
    pub open spec fn severity(self) -> nat {
        match self {
            RecommendedAction::Allow => 0,
            RecommendedAction::Monitor => 1,
            RecommendedAction::Quarantine => 2,
        }
    }

    /// The severity as a number, for callers that sort or compare actions.
    pub fn rank(&self) -> (r: u8)
        ensures
            r as nat == self.severity(),
    {
        match self {
            RecommendedAction::Allow => 0,
            RecommendedAction::Monitor => 1,
            RecommendedAction::Quarantine => 2,
        }
    }
}

} // verus!
