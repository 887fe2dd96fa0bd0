//! Configuration carriers: which classifier models to install, the matcher
//! rules with their chains, and the optional utterance-recording settings,
//! with the documented defaults applied in one place.

use vstd::prelude::*;

use crate::FP_ONE;

verus! {

/// Default activation threshold: one half.
pub const DEFAULT_THRESHOLD: i64 = 500_000;

/// Default stage timeout in milliseconds.
pub const DEFAULT_TIMEOUT_MS: u64 = 3200;

pub struct ModelConfig {
    pub path: String,
    pub scale: Option<i64>,
}

impl ModelConfig {
    /// The configured scale, or unit gain.
    pub fn scale_or_default(&self) -> (r: i64)
        ensures
            r == match self.scale {
                Some(s) => s,
                None => FP_ONE,
            },
    {
        match self.scale {
            Some(s) => s,
            None => FP_ONE,
        }
    }
}

pub struct MatchStageConfig {
    pub model: String,
    pub activation_threshold: Option<i64>,
    pub timeout_ms: Option<u64>,
}

impl MatchStageConfig {
    /// The configured threshold, or one half.
    pub fn threshold_or_default(&self) -> (r: i64)
        ensures
            r == match self.activation_threshold {
                Some(t) => t,
                None => DEFAULT_THRESHOLD,
            },
    {
        match self.activation_threshold {
            Some(t) => t,
            None => DEFAULT_THRESHOLD,
        }
    }

    /// The configured timeout, or 3200 ms.
    pub fn timeout_or_default(&self) -> (r: u64)
        ensures
            r == match self.timeout_ms {
                Some(t) => t,
                None => DEFAULT_TIMEOUT_MS,
            },
    {
        match self.timeout_ms {
            Some(t) => t,
            None => DEFAULT_TIMEOUT_MS,
        }
    }
}

pub struct MatchConfig {
    pub chain: Vec<MatchStageConfig>,
    pub action: String,
}

pub struct UtteranceConfig {
    pub wakeword: Option<String>,
    pub command: Option<String>,
}

pub struct Config {
    pub models: Vec<(String, ModelConfig)>,
    pub matchers: Vec<(String, MatchConfig)>,
    pub utterance: Option<UtteranceConfig>,
}

} // verus!
