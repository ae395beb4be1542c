//! The vocabulary of the confidence model: its version and the classes of
//! timestamp trust and source volatility that scale a score.

use vstd::prelude::*;
use crate::text::owned;

verus! {

/// The version of the confidence model, embedded in every score.
pub const MODEL_VERSION: &'static str = "2.0.0";

/// The weight of source reliability in the base score, in basis points.
pub const WEIGHT_SOURCE_RELIABILITY_BP: u32 = 6000;

/// The weight of corroboration in the base score, in basis points.
pub const WEIGHT_CORROBORATION_BP: u32 = 4000;

/// The factor weights of the base score sum to one.
pub proof fn law_weights_sum_to_one()
    ensures
        WEIGHT_SOURCE_RELIABILITY_BP + WEIGHT_CORROBORATION_BP == 10000,
{
}

/// One weighted factor of the model, for documentation.
#[derive(Debug, Clone)]
pub struct FactorWeight {
    pub factor_name: String,
    /// The weight in basis points.
    pub weight_bp: u32,
    pub description: String,
}

/// The documentation of the confidence model, for reports.
#[derive(Debug, Clone)]
pub struct ModelDocumentation {
    pub version: String,
    pub factor_weights: Vec<FactorWeight>,
    pub methodology_summary: String,
}

/// The methodology summary of the model.
pub const METHODOLOGY_SUMMARY: &'static str = "The ORACLE Confidence Model v2.0 calculates a base score using Source Reliability (60%) and Corroboration (40%). This base is scaled by: Timestamp Trust Factor (T_T: 1.0, 0.8, or 0.3), Volatility Factor (A_V: 1.0, 0.8, or 0.5), Capability Validation (C_V: 1.0 or 0.0), and (1.0 - Anti-Forensics Penalty). Finally, Contradiction Penalties (C_P) are subtracted directly. The score is clamped to [0.0, 1.0].";

/// The description of the source-reliability factor.
pub const SOURCE_RELIABILITY_TEXT: &'static str = "Baseline reliability of the primary artifact class (e.g., SQLite configs = 1.00, XML configs = 0.95, kernel logs = 0.85, logs = 0.70).";

/// The description of the corroboration factor.
pub const CORROBORATION_TEXT: &'static str = "Number of independent confirming sources. Calculated as min(1.0, (N - 1) / 3).";

impl ModelDocumentation {
    /// The documentation of model 2.0: its version, its two weighted
    /// factors and its methodology.
    pub fn v2() -> (d: ModelDocumentation)
        ensures
            d.version@ == MODEL_VERSION@,
            d.factor_weights@.len() == 2,
            d.factor_weights@[0].factor_name@ == "Source Reliability (W_SR)"@,
            d.factor_weights@[0].weight_bp == WEIGHT_SOURCE_RELIABILITY_BP,
            d.factor_weights@[0].description@ == SOURCE_RELIABILITY_TEXT@,
            d.factor_weights@[1].factor_name@ == "Corroboration (W_CS)"@,
            d.factor_weights@[1].weight_bp == WEIGHT_CORROBORATION_BP,
            d.factor_weights@[1].description@ == CORROBORATION_TEXT@,
            d.methodology_summary@ == METHODOLOGY_SUMMARY@,
    {
        let mut factor_weights: Vec<FactorWeight> = Vec::new();
        factor_weights.push(
            FactorWeight {
                factor_name: owned("Source Reliability (W_SR)"),
                weight_bp: WEIGHT_SOURCE_RELIABILITY_BP,
                description: owned(SOURCE_RELIABILITY_TEXT),
            },
        );
        factor_weights.push(
            FactorWeight {
                factor_name: owned("Corroboration (W_CS)"),
                weight_bp: WEIGHT_CORROBORATION_BP,
                description: owned(CORROBORATION_TEXT),
            },
        );
        ModelDocumentation {
            version: owned(MODEL_VERSION),
            factor_weights,
            methodology_summary: owned(METHODOLOGY_SUMMARY),
        }
    }
}

/// How far the device clock can be trusted.
#[derive(Debug, Clone, Copy, PartialEq, Eq, Structural)]
pub enum TimestampTrust {
    /// Synchronised with a verified time source.
    VerifiedNtp,
    /// The local clock, unverified.
    UnverifiedLocal,
    /// Evidence of clock manipulation.
    Manipulated,
}

impl TimestampTrust {
    /// The factor by which this trust scales a score, in basis points:
    /// 1.0, 0.8 and 0.3.
    pub fn factor_bp(&self) -> (r: u32)
        ensures
            r == match *self {
                TimestampTrust::VerifiedNtp => 10000u32,
                TimestampTrust::UnverifiedLocal => 8000u32,
                TimestampTrust::Manipulated => 3000u32,
            },
    {
        match self {
            TimestampTrust::VerifiedNtp => 10000,
            TimestampTrust::UnverifiedLocal => 8000,
            TimestampTrust::Manipulated => 3000,
        }
    }
}

/// How long the evidence source persists.
#[derive(Debug, Clone, Copy, PartialEq, Eq, Structural)]
pub enum ArtifactVolatility {
    /// Survives reboots.
    Persistent,
    /// Rotated or trimmed over time.
    SemiVolatile,
    /// Lost on reboot.
    Volatile,
}

impl ArtifactVolatility {
    /// The factor by which this volatility scales a score, in basis points:
    /// 1.0, 0.8 and 0.5.
    pub fn factor_bp(&self) -> (r: u32)
        ensures
            r == match *self {
                ArtifactVolatility::Persistent => 10000u32,
                ArtifactVolatility::SemiVolatile => 8000u32,
                ArtifactVolatility::Volatile => 5000u32,
            },
    {
        match self {
            ArtifactVolatility::Persistent => 10000,
            ArtifactVolatility::SemiVolatile => 8000,
            ArtifactVolatility::Volatile => 5000,
        }
    }
}

/// The confidence scoring engine. It holds no state.
#[derive(Debug, Clone, Copy)]
pub struct ScoringEngine;

} // verus!
