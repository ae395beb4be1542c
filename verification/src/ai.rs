//! The assistance layer's inputs and its hard constraints: what a
//! filesystem scan reports, and the marker of AI-generated content, which
//! is never a forensic finding and never modifies evidence.

use vstd::prelude::*;
use crate::text::{append, decimal, decimal_string, owned, str_eq};
use crate::types::{is_v4_uuid, artifact_class_name, random_uuid, utc_now_millis, uuid_string, uuid_text, ArtifactClass};

verus! {

/// What a filesystem scan found for anomaly detection.
#[derive(Debug)]
pub struct FilesystemStats {
    /// Paths that may hold forensic data but are not in the registry.
    pub unknown_paths: Vec<UnknownPath>,
    /// Artifact files of unusual size.
    pub size_anomalies: Vec<SizeAnomaly>,
    /// Files with inconsistent modification times.
    pub timestamp_anomalies: Vec<TimestampAnomalyRecord>,
}

/// An unknown path found by a scan.
#[derive(Debug, Clone)]
pub struct UnknownPath {
    pub path: String,
    pub size_bytes: u64,
    pub looks_like_database: bool,
    pub looks_like_config: bool,
    pub looks_like_log: bool,
}

/// A file whose size is unusual for its type.
#[derive(Debug)]
pub struct SizeAnomaly {
    pub path: String,
    pub artifact_class: ArtifactClass,
    pub actual_size: u64,
    pub expected_range: (u64, u64),
}

/// A file whose modification time is unusual.
#[derive(Debug, Clone)]
pub struct TimestampAnomalyRecord {
    pub path: String,
    pub file_mtime: String,
    pub anomaly_reason: String,
}

/// The label every hypothesis carries.
pub const HYPOTHESIS_LABEL: &'static str = "AI-ASSISTED HYPOTHESIS";

/// A unique hypothesis identifier (a UUID value).
#[derive(Debug, Clone, Copy, PartialEq, Eq, Hash, Structural)]
pub struct HypothesisId(pub u128);

impl HypothesisId {
    /// A fresh random (version 4) identifier.
    pub fn new() -> (id: HypothesisId)
        ensures
            is_v4_uuid(id.0),
    {
        HypothesisId(random_uuid())
    }
}

/// What a hypothesis is about. Scores are in basis points (hundredths of a
/// percent).
#[derive(Debug, Clone, PartialEq, Eq)]
pub enum HypothesisCategory {
    /// An unknown artifact pattern.
    UnknownArtifactPattern { detected_path: String, suspected_class: Option<ArtifactClass> },
    /// An anomaly that rules would miss.
    StatisticalAnomaly { description: String, anomaly_score_bp: u32 },
    /// A suggested correlation between two items.
    SuggestedCorrelation {
        item_a_description: String,
        item_b_description: String,
        correlation_basis: String,
    },
    /// An OEM-specific variation not in the registry.
    OemVariationDetected { manufacturer: String, variation_description: String },
    /// A summary for the investigator.
    InvestigatorSummary { summary_text: String },
}

/// Where a hypothesis stands in review. Instants are milliseconds since the
/// epoch.
#[derive(Debug, Clone, PartialEq, Eq)]
pub enum PromotionStatus {
    /// Not reviewed.
    Pending,
    /// An examiner promoted it to a probabilistic candidate.
    PromotedToProbabilistic { examiner_name: String, justification: String, promoted_at_ms: i64 },
    /// An examiner rejected it.
    Rejected { examiner_name: String, reason: String, rejected_at_ms: i64 },
    /// Deterministic evidence confirmed it.
    ConfirmedByDeterministicEvidence {
        examiner_name: String,
        corroborating_evidence_description: String,
        confirmed_at_ms: i64,
    },
}

/// A hypothesis of the assistance layer: labelled, never a finding, and
/// never modifying evidence.
#[derive(Debug, Clone)]
pub struct AiHypothesis {
    /// Unique identifier.
    pub id: HypothesisId,
    /// Always `AI-ASSISTED HYPOTHESIS`.
    pub label: String,
    /// What it is about.
    pub category: HypothesisCategory,
    /// Confidence in basis points, from 0 to 10000.
    pub ai_confidence_bp: u32,
    /// Where it stands in review.
    pub promotion: PromotionStatus,
    /// Always `false`.
    pub modifies_evidence: bool,
    /// When it was generated, in milliseconds since the epoch.
    pub generated_at_ms: i64,
    /// How it was derived.
    pub reasoning: String,
}

/// `c` clamped to the range of basis points.
pub open spec fn clamp_bp(c: int) -> int {
    if c < 0 {
        0
    } else if c > 10000 {
        10000
    } else {
        c
    }
}

/// A hypothesis as `AiHypothesis::new` makes it.
pub open spec fn fresh_hypothesis(
    h: AiHypothesis,
    category: HypothesisCategory,
    confidence_bp: int,
    reasoning: Seq<char>,
) -> bool {
    &&& h.label@ == HYPOTHESIS_LABEL@
    &&& h.category == category
    &&& h.ai_confidence_bp == clamp_bp(confidence_bp)
    &&& h.promotion == PromotionStatus::Pending
    &&& !h.modifies_evidence
    &&& h.reasoning@ == reasoning
}

/// `n / 100` rounded to the nearest integer, ties to even, as `{:.0}`
/// rounds a percentage.
pub open spec fn percent_half_even(n: int) -> int {
    let q = n / 100;
    let r = n % 100;
    if r > 50 || (r == 50 && q % 2 == 1) {
        q + 1
    } else {
        q
    }
}

/// The display text of a hypothesis.
pub open spec fn hypothesis_text(h: AiHypothesis) -> Seq<char> {
    "[AI-ASSISTED HYPOTHESIS] (confidence: "@ + decimal(percent_half_even(h.ai_confidence_bp as int) as nat)
        + "%) "@ + h.reasoning@
}

impl AiHypothesis {
    /// A pending hypothesis with the label, confidence clamped to 0 to
    /// 10000 basis points, and no effect on evidence.
    pub fn new(category: HypothesisCategory, ai_confidence_bp: i64, reasoning: &str) -> (h:
        AiHypothesis)
        ensures
            fresh_hypothesis(h, category, ai_confidence_bp as int, reasoning@),
    {
        let c: u32 = if ai_confidence_bp < 0 {
            0
        } else if ai_confidence_bp > 10000 {
            10000
        } else {
            ai_confidence_bp as u32
        };
        AiHypothesis {
            id: HypothesisId::new(),
            label: owned(HYPOTHESIS_LABEL),
            category,
            ai_confidence_bp: c,
            promotion: PromotionStatus::Pending,
            modifies_evidence: false,
            generated_at_ms: utc_now_millis(),
            reasoning: owned(reasoning),
        }
    }

    /// An examiner promotes the hypothesis to a probabilistic candidate.
    pub fn promote_to_probabilistic(&mut self, examiner_name: &str, justification: &str)
        ensures
            final(self).promotion matches PromotionStatus::PromotedToProbabilistic {
                examiner_name: n,
                justification: j,
                ..
            } && n@ == examiner_name@ && j@ == justification@,
            final(self).id == old(self).id,
            final(self).label == old(self).label,
            final(self).category == old(self).category,
            final(self).ai_confidence_bp == old(self).ai_confidence_bp,
            final(self).modifies_evidence == old(self).modifies_evidence,
            final(self).reasoning == old(self).reasoning,
    {
        self.promotion = PromotionStatus::PromotedToProbabilistic {
            examiner_name: owned(examiner_name),
            justification: owned(justification),
            promoted_at_ms: utc_now_millis(),
        };
    }

    /// An examiner rejects the hypothesis.
    pub fn reject(&mut self, examiner_name: &str, reason: &str)
        ensures
            final(self).promotion matches PromotionStatus::Rejected {
                examiner_name: n,
                reason: r,
                ..
            } && n@ == examiner_name@ && r@ == reason@,
            final(self).id == old(self).id,
            final(self).label == old(self).label,
            final(self).category == old(self).category,
            final(self).ai_confidence_bp == old(self).ai_confidence_bp,
            final(self).modifies_evidence == old(self).modifies_evidence,
            final(self).reasoning == old(self).reasoning,
    {
        self.promotion = PromotionStatus::Rejected {
            examiner_name: owned(examiner_name),
            reason: owned(reason),
            rejected_at_ms: utc_now_millis(),
        };
    }

    /// Deterministic evidence, described by an examiner, confirms the
    /// hypothesis.
    pub fn confirm_with_evidence(&mut self, examiner_name: &str, evidence_description: &str)
        ensures
            final(self).promotion matches PromotionStatus::ConfirmedByDeterministicEvidence {
                examiner_name: n,
                corroborating_evidence_description: d,
                ..
            } && n@ == examiner_name@ && d@ == evidence_description@,
            final(self).id == old(self).id,
            final(self).label == old(self).label,
            final(self).category == old(self).category,
            final(self).ai_confidence_bp == old(self).ai_confidence_bp,
            final(self).modifies_evidence == old(self).modifies_evidence,
            final(self).reasoning == old(self).reasoning,
    {
        self.promotion = PromotionStatus::ConfirmedByDeterministicEvidence {
            examiner_name: owned(examiner_name),
            corroborating_evidence_description: owned(evidence_description),
            confirmed_at_ms: utc_now_millis(),
        };
    }

    /// The hypothesis is past pending.
    pub fn is_reviewed(&self) -> (b: bool)
        ensures
            b == !(self.promotion is Pending),
    {
        match self.promotion {
            PromotionStatus::Pending => false,
            _ => true,
        }
    }

    /// Deterministic evidence confirmed the hypothesis.
    pub fn is_confirmed(&self) -> (b: bool)
        ensures
            b == (self.promotion is ConfirmedByDeterministicEvidence),
    {
        match self.promotion {
            PromotionStatus::ConfirmedByDeterministicEvidence { .. } => true,
            _ => false,
        }
    }

    /// The display text: the label, the confidence as a whole percentage
    /// and the reasoning.
    pub fn display_text(&self) -> (s: String)
        ensures
            s@ == hypothesis_text(*self),
    {
        let n = self.ai_confidence_bp;
        let q = n / 100;
        let r = n % 100;
        let pct = if r > 50 || (r == 50 && q % 2 == 1) {
            q + 1
        } else {
            q
        };
        let mut s = owned("[AI-ASSISTED HYPOTHESIS] (confidence: ");
        let digits = decimal_string(pct as u64);
        append(&mut s, digits.as_str());
        append(&mut s, "%) ");
        append(&mut s, self.reasoning.as_str());
        s
    }
}

/// The anomaly detector of the assistance layer. It holds no state.
#[derive(Debug, Clone, Copy)]
pub struct AnomalyDetector;

/// The marker that only the assistance layer's own types carry.
pub trait Sealed {}

impl Sealed for AiHypothesis {}

/// Content generated by the assistance layer: a labelled hypothesis, never
/// a finding.
pub trait AiGenerated: Sealed {
    /// The label of the content.
    fn label(&self) -> &str;

    /// Whether the content modifies evidence.
    fn modifies_evidence(&self) -> bool;
}

impl AiGenerated for AiHypothesis {
    fn label(&self) -> (r: &str)
        ensures
            r@ == self.label@,
    {
        self.label.as_str()
    }

    fn modifies_evidence(&self) -> (r: bool)
        ensures
            !r,
    {
        false
    }
}

/// The outcome of checking the assistance layer's hard constraints.
#[derive(Debug, Clone)]
pub struct ConstraintValidationResult {
    /// Whether every constraint holds.
    pub valid: bool,
    /// The violations found (empty when valid).
    pub violations: Vec<String>,
    /// The number of hypotheses checked.
    pub hypotheses_checked: usize,
}

/// The violations of hypothesis `h`: a wrong label, then a modification of
/// evidence.
pub open spec fn violations_of(h: AiHypothesis) -> Seq<Seq<char>> {
    let id = uuid_text(h.id.0);
    let a: Seq<Seq<char>> = if h.label@ != HYPOTHESIS_LABEL@ {
        seq!["Hypothesis "@ + id + " has incorrect label: '"@ + h.label@ + "'"@]
    } else {
        Seq::empty()
    };
    if h.modifies_evidence {
        a.push("Hypothesis "@ + id + " has modifies_evidence=true \u{2014} CRITICAL VIOLATION"@)
    } else {
        a
    }
}

/// The violations of the first `k` hypotheses, in order.
pub open spec fn all_violations(hs: Seq<AiHypothesis>, k: int) -> Seq<Seq<char>>
    decreases k,
{
    if k <= 0 {
        Seq::empty()
    } else {
        all_violations(hs, k - 1) + violations_of(hs[k - 1])
    }
}

/// Checks the hard constraints on every hypothesis: the label, and that it
/// does not modify evidence.
pub fn validate_constraints(hypotheses: &Vec<AiHypothesis>) -> (r: ConstraintValidationResult)
    ensures
        r.violations@.map_values(|s: String| s@) == all_violations(
            hypotheses@,
            hypotheses@.len() as int,
        ),
        r.valid == (r.violations@.len() == 0),
        r.hypotheses_checked == hypotheses@.len(),
{
    let mut violations: Vec<String> = Vec::new();
    let mut i: usize = 0;
    while i < hypotheses.len()
        invariant
            i <= hypotheses@.len(),
            violations@.map_values(|s: String| s@) == all_violations(hypotheses@, i as int),
        decreases hypotheses@.len() - i,
    {
        let h = &hypotheses[i];
        let ghost start = violations@.map_values(|s: String| s@);
        let id = uuid_string(h.id.0);
        let ghost mid = start;
        if !str_eq(h.label.as_str(), HYPOTHESIS_LABEL) {
            let mut v = owned("Hypothesis ");
            append(&mut v, id.as_str());
            append(&mut v, " has incorrect label: '");
            append(&mut v, h.label.as_str());
            append(&mut v, "'");
            violations.push(v);
        }
        let ghost after_label = violations@.map_values(|s: String| s@);
        if h.modifies_evidence {
            let mut v = owned("Hypothesis ");
            append(&mut v, id.as_str());
            append(&mut v, " has modifies_evidence=true \u{2014} CRITICAL VIOLATION");
            violations.push(v);
        }
        proof {
            assert(violations@.map_values(|s: String| s@) =~= start + violations_of(
                hypotheses@[i as int],
            ));
        }
        i = i + 1;
    }
    let valid = violations.len() == 0;
    ConstraintValidationResult { valid, violations, hypotheses_checked: hypotheses.len() }
}

/// The hard constraints hold of every hypothesis exactly when each carries
/// the label and none modifies evidence.
pub proof fn law_valid_iff_all_constraints_hold(hs: Seq<AiHypothesis>, k: int)
    requires
        0 <= k <= hs.len(),
    ensures
        (all_violations(hs, k).len() == 0) <==> (forall|i: int|
            0 <= i < k ==> (#[trigger] hs[i]).label@ == HYPOTHESIS_LABEL@ && !hs[i].modifies_evidence),
    decreases k,
{
    if k > 0 {
        law_valid_iff_all_constraints_hold(hs, k - 1);
        let v = violations_of(hs[k - 1]);
        assert((v.len() == 0) <==> (hs[k - 1].label@ == HYPOTHESIS_LABEL@ && !hs[k - 1].modifies_evidence));
    }
}

/// The figures a caller computes for a size anomaly: the ratio of the
/// actual size to the expected maximum, as `{:.1}` renders it, and the
/// anomaly score in basis points.
#[derive(Debug, Clone)]
pub struct SizeFigures {
    pub ratio_text: String,
    pub anomaly_score_bp: u32,
}

/// The kind of file an unknown path looks like.
pub open spec fn file_type_of(u: UnknownPath) -> Seq<char> {
    if u.looks_like_database {
        "database"@
    } else if u.looks_like_config {
        "configuration"@
    } else {
        "log"@
    }
}

/// The hypothesis about unknown path `u`, if it looks like data.
pub open spec fn unknown_path_reasoning(u: UnknownPath) -> Seq<char> {
    "Unknown "@ + file_type_of(u) + " file detected at '"@ + u.path@ + "' ("@ + decimal(
        u.size_bytes as nat,
    ) + " bytes). This may be an OEM-specific artifact not in the known path registry."@
}

/// The hypotheses of a scan: `(kind, position)` pairs in the order they
/// are made, where kind 0 is an unknown path, 1 a size anomaly and 2 a
/// timestamp anomaly.
pub open spec fn hypothesis_sources(stats: FilesystemStats) -> Seq<(int, int)> {
    let u = stats.unknown_paths@;
    let unknown = Seq::new(u.len(), |i: int| (0int, i)).filter(
        |p: (int, int)| u[p.1].looks_like_database || u[p.1].looks_like_config || u[p.1].looks_like_log,
    );
    unknown + Seq::new(stats.size_anomalies@.len(), |i: int| (1int, i)) + Seq::new(
        stats.timestamp_anomalies@.len(),
        |i: int| (2int, i),
    )
}

/// The hypothesis made for source `src` of a scan.
pub open spec fn hypothesis_for(
    h: AiHypothesis,
    stats: FilesystemStats,
    figures: Seq<SizeFigures>,
    src: (int, int),
) -> bool {
    if src.0 == 0 {
        let u = stats.unknown_paths@[src.1];
        fresh_hypothesis(
            h,
            HypothesisCategory::UnknownArtifactPattern {
                detected_path: u.path,
                suspected_class: if u.looks_like_database {
                    Some(ArtifactClass::Unknown)
                } else {
                    None
                },
            },
            4000,
            unknown_path_reasoning(u),
        )
    } else if src.0 == 1 {
        let a = stats.size_anomalies@[src.1];
        let f = figures[src.1];
        &&& h.category matches HypothesisCategory::StatisticalAnomaly { description, anomaly_score_bp }
            && description@ == "Artifact at '"@ + a.path@ + "' is "@ + f.ratio_text@
            + "x the expected maximum size"@ && anomaly_score_bp == f.anomaly_score_bp
        &&& h.label@ == HYPOTHESIS_LABEL@
        &&& h.ai_confidence_bp == 3000
        &&& h.promotion == PromotionStatus::Pending
        &&& !h.modifies_evidence
        &&& h.reasoning@ == "File '"@ + a.path@ + "' ("@ + artifact_class_name(a.artifact_class)
            + ") is "@ + decimal(a.actual_size as nat) + " bytes, but expected range is "@
            + decimal(a.expected_range.0 as nat) + "-"@ + decimal(a.expected_range.1 as nat)
            + " bytes. This may indicate data accumulation, corruption, or tampering."@
    } else {
        let t = stats.timestamp_anomalies@[src.1];
        &&& h.category matches HypothesisCategory::StatisticalAnomaly { description, anomaly_score_bp }
            && description@ == "Timestamp anomaly on '"@ + t.path@ + "': "@ + t.anomaly_reason@
            && anomaly_score_bp == 5000
        &&& h.label@ == HYPOTHESIS_LABEL@
        &&& h.ai_confidence_bp == 3500
        &&& h.promotion == PromotionStatus::Pending
        &&& !h.modifies_evidence
        &&& h.reasoning@ == "File '"@ + t.path@ + "' has modification time "@ + t.file_mtime@
            + " which is anomalous: "@ + t.anomaly_reason@
    }
}

impl AnomalyDetector {
    /// The hypotheses of a scan: one per unknown path that looks like a
    /// database, configuration or log, then one per size anomaly (with the
    /// figures the caller computed for it), then one per timestamp anomaly.
    pub fn analyze(stats: &FilesystemStats, size_figures: &Vec<SizeFigures>) -> (hs: Vec<AiHypothesis>)
        requires
            size_figures@.len() == stats.size_anomalies@.len(),
        ensures
            hs@.len() == hypothesis_sources(*stats).len(),
            forall|i: int| 0 <= i < hs@.len() ==> hypothesis_for(
                #[trigger] hs@[i],
                *stats,
                size_figures@,
                hypothesis_sources(*stats)[i],
            ),
    {
        let mut hs: Vec<AiHypothesis> = Vec::new();
        let ghost u = stats.unknown_paths@;
        let ghost all = Seq::new(u.len(), |i: int| (0int, i));
        let ghost keep = |p: (int, int)| u[p.1].looks_like_database || u[p.1].looks_like_config || u[p.1].looks_like_log;
        let mut i: usize = 0;
        while i < stats.unknown_paths.len()
            invariant
                i <= u.len(),
                u == stats.unknown_paths@,
                all == Seq::new(u.len(), |i: int| (0int, i)),
                keep == (|p: (int, int)| u[p.1].looks_like_database || u[p.1].looks_like_config || u[p.1].looks_like_log),
                hs@.len() == all.subrange(0, i as int).filter(keep).len(),
                forall|k: int| 0 <= k < hs@.len() ==> hypothesis_for(
                    #[trigger] hs@[k],
                    *stats,
                    size_figures@,
                    all.subrange(0, i as int).filter(keep)[k],
                ),
            decreases u.len() - i,
        {
            let p = &stats.unknown_paths[i];
            proof {
                assert(all.subrange(0, i as int + 1).drop_last() =~= all.subrange(0, i as int));
                assert(all.subrange(0, i as int + 1).last() == (0int, i as int));
                reveal(Seq::filter);
                assert(all.subrange(0, i as int).push((0int, i as int)) =~= all.subrange(0, i as int + 1));
            }
            if p.looks_like_database || p.looks_like_config || p.looks_like_log {
                let suspected = if p.looks_like_database {
                    Some(ArtifactClass::Unknown)
                } else {
                    None
                };
                let file_type = if p.looks_like_database {
                    "database"
                } else if p.looks_like_config {
                    "configuration"
                } else {
                    "log"
                };
                let mut reasoning = owned("Unknown ");
                append(&mut reasoning, file_type);
                append(&mut reasoning, " file detected at '");
                append(&mut reasoning, p.path.as_str());
                append(&mut reasoning, "' (");
                let size = decimal_string(p.size_bytes);
                append(&mut reasoning, size.as_str());
                append(
                    &mut reasoning,
                    " bytes). This may be an OEM-specific artifact not in the known path registry.",
                );
                let h = AiHypothesis::new(
                    HypothesisCategory::UnknownArtifactPattern {
                        detected_path: p.path.clone(),
                        suspected_class: suspected,
                    },
                    4000,
                    reasoning.as_str(),
                );
                hs.push(h);
            }
            i = i + 1;
        }
        let ghost unknown = all.filter(keep);
        proof {
            assert(all.subrange(0, u.len() as int) =~= all);
        }
        let ghost n0 = hs@.len();
        let mut j: usize = 0;
        while j < stats.size_anomalies.len()
            invariant
                j <= stats.size_anomalies@.len(),
                size_figures@.len() == stats.size_anomalies@.len(),
                n0 == unknown.len(),
                hs@.len() == n0 + j,
                forall|k: int| 0 <= k < n0 ==> hypothesis_for(
                    #[trigger] hs@[k],
                    *stats,
                    size_figures@,
                    unknown[k],
                ),
                forall|k: int| n0 <= k < hs@.len() ==> hypothesis_for(
                    #[trigger] hs@[k],
                    *stats,
                    size_figures@,
                    (1int, k - n0),
                ),
            decreases stats.size_anomalies@.len() - j,
        {
            let a = &stats.size_anomalies[j];
            let f = &size_figures[j];
            let mut description = owned("Artifact at '");
            append(&mut description, a.path.as_str());
            append(&mut description, "' is ");
            append(&mut description, f.ratio_text.as_str());
            append(&mut description, "x the expected maximum size");
            let mut reasoning = owned("File '");
            append(&mut reasoning, a.path.as_str());
            append(&mut reasoning, "' (");
            let class = a.artifact_class.debug_name();
            append(&mut reasoning, class.as_str());
            append(&mut reasoning, ") is ");
            let actual = decimal_string(a.actual_size);
            append(&mut reasoning, actual.as_str());
            append(&mut reasoning, " bytes, but expected range is ");
            let lo = decimal_string(a.expected_range.0);
            append(&mut reasoning, lo.as_str());
            append(&mut reasoning, "-");
            let hi = decimal_string(a.expected_range.1);
            append(&mut reasoning, hi.as_str());
            append(
                &mut reasoning,
                " bytes. This may indicate data accumulation, corruption, or tampering.",
            );
            let h = AiHypothesis::new(
                HypothesisCategory::StatisticalAnomaly {
                    description,
                    anomaly_score_bp: f.anomaly_score_bp,
                },
                3000,
                reasoning.as_str(),
            );
            hs.push(h);
            j = j + 1;
        }
        let ghost n1 = hs@.len();
        let mut k: usize = 0;
        while k < stats.timestamp_anomalies.len()
            invariant
                k <= stats.timestamp_anomalies@.len(),
                n0 == unknown.len(),
                n1 == n0 + stats.size_anomalies@.len(),
                hs@.len() == n1 + k,
                forall|q: int| 0 <= q < n0 ==> hypothesis_for(
                    #[trigger] hs@[q],
                    *stats,
                    size_figures@,
                    unknown[q],
                ),
                forall|q: int| n0 <= q < n1 ==> hypothesis_for(
                    #[trigger] hs@[q],
                    *stats,
                    size_figures@,
                    (1int, q - n0),
                ),
                forall|q: int| n1 <= q < hs@.len() ==> hypothesis_for(
                    #[trigger] hs@[q],
                    *stats,
                    size_figures@,
                    (2int, q - n1),
                ),
            decreases stats.timestamp_anomalies@.len() - k,
        {
            let t = &stats.timestamp_anomalies[k];
            let mut description = owned("Timestamp anomaly on '");
            append(&mut description, t.path.as_str());
            append(&mut description, "': ");
            append(&mut description, t.anomaly_reason.as_str());
            let mut reasoning = owned("File '");
            append(&mut reasoning, t.path.as_str());
            append(&mut reasoning, "' has modification time ");
            append(&mut reasoning, t.file_mtime.as_str());
            append(&mut reasoning, " which is anomalous: ");
            append(&mut reasoning, t.anomaly_reason.as_str());
            let h = AiHypothesis::new(
                HypothesisCategory::StatisticalAnomaly { description, anomaly_score_bp: 5000 },
                3500,
                reasoning.as_str(),
            );
            hs.push(h);
            k = k + 1;
        }
        proof {
            let srcs = hypothesis_sources(*stats);
            let sz = Seq::new(stats.size_anomalies@.len(), |i: int| (1int, i));
            let ts = Seq::new(stats.timestamp_anomalies@.len(), |i: int| (2int, i));
            assert(srcs == unknown + sz + ts);
            assert forall|q: int| 0 <= q < hs@.len() implies hypothesis_for(
                #[trigger] hs@[q],
                *stats,
                size_figures@,
                srcs[q],
            ) by {
                if q < n0 {
                    assert(srcs[q] == unknown[q]);
                } else if q < n1 {
                    assert(srcs[q] == sz[q - n0]);
                } else {
                    assert(srcs[q] == ts[q - n1]);
                }
            }
        }
        hs
    }

    /// A hypothesis about OEM variations when some discovered paths are not
    /// in the AOSP layout, naming how many and the first five; none
    /// otherwise.
    pub fn detect_oem_variations(
        manufacturer: &str,
        discovered_paths: &Vec<String>,
        aosp_expected_paths: &Vec<String>,
    ) -> (hs: Vec<AiHypothesis>)
        ensures
            unexpected_paths(discovered_paths@, aosp_expected_paths@).len() == 0 ==> hs@.len() == 0,
            unexpected_paths(discovered_paths@, aosp_expected_paths@).len() > 0 ==> hs@.len() == 1
                && oem_hypothesis(
                hs@[0],
                manufacturer@,
                unexpected_paths(discovered_paths@, aosp_expected_paths@),
            ),
    {
        let mut unexpected: Vec<String> = Vec::new();
        let mut i: usize = 0;
        while i < discovered_paths.len()
            invariant
                i <= discovered_paths@.len(),
                unexpected@.map_values(|s: String| s@) == unexpected_paths(
                    discovered_paths@.subrange(0, i as int),
                    aosp_expected_paths@,
                ),
            decreases discovered_paths@.len() - i,
        {
            let p = &discovered_paths[i];
            let ghost before = unexpected@;
            proof {
                assert(discovered_paths@.subrange(0, i as int + 1).drop_last() =~= discovered_paths@.subrange(0, i as int));
            }
            if !crate::identity::contains_text(aosp_expected_paths, p.as_str()) {
                unexpected.push(owned(p.as_str()));
                proof {
                    assert(unexpected@.map_values(|s: String| s@) =~= before.map_values(|s: String| s@).push(p@));
                }
            }
            i = i + 1;
        }
        proof {
            assert(discovered_paths@.subrange(0, discovered_paths@.len() as int) =~= discovered_paths@);
        }
        let mut hs: Vec<AiHypothesis> = Vec::new();
        let n = unexpected.len();
        if n > 0 {
            let count = decimal_string(n as u64);
            let mut variation = owned(count.as_str());
            append(&mut variation, " non-AOSP paths found: ");
            let list = join_first(&unexpected, 5);
            append(&mut variation, list.as_str());
            let mut reasoning = owned("Device from manufacturer '");
            append(&mut reasoning, manufacturer);
            append(&mut reasoning, "' contains ");
            append(&mut reasoning, count.as_str());
            append(
                &mut reasoning,
                " filesystem paths not present in the standard AOSP layout. These may be OEM-specific artifact locations that require custom parsing.",
            );
            let h = AiHypothesis::new(
                HypothesisCategory::OemVariationDetected {
                    manufacturer: owned(manufacturer),
                    variation_description: variation,
                },
                5000,
                reasoning.as_str(),
            );
            hs.push(h);
        }
        hs
    }
}

/// The paths of `discovered` that are not among `expected`, in order.
pub open spec fn unexpected_paths(discovered: Seq<String>, expected: Seq<String>) -> Seq<Seq<char>>
    decreases discovered.len(),
{
    if discovered.len() == 0 {
        Seq::empty()
    } else {
        let r = unexpected_paths(discovered.drop_last(), expected);
        if crate::identity::has_text(expected, discovered.last()@) {
            r
        } else {
            r.push(discovered.last()@)
        }
    }
}

/// `h` is the OEM-variation hypothesis for paths `unexpected` of a device
/// from `manufacturer`.
pub open spec fn oem_hypothesis(h: AiHypothesis, manufacturer: Seq<char>, unexpected: Seq<Seq<char>>) -> bool {
    &&& h.category matches HypothesisCategory::OemVariationDetected { manufacturer: m, variation_description: v }
        && m@ == manufacturer && v@ == decimal(unexpected.len()) + " non-AOSP paths found: "@
        + joined_first(unexpected, 5)
    &&& h.label@ == HYPOTHESIS_LABEL@
    &&& h.ai_confidence_bp == 5000
    &&& h.promotion == PromotionStatus::Pending
    &&& !h.modifies_evidence
    &&& h.reasoning@ == oem_reasoning(manufacturer, unexpected.len() as int)
}

/// The reasoning of an OEM-variation hypothesis.
pub open spec fn oem_reasoning(manufacturer: Seq<char>, count: int) -> Seq<char> {
    "Device from manufacturer '"@ + manufacturer + "' contains "@ + decimal(count as nat)
        + " filesystem paths not present in the standard AOSP layout. These may be OEM-specific artifact locations that require custom parsing."@
}

/// The first `n` texts of `s` joined with `", "`.
pub open spec fn joined_first(s: Seq<Seq<char>>, n: int) -> Seq<char> {
    joined(s.take(if s.len() < n { s.len() as int } else { n }))
}

/// The texts of `s` joined with `", "`.
pub open spec fn joined(s: Seq<Seq<char>>) -> Seq<char>
    decreases s.len(),
{
    if s.len() == 0 {
        Seq::empty()
    } else if s.len() == 1 {
        s[0]
    } else {
        joined(s.drop_last()) + ", "@ + s.last()
    }
}

/// The first `n` texts of `v` joined with `", "`.
pub(crate) fn join_first(v: &Vec<String>, n: usize) -> (r: String)
    ensures
        r@ == joined_first(v@.map_values(|s: String| s@), n as int),
{
    let ghost views = v@.map_values(|s: String| s@);
    let m = if v.len() < n {
        v.len()
    } else {
        n
    };
    let mut r = String::new();
    let mut i: usize = 0;
    while i < m
        invariant
            i <= m,
            m <= v@.len(),
            views == v@.map_values(|s: String| s@),
            r@ == joined(views.take(i as int)),
        decreases m - i,
    {
        let ghost before = r@;
        if i > 0 {
            append(&mut r, ", ");
        }
        append(&mut r, v[i].as_str());
        proof {
            assert(views.take(i as int + 1).drop_last() =~= views.take(i as int));
            if i == 0 {
                assert(r@ =~= views.take(1)[0]);
            }
        }
        i = i + 1;
    }
    proof {
        assert(views.take(m as int) =~= views.take(if views.len() < n { views.len() as int } else { n as int }));
    }
    r
}

} // verus!
