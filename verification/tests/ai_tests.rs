use oracle::ai::{
    validate_constraints, AiGenerated, AiHypothesis, AnomalyDetector, FilesystemStats,
    HypothesisCategory, PromotionStatus, SizeAnomaly, SizeFigures, TimestampAnomalyRecord,
    UnknownPath,
};
use oracle::types::ArtifactClass;

fn empty_stats() -> FilesystemStats {
    FilesystemStats { unknown_paths: Vec::new(), size_anomalies: Vec::new(), timestamp_anomalies: Vec::new() }
}

#[test]
fn test_hypothesis_label_invariant() {
    let h = AiHypothesis::new(
        HypothesisCategory::StatisticalAnomaly {
            description: "Unusual pattern".to_string(),
            anomaly_score_bp: 8000,
        },
        7000,
        "Pattern detected in battery stats",
    );
    assert_eq!(h.label, "AI-ASSISTED HYPOTHESIS");
    assert!(!h.modifies_evidence);
    assert!(matches!(h.promotion, PromotionStatus::Pending));
}

#[test]
fn test_hypothesis_promotion_flow() {
    let mut h = AiHypothesis::new(
        HypothesisCategory::SuggestedCorrelation {
            item_a_description: "WiFi log entry".to_string(),
            item_b_description: "Battery drain spike".to_string(),
            correlation_basis: "Temporal proximity".to_string(),
        },
        6000,
        "Battery drain coincides with WiFi radio activation",
    );
    assert!(!h.is_reviewed());
    assert!(!h.is_confirmed());
    h.promote_to_probabilistic("Dr. Smith", "Temporal correlation is plausible");
    assert!(h.is_reviewed());
    assert!(!h.is_confirmed());
    h.confirm_with_evidence("Dr. Smith", "DHCP lease record confirms WiFi connection at same timestamp");
    assert!(h.is_confirmed());
    assert!(!h.modifies_evidence);
}

#[test]
fn test_hypothesis_rejection() {
    let mut h = AiHypothesis::new(
        HypothesisCategory::UnknownArtifactPattern {
            detected_path: "/data/misc/wifi/unknown.db".to_string(),
            suspected_class: None,
        },
        3000,
        "Unrecognized database file in WiFi directory",
    );
    h.reject("Dr. Jones", "File is a standard Android system cache, not forensically relevant");
    assert!(h.is_reviewed());
    assert!(!h.is_confirmed());
}

#[test]
fn test_display_format() {
    let h = AiHypothesis::new(
        HypothesisCategory::InvestigatorSummary {
            summary_text: "Device connected to 5 networks".to_string(),
        },
        9000,
        "Summarized from 12 artifact records",
    );
    let display = h.display_text();
    assert!(display.starts_with("[AI-ASSISTED HYPOTHESIS]"));
    assert_eq!(display, "[AI-ASSISTED HYPOTHESIS] (confidence: 90%) Summarized from 12 artifact records");
}

#[test]
fn test_confidence_clamped() {
    let h = AiHypothesis::new(
        HypothesisCategory::StatisticalAnomaly { description: "test".to_string(), anomaly_score_bp: 15000 },
        15000,
        "test",
    );
    assert_eq!(h.ai_confidence_bp, 10000);
    let low = AiHypothesis::new(HypothesisCategory::InvestigatorSummary { summary_text: String::new() }, -5, "x");
    assert_eq!(low.ai_confidence_bp, 0);
}

#[test]
fn test_percentage_rounds_half_to_even() {
    let mk = |bp: i64| {
        AiHypothesis::new(HypothesisCategory::InvestigatorSummary { summary_text: String::new() }, bp, "r")
            .display_text()
    };
    assert_eq!(mk(7550), "[AI-ASSISTED HYPOTHESIS] (confidence: 76%) r");
    assert_eq!(mk(7450), "[AI-ASSISTED HYPOTHESIS] (confidence: 74%) r");
    assert_eq!(mk(7451), "[AI-ASSISTED HYPOTHESIS] (confidence: 75%) r");
    assert_eq!(mk(10000), "[AI-ASSISTED HYPOTHESIS] (confidence: 100%) r");
}

#[test]
fn test_ai_generated_trait() {
    let h = AiHypothesis::new(
        HypothesisCategory::InvestigatorSummary { summary_text: "Test".to_string() },
        5000,
        "Test reasoning",
    );
    let ai: &dyn AiGenerated = &h;
    assert_eq!(ai.label(), "AI-ASSISTED HYPOTHESIS");
    assert!(!ai.modifies_evidence());
}

#[test]
fn test_constraint_validation_passes() {
    let hypotheses = vec![
        AiHypothesis::new(HypothesisCategory::InvestigatorSummary { summary_text: "Summary".to_string() }, 5000, "test"),
        AiHypothesis::new(
            HypothesisCategory::StatisticalAnomaly { description: "anomaly".to_string(), anomaly_score_bp: 3000 },
            4000,
            "test",
        ),
    ];
    let result = validate_constraints(&hypotheses);
    assert!(result.valid);
    assert!(result.violations.is_empty());
    assert_eq!(result.hypotheses_checked, 2);
}

#[test]
fn test_constraint_violations_reported() {
    let mut h = AiHypothesis::new(HypothesisCategory::InvestigatorSummary { summary_text: String::new() }, 5000, "t");
    h.label = "FINDING".to_string();
    h.modifies_evidence = true;
    let id = uuid_text(h.id.0);
    let result = validate_constraints(&vec![h]);
    assert!(!result.valid);
    assert_eq!(
        result.violations,
        vec![
            format!("Hypothesis {} has incorrect label: 'FINDING'", id),
            format!("Hypothesis {} has modifies_evidence=true \u{2014} CRITICAL VIOLATION", id),
        ]
    );
}

fn uuid_text(v: u128) -> String {
    uuid::Uuid::from_u128(v).hyphenated().to_string()
}

#[test]
fn test_unknown_path_hypothesis() {
    let mut stats = empty_stats();
    stats.unknown_paths.push(UnknownPath {
        path: "/data/misc/wifi/oem_config.db".to_string(),
        size_bytes: 8192,
        looks_like_database: true,
        looks_like_config: false,
        looks_like_log: false,
    });
    let hypotheses = AnomalyDetector::analyze(&stats, &Vec::new());
    assert_eq!(hypotheses.len(), 1);
    assert_eq!(hypotheses[0].label, "AI-ASSISTED HYPOTHESIS");
    assert!(!hypotheses[0].modifies_evidence);
    assert_eq!(
        hypotheses[0].reasoning,
        "Unknown database file detected at '/data/misc/wifi/oem_config.db' (8192 bytes). \
         This may be an OEM-specific artifact not in the known path registry."
    );
}

#[test]
fn test_oem_variation_detection() {
    let discovered = vec![
        "/data/misc/wifi/WifiConfigStore.xml".to_string(),
        "/data/misc/wifi/softap_config.xml".to_string(),
        "/data/misc/wifi/samsung_wifi_debug.log".to_string(),
    ];
    let aosp = vec![
        "/data/misc/wifi/WifiConfigStore.xml".to_string(),
        "/data/misc/wifi/softap_config.xml".to_string(),
    ];
    let hypotheses = AnomalyDetector::detect_oem_variations("samsung", &discovered, &aosp);
    assert_eq!(hypotheses.len(), 1);
    assert!(matches!(hypotheses[0].category, HypothesisCategory::OemVariationDetected { .. }));
    if let HypothesisCategory::OemVariationDetected { variation_description, .. } = &hypotheses[0].category {
        assert_eq!(variation_description, "1 non-AOSP paths found: /data/misc/wifi/samsung_wifi_debug.log");
    }
}

#[test]
fn test_empty_stats_no_hypotheses() {
    let hypotheses = AnomalyDetector::analyze(&empty_stats(), &Vec::new());
    assert!(hypotheses.is_empty());
}

#[test]
fn test_analysis_order_and_texts() {
    let stats = FilesystemStats {
        unknown_paths: vec![
            UnknownPath { path: "/a".to_string(), size_bytes: 1, looks_like_database: false, looks_like_config: false, looks_like_log: false },
            UnknownPath { path: "/b.log".to_string(), size_bytes: 20, looks_like_database: false, looks_like_config: false, looks_like_log: true },
        ],
        size_anomalies: vec![SizeAnomaly {
            path: "/c".to_string(),
            artifact_class: ArtifactClass::DhcpLeases,
            actual_size: 5000,
            expected_range: (10, 2000),
        }],
        timestamp_anomalies: vec![TimestampAnomalyRecord {
            path: "/d".to_string(),
            file_mtime: "1970-01-01".to_string(),
            anomaly_reason: "epoch default".to_string(),
        }],
    };
    let figures = vec![SizeFigures { ratio_text: "2.5".to_string(), anomaly_score_bp: 10000 }];
    let hs = AnomalyDetector::analyze(&stats, &figures);
    assert_eq!(hs.len(), 3);
    assert!(hs[0].reasoning.starts_with("Unknown log file detected at '/b.log' (20 bytes)."));
    assert_eq!(hs[0].ai_confidence_bp, 4000);
    assert_eq!(
        hs[1].category,
        HypothesisCategory::StatisticalAnomaly {
            description: "Artifact at '/c' is 2.5x the expected maximum size".to_string(),
            anomaly_score_bp: 10000,
        }
    );
    assert_eq!(
        hs[1].reasoning,
        "File '/c' (DhcpLeases) is 5000 bytes, but expected range is 10-2000 bytes. \
         This may indicate data accumulation, corruption, or tampering."
    );
    assert_eq!(hs[2].ai_confidence_bp, 3500);
    assert_eq!(hs[2].reasoning, "File '/d' has modification time 1970-01-01 which is anomalous: epoch default");
}
