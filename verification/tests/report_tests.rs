use oracle::chain::ChainStatus;
use oracle::commands::{
    case_workspaces, investigation_entry_count, case_details, ingest_examiner, integrity_details, integrity_outcome, report_base_filename,
    report_export_details,
};
use oracle::config::OracleConfig;
use oracle::entry::AuditEntry;
use oracle::pipeline::ForensicPipeline;
use oracle::reporting::StoredEvidence;
use oracle::types::{
    ArtifactClass, AuditOperationType, AuditResult, DeviceIdentity, EncryptionState,
    InaccessibleArtifactClass, InvestigationId,
};

fn entry(id: Option<InvestigationId>, op: AuditOperationType, actor: &str, subject: &str) -> AuditEntry {
    AuditEntry::new(
        0,
        id,
        op,
        actor.to_string(),
        subject.to_string(),
        "{}".to_string(),
        AuditResult::Success,
        "0".repeat(64),
    )
    .unwrap()
}

#[test]
fn test_bfu_impact_description_only_for_bfu() {
    let d = ForensicPipeline::bfu_impact_description(EncryptionState::BeforeFirstUnlock).unwrap();
    assert!(d.starts_with("Device was in Before First Unlock (BFU) state during acquisition. Credential"));
    assert!(d.ends_with("Only Device Encrypted (DE) artifacts were recoverable."));
    assert!(ForensicPipeline::bfu_impact_description(EncryptionState::AfterFirstUnlock).is_none());
}

#[test]
fn test_inaccessible_class_lines() {
    let inacc = vec![
        InaccessibleArtifactClass {
            artifact_class: ArtifactClass::WifiConfigStore,
            reason: "CE storage locked".to_string(),
        },
        InaccessibleArtifactClass {
            artifact_class: ArtifactClass::DhcpLeases,
            reason: "no root".to_string(),
        },
    ];
    assert_eq!(
        ForensicPipeline::inaccessible_class_lines(&inacc),
        vec!["WifiConfigStore: CE storage locked".to_string(), "DhcpLeases: no root".to_string()]
    );
    assert!(ForensicPipeline::inaccessible_class_lines(&Vec::new()).is_empty());
}

#[test]
fn test_limitations_narrative_variants() {
    let missing = vec!["WifiConfigStore".to_string(), "DhcpLeases".to_string()];
    assert_eq!(
        ForensicPipeline::limitations_narrative(true, 3, 5, "60.0", &missing),
        "This investigation was conducted on a device in BFU state. 3 of 5 expected artifacts \
         were acquired (60.0% completeness). The following artifact classes were inaccessible: \
         WifiConfigStore, DhcpLeases. Findings are based only on available evidence and may be incomplete."
    );
    assert_eq!(
        ForensicPipeline::limitations_narrative(false, 3, 5, "60.0", &missing),
        "3 of 5 expected artifacts were acquired (60.0% completeness). The following artifact \
         classes could not be acquired: WifiConfigStore, DhcpLeases. This may limit the scope of findings."
    );
    assert_eq!(
        ForensicPipeline::limitations_narrative(false, 5, 5, "100.0", &Vec::new()),
        "All 5 expected artifacts were successfully acquired (100% completeness). \
         No significant evidence limitations were identified."
    );
}

#[test]
fn test_device_description() {
    let device = DeviceIdentity {
        serial: "R58M123".to_string(),
        manufacturer: "samsung".to_string(),
        model: "SM-G991B".to_string(),
        android_version: "13".to_string(),
        api_level: 33,
        security_patch_level: "2023-05-01".to_string(),
        build_fingerprint: String::new(),
        oem_skin: None,
        oem_skin_version: None,
    };
    assert_eq!(ForensicPipeline::device_description(&device), "samsung SM-G991B (Serial: R58M123)");
}

#[test]
fn test_investigation_window_and_instants() {
    assert_eq!(ForensicPipeline::window_text(None, Some("x".to_string())), "N/A to x");
    assert_eq!(ForensicPipeline::investigation_window(None, None), "N/A to N/A");
    assert_eq!(
        ForensicPipeline::investigation_window(Some(0), Some(1_700_000_000_500_000_000)),
        "1970-01-01 00:00:00 UTC to 2023-11-14 22:13:20 UTC"
    );
    assert_eq!(
        ForensicPipeline::investigation_window(Some(-1), None),
        "1969-12-31 23:59:59 UTC to N/A"
    );
}

#[test]
fn test_finding_description() {
    assert_eq!(
        ForensicPipeline::finding_description("HomeNet", 0, 60_000_000_000),
        "Forensic timeline analysis indicates device associated with network \"HomeNet\" \
         between 1970-01-01 00:00:00 UTC and 1970-01-01 00:01:00 UTC."
    );
}

#[test]
fn test_key_findings_take_first_three() {
    let findings: Vec<(String, String)> = (1..=4)
        .map(|i| (format!("F-00{}", i), format!("Title {}", i)))
        .collect();
    assert_eq!(
        ForensicPipeline::key_findings(&findings),
        vec!["F-001: Title 1".to_string(), "F-002: Title 2".to_string(), "F-003: Title 3".to_string()]
    );
    assert_eq!(ForensicPipeline::key_findings(&findings[..1].to_vec()), vec!["F-001: Title 1".to_string()]);
}

#[test]
fn test_artifact_state_records() {
    assert_eq!(
        ForensicPipeline::artifact_state_operation("Detected"),
        AuditOperationType::Custom("ArtifactStateTransition:Detected".to_string())
    );
    assert_eq!(
        ForensicPipeline::artifact_state_details("/data/misc/wifi/a\"b", "Queued"),
        "{\"device_path\":\"/data/misc/wifi/a\\\"b\",\"state\":\"Queued\"}"
    );
}

#[test]
fn test_timestamp_format_selection() {
    assert_eq!(ForensicPipeline::timestamp_format("2024-01-01T10:00:00Z"), "iso8601");
    assert_eq!(ForensicPipeline::timestamp_format("1700000000000"), "unix_epoch_ms");
    assert_eq!(ForensicPipeline::timestamp_format("1700000000"), "unix_epoch_s");
    assert_eq!(ForensicPipeline::timestamp_format("01-15 10:30:45.123"), "iso8601");
    assert_eq!(ForensicPipeline::timestamp_format("Jan 15 10:30:45"), "android_logcat");
    assert_eq!(ForensicPipeline::timestamp_format(""), "android_logcat");
}

#[test]
fn test_integrity_outcome_and_details() {
    assert_eq!(integrity_outcome(ChainStatus::Intact, true), AuditResult::Success);
    assert_eq!(
        integrity_outcome(ChainStatus::Broken, true),
        AuditResult::Failure("Integrity check failed: audit_chain=Broken, evidence_clean=true".to_string())
    );
    assert_eq!(
        integrity_outcome(ChainStatus::Intact, false),
        AuditResult::Failure("Integrity check failed: audit_chain=Intact, evidence_clean=false".to_string())
    );
    assert_eq!(
        integrity_details(ChainStatus::Intact, false, 3, 1),
        "{\"audit_chain_status\":\"INTACT\",\"evidence_integrity_clean\":false,\"failed_artifacts\":1,\"total_artifacts\":3}"
    );
}

#[test]
fn test_case_details_prefers_creation_entry() {
    let id = InvestigationId::new();
    let other = InvestigationId::new();
    let entries = vec![
        entry(Some(other), AuditOperationType::InvestigationCreated, "Eve", "Other case"),
        entry(Some(id), AuditOperationType::DeviceConnected, "SYSTEM", "serial-1"),
        entry(Some(id), AuditOperationType::InvestigationCreated, "Alice", "Case 42"),
    ];
    assert_eq!(case_details(&entries, id), ("Case 42".to_string(), "Alice".to_string()));
    assert_eq!(
        case_details(&entries[..2].to_vec(), id),
        ("serial-1".to_string(), "SYSTEM".to_string())
    );
    assert_eq!(
        case_details(&entries[..1].to_vec(), id),
        ("Investigation".to_string(), "UNKNOWN".to_string())
    );
}

#[test]
fn test_ingest_examiner_and_report_names() {
    let config = OracleConfig::default_config("/tmp/oracle-report-test");
    let ex = ingest_examiner("Alice".to_string(), &config);
    assert_eq!(ex.name, "Alice");
    assert_eq!(ex.badge_id, "N/A");
    assert_eq!(ex.organization, "ORACLE Forensic Lab");
    let id = InvestigationId::new();
    assert_eq!(
        report_base_filename("Case 42 B", id),
        format!("report_Case_42_B_{}", id.display_text())
    );
    assert_eq!(
        report_export_details("/r/a.json", "/r/a.pdf", "ab12"),
        "{\"integrity_seal\":\"ab12\",\"json_path\":\"/r/a.json\",\"pdf_path\":\"/r/a.pdf\"}"
    );
}

// ── acquisition decisions ───────────────────────────────────────────────────

use oracle::acquisition::{apply_path_overrides, PathEntry, PathOverride, NO_EVIDENCE_FOR_CORRELATION};
use oracle::instants::{claim_last_seen, record_instant};
use oracle::types::{AccessibleArtifactClass, AcquisitionMethod, AcquisitionState};

#[test]
fn test_path_overrides_last_one_wins() {
    let entries = vec![
        PathEntry {
            artifact_class: ArtifactClass::WifiConfigStore,
            device_paths: vec!["/a".to_string(), "/b".to_string()],
        },
        PathEntry { artifact_class: ArtifactClass::DhcpLeases, device_paths: vec!["/c".to_string()] },
    ];
    let overrides = vec![
        PathOverride { artifact_class: ArtifactClass::WifiConfigStore, override_path: "/x".to_string() },
        PathOverride { artifact_class: ArtifactClass::BuildProp, override_path: "/p".to_string() },
        PathOverride { artifact_class: ArtifactClass::WifiConfigStore, override_path: "/y".to_string() },
    ];
    let r = apply_path_overrides(&entries, &overrides);
    assert_eq!(r.len(), 2);
    assert_eq!(r[0].artifact_class, ArtifactClass::WifiConfigStore);
    assert_eq!(r[0].device_paths, vec!["/y".to_string()]);
    assert_eq!(r[1].device_paths, vec!["/c".to_string()]);
    assert_eq!(apply_path_overrides(&entries, &Vec::new())[0].device_paths.len(), 2);
}

#[test]
fn test_acquisition_state_and_failure_message() {
    assert_eq!(ForensicPipeline::acquisition_state(3, 3), AcquisitionState::Complete);
    assert_eq!(ForensicPipeline::acquisition_state(1, 3), AcquisitionState::Partial);
    assert_eq!(ForensicPipeline::acquisition_state(0, 3), AcquisitionState::Failed);
    assert_eq!(ForensicPipeline::acquisition_state(0, 0), AcquisitionState::Complete);
    let failures = vec![
        ("/a".to_string(), "NOT_FOUND".to_string()),
        ("/b".to_string(), "TIMEOUT".to_string()),
    ];
    assert_eq!(
        ForensicPipeline::acquisition_failure_message(2, &failures),
        "ACQUISITION_FAILED: 2 artifacts discovered but zero could be acquired. \
         Failure reasons: /a: NOT_FOUND; /b: TIMEOUT"
    );
    assert_eq!(
        ForensicPipeline::acquisition_failure_message(0, &Vec::new()),
        "ACQUISITION_FAILED: 0 artifacts discovered but zero could be acquired. Failure reasons: "
    );
}

#[test]
fn test_stored_method_and_correlation_input() {
    let acc = vec![
        AccessibleArtifactClass {
            artifact_class: ArtifactClass::DhcpLeases,
            acquisition_method: AcquisitionMethod::PrivilegedLogical,
            confidence_permille: 900,
        },
        AccessibleArtifactClass {
            artifact_class: ArtifactClass::DhcpLeases,
            acquisition_method: AcquisitionMethod::ContentProvider,
            confidence_permille: 500,
        },
    ];
    assert_eq!(
        ForensicPipeline::stored_method(&acc, ArtifactClass::DhcpLeases),
        AcquisitionMethod::PrivilegedLogical
    );
    assert_eq!(
        ForensicPipeline::stored_method(&acc, ArtifactClass::KernelLogs),
        AcquisitionMethod::UnprivilegedLogical
    );
    assert!(ForensicPipeline::check_correlation_input(4).is_ok());
    assert_eq!(
        ForensicPipeline::check_correlation_input(0),
        Err(NO_EVIDENCE_FOR_CORRELATION.to_string())
    );
}

#[test]
fn test_record_instants_from_rfc3339() {
    assert_eq!(claim_last_seen(Some("2024-01-15T10:30:00Z")), Some(1_705_314_600_000_000_000));
    assert_eq!(
        claim_last_seen(Some("2024-01-15T16:00:00.5+05:30")),
        Some(1_705_314_600_500_000_000)
    );
    assert_eq!(claim_last_seen(Some("1705314600")), None);
    assert_eq!(claim_last_seen(None), None);
    assert_eq!(record_instant(Some("1970-01-01T00:00:01Z")), 1_000_000_000);
    let now = record_instant(Some("not a time"));
    assert!(now > 1_600_000_000_000_000_000);
}

// ── audit records of a run ──────────────────────────────────────────────────

use oracle::run_records::{count_details, counts2_details, counts3_details};
use oracle::types::{ArtifactId, BootloaderState, ExaminerIdentity, RootMethod, SelinuxMode, CapabilityProfile};

fn run_pipeline() -> ForensicPipeline {
    ForensicPipeline::new(
        OracleConfig::default_config("/tmp/oracle-report-test"),
        InvestigationId::new(),
        "CASE-2024-001".to_string(),
        ExaminerIdentity {
            name: "Investigator Sharma".to_string(),
            badge_id: "B-7".to_string(),
            organization: "Lab".to_string(),
        },
    )
}

#[test]
fn test_run_opening_records() {
    let p = run_pipeline();
    assert_eq!(
        p.run_intent_details("R58M"),
        "{\"case_name\":\"CASE-2024-001\",\"device_serial\":\"R58M\",\"examiner\":\
         {\"badge_id\":\"B-7\",\"name\":\"Investigator Sharma\",\"organization\":\"Lab\"}}"
    );
    assert_eq!(
        ForensicPipeline::connection_check_operation(),
        AuditOperationType::Custom("ConnectionVerification".to_string())
    );
    assert_eq!(ForensicPipeline::connection_check_details("R58M"), "{\"expected_serial\":\"R58M\"}");
    assert_eq!(
        ForensicPipeline::connection_verified_details("R58M", "TP1A.220624"),
        "{\"adb_version\":\"TP1A.220624\",\"verification_checks\":[\"adb_binary_reachable\",\
         \"device_serial_match\",\"adb_authorization_granted\",\"echo_test_passed\"],\
         \"verified_serial\":\"R58M\"}"
    );
    assert_eq!(
        ForensicPipeline::connection_failed_result("no device"),
        AuditResult::Failure("CONNECTION_VERIFICATION_FAILED: no device".to_string())
    );
    assert_eq!(
        ForensicPipeline::capability_intent_details("R58M", "R58M"),
        "{\"serial\":\"R58M\",\"verified_serial\":\"R58M\"}"
    );
    assert_eq!(ForensicPipeline::acknowledgement_details(), "{\"acknowledged_by\":\"CLI_AUTO\"}");
}

#[test]
fn test_capability_result_details() {
    let profile = CapabilityProfile {
        device: DeviceIdentity {
            serial: "R58M".to_string(),
            manufacturer: "samsung".to_string(),
            model: "SM-G991B".to_string(),
            android_version: "13".to_string(),
            api_level: 33,
            security_patch_level: String::new(),
            build_fingerprint: String::new(),
            oem_skin: None,
            oem_skin_version: None,
        },
        usb_debugging_enabled: true,
        adb_authorized: true,
        root_method: RootMethod::NoRoot,
        selinux_mode: SelinuxMode::Enforcing,
        bootloader_state: BootloaderState::Locked,
        encryption_state: EncryptionState::AfterFirstUnlock,
        available_methods: Vec::new(),
        accessible_artifact_classes: Vec::new(),
        inaccessible_artifact_classes: Vec::new(),
        detected_at: 0,
        acknowledged: false,
    };
    assert_eq!(
        ForensicPipeline::capability_result_details(&profile),
        "{\"encryption_state\":\"AfterFirstUnlock\",\"root_method\":\"None\",\"selinux_mode\":\"Enforcing\"}"
    );
}

#[test]
fn test_acquisition_and_storage_records() {
    assert_eq!(
        ForensicPipeline::acquisition_complete_details(4, 0, 1024),
        "{\"failed_count\":0,\"state\":\"ACQUISITION_COMPLETE\",\"successful_count\":4,\"total_bytes\":1024}"
    );
    assert_eq!(
        ForensicPipeline::artifact_stored_operation(),
        AuditOperationType::Custom("ArtifactStored".to_string())
    );
    assert_eq!(
        ForensicPipeline::artifact_stored_details(ArtifactClass::DhcpLeases, "/data/misc/dhcp", "ab"),
        "{\"artifact_class\":\"DhcpLeases\",\"device_path\":\"/data/misc/dhcp\",\"sha256\":\"ab\"}"
    );
    let id = ArtifactId(0x0123_4567_89ab_cdef_0123_4567_89ab_cdef);
    assert_eq!(
        ForensicPipeline::artifact_id_details(id),
        "{\"artifact_id\":\"01234567-89ab-cdef-0123-456789abcdef\"}"
    );
    assert_eq!(
        ForensicPipeline::parser_intent_details(id, "dhcp_v1"),
        "{\"artifact_id\":\"01234567-89ab-cdef-0123-456789abcdef\",\"parser_id\":\"dhcp_v1\"}"
    );
    assert_eq!(ForensicPipeline::parser_panic_result(), AuditResult::Failure("Parser panic".to_string()));
}

#[test]
fn test_stage_count_records() {
    assert_eq!(count_details("records_count", 7), "{\"records_count\":7}");
    assert_eq!(
        counts2_details("conflicts_count", 1, "normalized_count", 12),
        "{\"conflicts_count\":1,\"normalized_count\":12}"
    );
    assert_eq!(
        counts3_details("anomalies_count", 2, "resolved_networks_count", 3, "timeline_sessions_count", 4),
        "{\"anomalies_count\":2,\"resolved_networks_count\":3,\"timeline_sessions_count\":4}"
    );
}

// ── command records ─────────────────────────────────────────────────────────

use oracle::adb::{AdbDevice, AdbDeviceState};
use oracle::commands::{
    connect_outcome, detection_result_details, device_not_found_message,
    missing_investigation_message, missing_workspace_message, new_investigation_details,
    new_investigation_result_details, serial_details, NO_AUDIT_DATABASE,
};

fn device(serial: &str, state: AdbDeviceState, transport: &str) -> AdbDevice {
    AdbDevice { serial: serial.to_string(), state, transport_type: transport.to_string() }
}

#[test]
fn test_connect_outcome_found_and_missing() {
    let devices = vec![
        device("emulator-5554", AdbDeviceState::Offline, "tcp"),
        device("R58M", AdbDeviceState::Unknown("recovery".to_string()), "usb"),
    ];
    let found = connect_outcome(&devices, "R58M");
    assert!(found.found);
    assert_eq!(found.result, AuditResult::Success);
    assert_eq!(
        found.details,
        "{\"serial\":\"R58M\",\"state\":\"Unknown(\\\"recovery\\\")\",\"transport\":\"usb\"}"
    );
    let offline = connect_outcome(&devices, "emulator-5554");
    assert_eq!(offline.details, "{\"serial\":\"emulator-5554\",\"state\":\"Offline\",\"transport\":\"tcp\"}");
    let missing = connect_outcome(&devices, "XYZ");
    assert!(!missing.found);
    assert_eq!(missing.result, AuditResult::Failure("Device XYZ not found".to_string()));
    assert_eq!(missing.details, "{\"available_devices\":[\"emulator-5554\",\"R58M\"]}");
    assert_eq!(
        device_not_found_message(&devices, "XYZ"),
        "Device 'XYZ' not found. Available devices: [\"emulator-5554\", \"R58M\"]"
    );
    assert_eq!(connect_outcome(&Vec::new(), "XYZ").details, "{\"available_devices\":[]}");
    assert_eq!(serial_details("R58M"), "{\"serial\":\"R58M\"}");
}

#[test]
fn test_new_investigation_records() {
    let ex = ExaminerIdentity {
        name: "Investigator Sharma".to_string(),
        badge_id: "N/A".to_string(),
        organization: "Lab".to_string(),
    };
    assert_eq!(
        new_investigation_details("CASE-1", &ex, None),
        "{\"case_name\":\"CASE-1\",\"description\":null,\"examiner\":{\"badge_id\":\"N/A\",\
         \"name\":\"Investigator Sharma\",\"organization\":\"Lab\"}}"
    );
    assert!(new_investigation_details("CASE-1", &ex, Some("phone \"A\"")).contains("\"description\":\"phone \\\"A\\\"\""));
    let id = InvestigationId(0x0123_4567_89ab_cdef_0123_4567_89ab_cdef);
    assert_eq!(
        new_investigation_result_details(id, "/inv/x"),
        "{\"investigation_id\":\"01234567-89ab-cdef-0123-456789abcdef\",\"store_dir\":\"/inv/x\"}"
    );
    assert_eq!(
        missing_workspace_message("/inv/x"),
        "Investigation workspace does not exist: /inv/x. Run new-investigation first."
    );
    assert_eq!(
        missing_investigation_message("/inv/x"),
        "Investigation workspace directory does not exist: /inv/x. Has this investigation been created?"
    );
    assert_eq!(NO_AUDIT_DATABASE, "Audit database does not exist. Create an investigation first.");
}

#[test]
fn test_detection_result_details() {
    let profile = CapabilityProfile {
        device: DeviceIdentity {
            serial: "R58M".to_string(),
            manufacturer: String::new(),
            model: String::new(),
            android_version: String::new(),
            api_level: 30,
            security_patch_level: String::new(),
            build_fingerprint: String::new(),
            oem_skin: None,
            oem_skin_version: None,
        },
        usb_debugging_enabled: true,
        adb_authorized: true,
        root_method: RootMethod::Magisk,
        selinux_mode: SelinuxMode::Permissive,
        bootloader_state: BootloaderState::Unlocked,
        encryption_state: EncryptionState::BeforeFirstUnlock,
        available_methods: vec![AcquisitionMethod::PrivilegedLogical, AcquisitionMethod::UnprivilegedLogical],
        accessible_artifact_classes: Vec::new(),
        inaccessible_artifact_classes: Vec::new(),
        detected_at: 0,
        acknowledged: false,
    };
    assert_eq!(
        detection_result_details(&profile),
        "{\"accessible_classes\":0,\"available_methods\":2,\"encryption_state\":\"BeforeFirstUnlock\",\
         \"root_method\":\"Magisk\",\"selinux_mode\":\"Permissive\"}"
    );
}

#[test]
fn test_case_workspaces_and_entry_counts() {
    let id = InvestigationId::new();
    let names = vec![
        id.display_text(),
        "audit.db".to_string(),
        "notes".to_string(),
        "0123456789abcdef0123456789abcdef".to_string(),
    ];
    assert_eq!(
        case_workspaces(&names),
        vec![id.display_text(), "0123456789abcdef0123456789abcdef".to_string()]
    );
    let other = InvestigationId::new();
    let entries = vec![
        entry(Some(id), AuditOperationType::InvestigationCreated, "A", "c"),
        entry(None, AuditOperationType::SystemStartup, "SYSTEM", "Platform"),
        entry(Some(other), AuditOperationType::InvestigationCreated, "B", "d"),
        entry(Some(id), AuditOperationType::DeviceConnected, "A", "s"),
    ];
    assert_eq!(investigation_entry_count(&entries, id), 2);
    assert_eq!(investigation_entry_count(&entries, other), 1);
    assert_eq!(investigation_entry_count(&Vec::new(), id), 0);
}

#[test]
fn test_defaults_match_new() {
    use_defaults();
}

fn use_defaults() {
    let r = oracle::identity::NetworkIdentityResolver::default();
    assert_eq!(r.resolve().len(), 0);
    let e = oracle::events::EventReconstructor::default();
    assert_eq!(e.event_count(), 0);
    let b = oracle::timeline::TimelineBuilder::default();
    assert_eq!(b.session_timeout_ns, oracle::timeline::TimelineBuilder::new().session_timeout_ns);
    let a = oracle::adb::LiveAdbInterface::default();
    assert_eq!(a.adb_path(), "adb");
    let _d = oracle::detector::CapabilityDetector::default();
    let s = oracle::profiles::CapabilityProfileStore::default();
    assert!(s.get_profile(&InvestigationId::new()).is_err());
}

// ── run control ─────────────────────────────────────────────────────────────

use oracle::error::OracleError;
use oracle::run_control::{next_run_action, RunAction, RunStep, StepOutcome};

fn halt_of(a: RunAction) -> (Option<String>, OracleError) {
    match a {
        RunAction::Halt { run_failure, error } => (run_failure, error),
        other => panic!("expected a halt, got {:?}", other),
    }
}

#[test]
fn test_run_takes_steps_in_order() {
    let order = [
        RunStep::OpenStores,
        RunStep::VerifyConnection,
        RunStep::DetectCapabilities,
        RunStep::DiscoverArtifacts,
        RunStep::AcquireArtifacts,
        RunStep::StoreArtifacts,
        RunStep::ParseArtifacts,
        RunStep::NormalizeRecords,
        RunStep::CorrelateRecords,
        RunStep::ScoreFindings,
        RunStep::GenerateReport,
        RunStep::VerifyAuditChain,
    ];
    for w in order.windows(2) {
        match next_run_action(w[0], StepOutcome::Completed) {
            RunAction::Take(n) => assert_eq!(n, w[1]),
            other => panic!("unexpected {:?}", other),
        }
    }
    assert!(matches!(next_run_action(RunStep::VerifyAuditChain, StepOutcome::Completed), RunAction::Finish));
    assert!(matches!(
        next_run_action(RunStep::DetectCapabilities, StepOutcome::DeviceLocked),
        RunAction::Take(RunStep::ResolveLockedDevice)
    ));
    assert!(matches!(
        next_run_action(RunStep::ResolveLockedDevice, StepOutcome::Completed),
        RunAction::Take(RunStep::DiscoverArtifacts)
    ));
}

#[test]
fn test_run_halts_and_closes_its_intent() {
    let (f, e) = halt_of(next_run_action(
        RunStep::VerifyConnection,
        StepOutcome::Failed(OracleError::NoDeviceDetected),
    ));
    assert_eq!(f.unwrap(), "CONNECTION_VERIFICATION_FAILED: No Android device detected on any transport");
    assert_eq!(
        e,
        OracleError::PipelineHalted {
            state: "CONNECTION_VERIFICATION_FAILED".to_string(),
            detail: "No Android device detected on any transport".to_string(),
        }
    );
    let (f, e) = halt_of(next_run_action(RunStep::ResolveLockedDevice, StepOutcome::ExaminerAborted));
    assert_eq!(f.unwrap(), "INVESTIGATION_ABORTED_BFU");
    assert_eq!(e, OracleError::ExaminerAborted);
    let (f, e) = halt_of(next_run_action(
        RunStep::AcquireArtifacts,
        StepOutcome::NothingAcquired("ACQUISITION_FAILED: 2 artifacts".to_string()),
    ));
    assert_eq!(f.unwrap(), "ACQUISITION_FAILED: 2 artifacts");
    assert_eq!(e.display_text(), "Pipeline halted: ACQUISITION_FAILED. ACQUISITION_FAILED: 2 artifacts");
    let (f, e) = halt_of(next_run_action(RunStep::CorrelateRecords, StepOutcome::NoRecords));
    assert_eq!(f.unwrap(), NO_EVIDENCE_FOR_CORRELATION);
    assert!(matches!(e, OracleError::CorrelationFailed { .. }));
    let (f, _) = halt_of(next_run_action(
        RunStep::DiscoverArtifacts,
        StepOutcome::Failed(OracleError::NoDeviceDetected),
    ));
    assert_eq!(f.unwrap(), "No Android device detected on any transport");
}

#[test]
fn test_run_failures_that_leave_the_intent_open() {
    let (f, e) = halt_of(next_run_action(RunStep::OpenStores, StepOutcome::Failed(OracleError::ExaminerAborted)));
    assert!(f.is_none());
    assert_eq!(e, OracleError::ExaminerAborted);
    let (f, _) = halt_of(next_run_action(RunStep::GenerateReport, StepOutcome::Failed(OracleError::NoDeviceDetected)));
    assert!(f.is_none());
    let (f, _) = halt_of(next_run_action(RunStep::ResolveLockedDevice, StepOutcome::Failed(OracleError::NoDeviceDetected)));
    assert!(f.is_none());
    assert!(matches!(
        next_run_action(RunStep::VerifyAuditChain, StepOutcome::Failed(OracleError::NoDeviceDetected)),
        RunAction::Finish
    ));
}

#[test]
fn test_identifiers_are_version_4_uuids() {
    for v in [
        InvestigationId::new().0,
        ArtifactId::new().0,
        oracle::types::RecordId::new().0,
        oracle::timeline::SessionId::new().0,
        oracle::identity::NetworkIdentityId::new().0,
    ] {
        assert_eq!((v >> 76) & 0xf, 4);
        assert_eq!((v >> 62) & 0x3, 2);
    }
}

#[test]
fn test_oem_skin_without_probe_for_other_makers() {
    let adb = oracle::adb::MockAdbInterface::new();
    let d = oracle::detector::CapabilityDetector::new();
    assert_eq!(d.detect_oem_skin(&adb, "SER", "Google"), Ok((None, None)));
    let samsung = oracle::adb::MockAdbInterface::new().with_prop("SER", "ro.build.PDA", "G991BXXU");
    assert_eq!(
        d.detect_oem_skin(&samsung, "SER", "samsung"),
        Ok((Some("One UI".to_string()), Some("G991BXXU".to_string())))
    );
}

#[test]
fn test_evidence_entries_follow_stored_order() {
    let a = |p: &str, c: ArtifactClass| StoredEvidence {
        device_path: p.to_string(),
        sha256_hash: "ab".repeat(32),
        size_bytes: 10,
        acquired_at_ms: 5,
        artifact_class: c,
    };
    let stored = vec![a("/data/misc/dhcp/", ArtifactClass::DhcpLeases), a("/proc/kmsg", ArtifactClass::KernelLogs)];
    let r = ForensicPipeline::evidence_entries(&stored);
    assert_eq!(r.len(), 2);
    assert_eq!(r[0].evidence_number, "E-001");
    assert_eq!(r[0].original_path, "/data/misc/dhcp/");
    assert_eq!(r[0].artifact_class, "DhcpLeases");
    assert_eq!(r[1].evidence_number, "E-002");
    assert_eq!(r[1].artifact_class, "KernelLogs");
    assert_eq!(r[1].size_bytes, 10);
    assert!(r[1].referenced_by_findings.is_empty());
}

#[test]
fn test_evidence_limitations_flags_bfu_exactly() {
    let inacc = vec![InaccessibleArtifactClass { artifact_class: ArtifactClass::BatteryStats, reason: "locked".to_string() }];
    let missing = vec!["WifiConfigStore".to_string()];
    let l = ForensicPipeline::evidence_limitations(EncryptionState::BeforeFirstUnlock, &inacc, 1, 2, "50.0", &missing);
    assert!(l.bfu_state_impact);
    assert!(l.bfu_impact_description.is_some());
    assert_eq!(l.inaccessible_artifact_classes, vec!["BatteryStats: locked".to_string()]);
    assert_eq!(l.unanswerable_questions, vec!["Cannot determine complete list of saved Wi-Fi networks".to_string()]);
    assert!(l.limitations_narrative.starts_with("This investigation was conducted on a device in BFU state. 1 of 2"));
    let l2 = ForensicPipeline::evidence_limitations(EncryptionState::AfterFirstUnlock, &vec![], 2, 2, "100.0", &vec![]);
    assert!(!l2.bfu_state_impact);
    assert!(l2.bfu_impact_description.is_none());
    assert_eq!(l2.unanswerable_questions.len(), 1);
}
