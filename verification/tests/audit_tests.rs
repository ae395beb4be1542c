use oracle::chain::{AuditLogVerifier, ChainStatus};
use oracle::custody::{classify_operation, ChainOfCustodyBuilder, CustodyEventCategory};
use oracle::entry::AuditEntry;
use oracle::error::OracleError;
use oracle::export::{verify_export_hash, AuditLogExport};
use oracle::hash::ForensicHash;
use oracle::types::{AuditOperationType, AuditResult, InvestigationId};
use oracle::writer::{find_incomplete_entries, like_contains_text, AuditLogWriter};
use sha2::Digest;

const GENESIS_HEX: &str = "0000000000000000000000000000000000000000000000000000000000000000";

fn make_genesis() -> AuditEntry {
    AuditEntry::new(
        0,
        None,
        AuditOperationType::SystemStartup,
        "SYSTEM".to_string(),
        "ORACLE platform".to_string(),
        "{\"version\":\"1.0.0\"}".to_string(),
        AuditResult::Success,
        ForensicHash::genesis().to_hex(),
    )
    .unwrap()
}

fn fixed_entry() -> AuditEntry {
    AuditEntry::from_parts(
        0x67e5504410b1426f9247bb680e5fe0c8,
        "2024-01-01T00:00:00Z".to_string(),
        0,
        None,
        AuditOperationType::SystemStartup,
        "SYSTEM".to_string(),
        "ORACLE \"platform\"".to_string(),
        "{\"version\":\"1.0.0\"}".to_string(),
        AuditResult::Success,
        GENESIS_HEX.to_string(),
    )
    .unwrap()
}

/// Appends an intent entry and its result through the writer.
fn log_pair(w: &mut AuditLogWriter, log: &mut Vec<AuditEntry>, subject: &str) {
    let intent = w
        .intent_entry(
            None,
            AuditOperationType::ParserExecutionStarted,
            "Examiner",
            subject,
            "{}".to_string(),
        )
        .unwrap();
    w.record_appended(&intent);
    log.push(intent.clone());
    let result = w.result_entry(&intent, AuditResult::Success, "{\"ok\":true}").unwrap();
    w.record_appended(&result);
    log.push(result);
}

#[test]
fn test_genesis_previous_hash_is_all_zeros() {
    let entry = make_genesis();
    assert_eq!(entry.previous_hash, ForensicHash::genesis().to_hex());
    assert_eq!(entry.previous_hash, GENESIS_HEX);
}

#[test]
fn test_entry_hash_is_deterministic() {
    let e1 = make_genesis();
    let e2 = make_genesis();
    assert_ne!(e1.entry_hash, e2.entry_hash);
    assert_eq!(fixed_entry().entry_hash, fixed_entry().entry_hash);
}

#[test]
fn test_verify_hash_succeeds_for_valid_entry() {
    assert!(make_genesis().verify_hash().unwrap());
}

#[test]
fn test_verify_hash_fails_after_tampering() {
    let mut entry = make_genesis();
    entry.actor = "TAMPERED_ACTOR".to_string();
    assert!(!entry.verify_hash().unwrap());
}

#[test]
fn test_compute_hash_matches_stored_hash() {
    let entry = make_genesis();
    assert_eq!(entry.compute_hash().unwrap(), entry.entry_hash);
}

#[test]
fn test_compute_hash_rejects_bad_previous_hash() {
    let mut entry = make_genesis();
    entry.previous_hash = "xyz".to_string();
    assert!(matches!(entry.compute_hash(), Err(OracleError::SerializationError { .. })));
    assert!(matches!(entry.verify_hash(), Err(OracleError::SerializationError { .. })));
    entry.previous_hash = "00".to_string();
    match entry.compute_hash() {
        Err(OracleError::SerializationError { reason }) => {
            assert_eq!(reason, "Hash must be 32 bytes, got 1")
        }
        other => panic!("unexpected {:?}", other),
    }
}

#[test]
fn test_content_text_is_canonical_json() {
    let e = fixed_entry();
    assert_eq!(
        e.content_text(),
        "{\"entry_id\":\"67e55044-10b1-426f-9247-bb680e5fe0c8\",\"entry_index\":0,\"timestamp\":\"2024-01-01T00:00:00Z\",\"investigation_id\":null,\"operation\":\"SystemStartup\",\"actor\":\"SYSTEM\",\"subject\":\"ORACLE \\\"platform\\\"\",\"details\":{\"version\":\"1.0.0\"},\"result\":\"Success\",\"previous_hash\":\"0000000000000000000000000000000000000000000000000000000000000000\"}"
    );
}

#[test]
fn test_entry_hash_is_sha256_of_previous_bytes_and_content() {
    let e = fixed_entry();
    let mut data = vec![0u8; 32];
    data.extend_from_slice(e.content_text().as_bytes());
    let expected = hex::encode(sha2::Sha256::digest(&data));
    assert_eq!(e.entry_hash, expected);
}

#[test]
fn test_operation_and_result_json() {
    assert_eq!(AuditOperationType::Custom("x\ny".to_string()).json_text(), "{\"Custom\":\"x\\ny\"}");
    assert_eq!(AuditResult::Failure("bad".to_string()).json_text(), "{\"Failure\":\"bad\"}");
    assert_eq!(AuditResult::Pending.json_text(), "\"Pending\"");
}

#[test]
fn test_entry_chain_of_two() {
    let first = make_genesis();
    let second = AuditEntry::new(
        1,
        None,
        AuditOperationType::InvestigationCreated,
        "Examiner A".to_string(),
        "Case #42".to_string(),
        "{\"case_number\":42}".to_string(),
        AuditResult::Success,
        first.entry_hash.clone(),
    )
    .unwrap();
    assert_eq!(second.previous_hash, first.entry_hash);
    assert!(second.verify_hash().unwrap());
    let log = vec![first, second];
    assert!(AuditLogVerifier::new(&log).verify_chain().is_ok());
}

#[test]
fn test_new_writer_starts_at_index_zero() {
    let w = AuditLogWriter::resume(None);
    assert_eq!(w.next_index(), 0);
    assert_eq!(w.last_hash(), GENESIS_HEX);
    let w2 = AuditLogWriter::resume(Some(("ab".repeat(32), 41)));
    assert_eq!(w2.next_index(), 42);
    assert_eq!(w2.last_hash(), "ab".repeat(32));
}

#[test]
fn test_log_intent_and_result() {
    let mut w = AuditLogWriter::resume(None);
    let intent = w
        .intent_entry(
            Some(InvestigationId(7)),
            AuditOperationType::DeviceConnected,
            "Examiner",
            "Pixel",
            "{}".to_string(),
        )
        .unwrap();
    assert_eq!(intent.entry_index, 0);
    assert_eq!(intent.result, AuditResult::Pending);
    w.record_appended(&intent);
    assert_eq!(w.next_index(), 1);
    assert_eq!(w.last_hash(), intent.entry_hash);
    let result = w.result_entry(&intent, AuditResult::Success, "{\"n\":1}").unwrap();
    assert_eq!(result.entry_index, 1);
    assert_eq!(result.previous_hash, intent.entry_hash);
    assert_eq!(result.operation, AuditOperationType::DeviceConnected);
    assert_eq!(result.investigation_id, Some(InvestigationId(7)));
    assert_eq!(result.subject, "Pixel");
    let expected_details = format!(
        "{{\"intent_entry_id\":\"{}\",\"intent_entry_index\":0,\"result_details\":{{\"n\":1}}}}",
        uuid::Uuid::from_u128(intent.entry_id).hyphenated()
    );
    assert_eq!(result.details, expected_details);
}

#[test]
fn test_hash_chain_valid_after_100_entries() {
    let mut w = AuditLogWriter::resume(None);
    let mut log = Vec::new();
    for i in 0..50 {
        log_pair(&mut w, &mut log, &format!("artifact {}", i));
    }
    assert_eq!(log.len(), 100);
    let v = AuditLogVerifier::new(&log);
    assert!(v.verify_chain().is_ok());
    let report = v.verify_full().unwrap();
    assert_eq!(report.total_entries, 100);
    assert_eq!(report.verified_entries, 100);
    assert_eq!(report.overall_status, ChainStatus::Intact);
    assert!(report.first_broken_entry.is_none());
    assert!(report.failure_description.is_none());
}

#[test]
fn test_verify_chain_on_empty_log() {
    let log: Vec<AuditEntry> = Vec::new();
    assert!(AuditLogVerifier::new(&log).verify_chain().is_ok());
    let report = AuditLogVerifier::new(&log).verify_full().unwrap();
    assert_eq!(report.total_entries, 0);
    assert_eq!(report.overall_status, ChainStatus::Intact);
}

#[test]
fn test_verify_detects_tampered_field() {
    let mut w = AuditLogWriter::resume(None);
    let mut log = Vec::new();
    for i in 0..3 {
        log_pair(&mut w, &mut log, &format!("s{}", i));
    }
    log[3].subject = "TAMPERED".to_string();
    let v = AuditLogVerifier::new(&log);
    match v.verify_chain() {
        Err(OracleError::AuditChainBroken { entry_index, found, .. }) => {
            assert_eq!(entry_index, 3);
            assert_eq!(found, log[3].entry_hash);
        }
        other => panic!("unexpected {:?}", other),
    }
    let report = v.verify_full().unwrap();
    assert_eq!(report.overall_status, ChainStatus::Broken);
    assert_eq!(report.first_broken_entry, Some(3));
    assert_eq!(report.verified_entries, 3);
    assert!(report
        .failure_description
        .unwrap()
        .starts_with("Entry 3 hash mismatch: recomputed "));
}

#[test]
fn test_verify_detects_deleted_entry() {
    let mut w = AuditLogWriter::resume(None);
    let mut log = Vec::new();
    for i in 0..3 {
        log_pair(&mut w, &mut log, &format!("s{}", i));
    }
    let removed = log.remove(2);
    let v = AuditLogVerifier::new(&log);
    match v.verify_chain() {
        Err(OracleError::AuditChainBroken { entry_index, expected, found }) => {
            assert_eq!(entry_index, 3);
            assert_eq!(expected, log[1].entry_hash);
            assert_eq!(found, removed.entry_hash);
        }
        other => panic!("unexpected {:?}", other),
    }
    let report = v.verify_full().unwrap();
    assert_eq!(report.first_broken_entry, Some(3));
    assert_eq!(
        report.failure_description.unwrap(),
        format!(
            "Entry 3 previous_hash mismatch: expected {}, found {}",
            log[1].entry_hash, removed.entry_hash
        )
    );
    assert_eq!(ChainStatus::Broken.display_text(), "BROKEN");
    assert_eq!(ChainStatus::Intact.display_text(), "INTACT");
}

#[test]
fn test_crash_recovery_detects_incomplete_entries() {
    let mut w = AuditLogWriter::resume(None);
    let mut log = Vec::new();
    log_pair(&mut w, &mut log, "answered");
    let orphan = w
        .intent_entry(None, AuditOperationType::ArtifactAcquisitionStarted, "E", "orphan", "{}".to_string())
        .unwrap();
    w.record_appended(&orphan);
    log.push(orphan.clone());
    assert_eq!(find_incomplete_entries(&log), vec![2]);
    w.recover_incomplete(&mut log).unwrap();
    assert_eq!(log.len(), 4);
    let rec = &log[3];
    assert_eq!(rec.operation, AuditOperationType::SystemCrashRecovery);
    assert_eq!(rec.actor, "SYSTEM");
    assert_eq!(rec.subject, "Crash recovery for intent entry 2");
    assert_eq!(rec.result, AuditResult::Success);
    assert!(rec.details.contains("\"recovered_intent_index\":2"));
    assert!(rec.details.contains("\"recovered_operation\":\"\\\"ArtifactAcquisitionStarted\\\"\""));
    assert!(find_incomplete_entries(&log).is_empty());
    assert!(AuditLogVerifier::new(&log).verify_chain().is_ok());
    assert_eq!(w.next_index(), 4);
    let before = log.len();
    w.recover_incomplete(&mut log).unwrap();
    assert_eq!(log.len(), before);
}

#[test]
fn test_like_matching_follows_sql_like() {
    assert!(like_contains_text("{\"intent_entry_index\":12}", "\"intent_entry_index\":1"));
    assert!(like_contains_text("\"INTENT_ENTRY_INDEX\":3", "\"intent_entry_index\":3"));
    assert!(like_contains_text("\"intentXentryXindex\":3", "\"intent_entry_index\":3"));
    assert!(!like_contains_text("\"intent_entry_index\":4", "\"intent_entry_index\":3"));
}

#[test]
fn test_recovery_needs_valid_head() {
    let mut w = AuditLogWriter::resume(Some(("not-a-hash".to_string(), 0)));
    let orphan = AuditEntry::new(
        0,
        None,
        AuditOperationType::VfsMounted,
        "E".to_string(),
        "x".to_string(),
        "{}".to_string(),
        AuditResult::Pending,
        GENESIS_HEX.to_string(),
    )
    .unwrap();
    let mut log = vec![orphan];
    assert!(matches!(w.recover_incomplete(&mut log), Err(OracleError::SerializationError { .. })));
    assert_eq!(log.len(), 1);
    assert_eq!(w.next_index(), 1);
}

#[test]
fn test_classify_operation() {
    assert_eq!(classify_operation(&AuditOperationType::DeviceConnected), CustodyEventCategory::DeviceInteraction);
    assert_eq!(classify_operation(&AuditOperationType::ReportExported), CustodyEventCategory::ExaminerAction);
    assert_eq!(classify_operation(&AuditOperationType::VfsFileRead), CustodyEventCategory::EvidenceProcessing);
    assert_eq!(classify_operation(&AuditOperationType::SystemCrashRecovery), CustodyEventCategory::SystemEvent);
    assert_eq!(
        classify_operation(&AuditOperationType::Custom("x".to_string())),
        CustodyEventCategory::ExaminerAction
    );
}

#[test]
fn test_custody_record_filters_by_investigation() {
    let inv_a = InvestigationId(1);
    let inv_b = InvestigationId(2);
    let mut w = AuditLogWriter::resume(None);
    let mut log = Vec::new();
    for (inv, op) in [
        (None, AuditOperationType::SystemStartup),
        (Some(inv_a), AuditOperationType::InvestigationCreated),
        (Some(inv_a), AuditOperationType::DeviceConnected),
        (Some(inv_b), AuditOperationType::ParserExecutionStarted),
    ] {
        let e = w.intent_entry(inv, op, "Ann", "subj", "{}".to_string()).unwrap();
        w.record_appended(&e);
        log.push(e);
    }
    let builder = ChainOfCustodyBuilder::new(&log);
    let rec = builder.build_from_audit_log(Some(inv_a)).unwrap();
    assert_eq!(rec.total_events, 3);
    assert_eq!(rec.timeline.len(), 3);
    assert_eq!(rec.system_events.len(), 1);
    assert_eq!(rec.examiner_actions.len(), 1);
    assert_eq!(rec.device_interactions.len(), 1);
    assert_eq!(rec.evidence_processing.len(), 0);
    assert_eq!(rec.timeline[1].description, "Ann: subj (result: Pending)");
    assert_eq!(rec.timeline[1].source_entry_index, 1);
    let all = builder.build_from_audit_log(None).unwrap();
    assert_eq!(all.total_events, 4);
    assert_eq!(all.evidence_processing.len(), 1);
}

#[test]
fn test_custody_description_debug_quotes() {
    let e = AuditEntry::new(
        0,
        None,
        AuditOperationType::ReportExported,
        "A".to_string(),
        "S".to_string(),
        "{}".to_string(),
        AuditResult::Failure("disk \"full\"".to_string()),
        GENESIS_HEX.to_string(),
    )
    .unwrap();
    let ev = oracle::custody::entry_to_custody_event(&e);
    assert_eq!(ev.description, "A: S (result: Failure(\"disk \\\"full\\\"\"))");
}

#[test]
fn test_export_hash_verifies_and_detects_tampering() {
    let mut w = AuditLogWriter::resume(None);
    let mut log = Vec::new();
    log_pair(&mut w, &mut log, "x");
    let report = AuditLogVerifier::new(&log).verify_full().unwrap();
    let export = AuditLogExport::assemble(log, report, "2024-01-01T00:00:00+00:00".to_string());
    assert_eq!(export.export_version, "1.0.0");
    assert!(verify_export_hash(&export).unwrap());
    let mut tampered = export.clone();
    tampered.entries[0].actor = "Mallory".to_string();
    assert!(!verify_export_hash(&tampered).unwrap());
    let mut rehashed = export.clone();
    rehashed.export_hash = "0".repeat(64);
    assert!(!verify_export_hash(&rehashed).unwrap());
}
