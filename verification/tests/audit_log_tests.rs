use oracle::adb::{AdbDevice, AdbInterface, FileStatResult};
use oracle::chain::{AuditLogVerifier, ChainStatus};
use oracle::custody::ChainOfCustodyBuilder;
use oracle::entry::AuditEntry;
use oracle::error::OracleError;
use oracle::export::{export_audit_log, verify_export_hash, AuditLogExport};
use oracle::hash::ForensicHash;
use oracle::types::{AuditOperationType, AuditResult, InvestigationId};
use oracle::writer::AuditLogWriter;

/// An audit log kept in memory: the entries written so far and the writer
/// that continues their chain.
struct Log {
    writer: AuditLogWriter,
    entries: Vec<AuditEntry>,
}

impl Log {
    fn new() -> Log {
        Log { writer: AuditLogWriter::resume(None), entries: Vec::new() }
    }

    /// Reopens a log from its entries, as a writer does from its database.
    fn reopen(entries: Vec<AuditEntry>) -> Log {
        let head = entries.last().map(|e| (e.entry_hash.clone(), e.entry_index));
        Log { writer: AuditLogWriter::resume(head), entries }
    }

    fn log_intent(
        &mut self,
        inv: Option<InvestigationId>,
        op: AuditOperationType,
        actor: &str,
        subject: &str,
        details: &str,
    ) -> u64 {
        self.writer.log_intent(&mut self.entries, inv, op, actor, subject, details.to_string()).unwrap()
    }

    fn log_result(&mut self, intent_index: u64, result: AuditResult, details: &str) {
        let intent = self.entries.iter().find(|e| e.entry_index == intent_index).unwrap().clone();
        let e = self.writer.result_entry(&intent, result, details).unwrap();
        self.writer.record_appended(&e);
        self.entries.push(e);
    }

    fn notes(n: usize) -> Log {
        let mut log = Log::new();
        for i in 0..n {
            log.log_intent(
                None,
                AuditOperationType::ExaminerNoteAdded,
                "Examiner A",
                &format!("Note #{}", i),
                "{}",
            );
        }
        log
    }

    fn pairs(&mut self, from: usize, to: usize, actor: &str, prefix: &str) {
        for i in from..to {
            let idx = self.log_intent(
                None,
                AuditOperationType::ArtifactAcquisitionStarted,
                actor,
                &format!("{}{}", prefix, i),
                "{}",
            );
            self.log_result(idx, AuditResult::Success, "{}");
        }
    }
}

// ── chain of custody ────────────────────────────────────────────────────────

#[test]
fn test_empty_audit_log_produces_empty_record() {
    let log = Log::new();
    let record = ChainOfCustodyBuilder::new(&log.entries).build_from_audit_log(None).unwrap();
    assert_eq!(record.total_events, 0);
    assert!(record.timeline.is_empty());
}

#[test]
fn test_device_events_correctly_classified() {
    let mut log = Log::new();
    log.log_intent(
        None,
        AuditOperationType::DeviceConnected,
        "SYSTEM",
        "Samsung SM-S928B",
        "{\"serial\":\"R5CX12345\"}",
    );
    log.log_intent(
        None,
        AuditOperationType::ArtifactAcquisitionStarted,
        "Examiner A",
        "WiFi config",
        "{\"path\":\"/data/misc/wifi\"}",
    );
    log.log_intent(None, AuditOperationType::SystemStartup, "SYSTEM", "Platform", "{}");
    let record = ChainOfCustodyBuilder::new(&log.entries).build_from_audit_log(None).unwrap();
    assert_eq!(record.total_events, 3);
    assert_eq!(record.device_interactions.len(), 2);
    assert_eq!(record.system_events.len(), 1);
    assert!(record.examiner_actions.is_empty());
}

#[test]
fn test_filter_by_investigation() {
    let mut log = Log::new();
    let inv_a = InvestigationId::new();
    let inv_b = InvestigationId::new();
    log.log_intent(Some(inv_a), AuditOperationType::InvestigationCreated, "Examiner A", "Case A", "{}");
    log.log_intent(Some(inv_b), AuditOperationType::InvestigationCreated, "Examiner B", "Case B", "{}");
    log.log_intent(None, AuditOperationType::SystemStartup, "SYSTEM", "Platform", "{}");
    let record =
        ChainOfCustodyBuilder::new(&log.entries).build_from_audit_log(Some(inv_a)).unwrap();
    assert_eq!(record.total_events, 2);
    assert_eq!(record.examiner_actions.len(), 1);
    assert_eq!(record.system_events.len(), 1);
}

#[test]
fn test_custody_event_references_source_entry() {
    let mut log = Log::new();
    log.log_intent(None, AuditOperationType::DeviceConnected, "SYSTEM", "Pixel 8", "{}");
    let record = ChainOfCustodyBuilder::new(&log.entries).build_from_audit_log(None).unwrap();
    assert_eq!(record.timeline[0].source_entry_id, log.entries[0].entry_id);
    assert_eq!(record.timeline[0].source_entry_index, log.entries[0].entry_index);
}

#[test]
fn test_examiner_actions_classified() {
    let mut log = Log::new();
    log.log_intent(
        None,
        AuditOperationType::ExaminerNoteAdded,
        "Examiner C",
        "Observation",
        "{\"note\":\"Device screen was cracked\"}",
    );
    log.log_intent(
        None,
        AuditOperationType::ExaminerOverrideApplied,
        "Examiner C",
        "Confidence override",
        "{}",
    );
    let record = ChainOfCustodyBuilder::new(&log.entries).build_from_audit_log(None).unwrap();
    assert_eq!(record.examiner_actions.len(), 2);
    assert_eq!(record.device_interactions.len(), 0);
}

#[test]
fn test_evidence_processing_classified() {
    let mut log = Log::new();
    log.log_intent(
        None,
        AuditOperationType::ParserExecutionStarted,
        "SYSTEM",
        "WifiConfigStore parser",
        "{}",
    );
    log.log_intent(None, AuditOperationType::NormalizationCompleted, "SYSTEM", "WiFi records", "{}");
    let record = ChainOfCustodyBuilder::new(&log.entries).build_from_audit_log(None).unwrap();
    assert_eq!(record.evidence_processing.len(), 2);
}

// ── entries ─────────────────────────────────────────────────────────────────

#[test]
fn test_entry_serialization_roundtrip() {
    let entry = AuditEntry::new(
        0,
        None,
        AuditOperationType::SystemStartup,
        "SYSTEM".to_string(),
        "ORACLE platform".to_string(),
        "{\"version\":\"1.0.0\"}".to_string(),
        AuditResult::Success,
        ForensicHash::genesis().to_hex(),
    )
    .unwrap();
    let recovered = AuditEntry::from_parts(
        entry.entry_id,
        entry.timestamp.clone(),
        entry.entry_index,
        entry.investigation_id,
        entry.operation.duplicate(),
        entry.actor.clone(),
        entry.subject.clone(),
        entry.details.clone(),
        entry.result.duplicate(),
        entry.previous_hash.clone(),
    )
    .unwrap();
    assert_eq!(entry.entry_hash, recovered.entry_hash);
    assert!(recovered.verify_hash().unwrap());
}

// ── export ──────────────────────────────────────────────────────────────────

fn export_of(log: &Log) -> AuditLogExport {
    let report = AuditLogVerifier::new(&log.entries).verify_full().unwrap();
    AuditLogExport::assemble(log.entries.clone(), report, "2024-06-01T12:00:00Z".to_string())
}

#[test]
fn test_export_produces_valid_json() {
    let mut log = Log::new();
    for i in 0..5 {
        log.log_intent(
            None,
            AuditOperationType::ExaminerNoteAdded,
            "Examiner A",
            &format!("Note #{}", i),
            &format!("{{\"i\":{}}}", i),
        );
    }
    let (export, text) = export_audit_log(log.entries.clone());
    assert_eq!(export.entries.len(), 5);
    assert_eq!(export.verification.overall_status, ChainStatus::Intact);
    assert!(verify_export_hash(&export).unwrap());
    let parsed: serde_json::Value = serde_json::from_str(&text).unwrap();
    assert_eq!(parsed["entries"].as_array().unwrap().len(), 5);
    assert_eq!(parsed["export_hash"].as_str().unwrap(), export.export_hash);
    assert_eq!(parsed["entries"][3]["details"]["i"].as_u64().unwrap(), 3);
}

#[test]
fn test_export_hash_is_valid() {
    let export = export_of(&Log::notes(3));
    assert!(verify_export_hash(&export).unwrap(), "Export hash must verify correctly");
}

#[test]
fn test_export_hash_detects_tampering() {
    let mut log = Log::new();
    log.log_intent(None, AuditOperationType::SystemStartup, "SYSTEM", "Platform", "{}");
    let mut export = export_of(&log);
    export.entries[0].actor = "EVIL_ACTOR".to_string();
    assert!(!verify_export_hash(&export).unwrap(), "Tampered export must fail hash verification");
}

#[test]
fn test_export_with_verification_proof() {
    let export = export_of(&Log::notes(10));
    assert_eq!(export.verification.total_entries, 10);
    assert_eq!(export.verification.verified_entries, 10);
    assert_eq!(export.verification.overall_status, ChainStatus::Intact);
    assert!(export.verification.first_broken_entry.is_none());
}

#[test]
fn test_export_empty_log() {
    let export = export_of(&Log::new());
    assert_eq!(export.entries.len(), 0);
    assert_eq!(export.verification.overall_status, ChainStatus::Intact);
    assert!(verify_export_hash(&export).unwrap());
}

// ── chain verification ──────────────────────────────────────────────────────

#[test]
fn test_verify_chain_intact_after_writes() {
    let mut log = Log::new();
    for i in 0..20 {
        log.log_intent(
            None,
            AuditOperationType::ExaminerNoteAdded,
            "Examiner A",
            &format!("Note #{}", i),
            &format!("{{\"i\":{}}}", i),
        );
    }
    AuditLogVerifier::new(&log.entries).verify_chain().unwrap();
}

#[test]
fn test_verify_full_produces_intact_report() {
    let log = Log::notes(10);
    let report = AuditLogVerifier::new(&log.entries).verify_full().unwrap();
    assert_eq!(report.total_entries, 10);
    assert_eq!(report.verified_entries, 10);
    assert_eq!(report.overall_status, ChainStatus::Intact);
    assert!(report.first_broken_entry.is_none());
}

#[test]
fn test_tamper_middle_entry_breaks_chain() {
    let mut log = Log::notes(10);
    log.entries[5].actor = "TAMPERED".to_string();
    match AuditLogVerifier::new(&log.entries).verify_chain() {
        Err(OracleError::AuditChainBroken { entry_index, .. }) => {
            assert_eq!(entry_index, 5, "Chain should break at the tampered entry");
        }
        other => panic!("Expected AuditChainBroken, got: {:?}", other),
    }
}

#[test]
fn test_delete_entry_breaks_chain() {
    let mut log = Log::notes(10);
    log.entries.remove(3);
    let report = AuditLogVerifier::new(&log.entries).verify_full().unwrap();
    assert_eq!(report.overall_status, ChainStatus::Broken);
    assert_eq!(report.first_broken_entry, Some(4));
}

#[test]
fn test_verify_full_report_broken_has_description() {
    let mut log = Log::notes(5);
    log.entries[2].subject = "EVIL".to_string();
    let report = AuditLogVerifier::new(&log.entries).verify_full().unwrap();
    assert_eq!(report.overall_status, ChainStatus::Broken);
    assert!(report.failure_description.as_ref().unwrap().contains("hash mismatch"));
}

// ── writer ──────────────────────────────────────────────────────────────────

#[test]
fn test_genesis_entry_has_all_zero_previous_hash() {
    let mut log = Log::new();
    log.log_intent(None, AuditOperationType::SystemStartup, "SYSTEM", "Platform startup", "{}");
    assert_eq!(log.entries[0].previous_hash, ForensicHash::genesis().to_hex());
}

#[test]
fn test_writer_resumes_chain_after_reopen() {
    let mut log = Log::new();
    let idx1 = log.log_intent(None, AuditOperationType::SystemStartup, "SYSTEM", "Startup", "{}");
    log.log_result(idx1, AuditResult::Success, "{\"message\":\"Startup complete\"}");
    let idx2 =
        log.log_intent(None, AuditOperationType::InvestigationCreated, "Examiner A", "Case #1", "{}");
    log.log_result(idx2, AuditResult::Success, "{\"message\":\"Case #1 created\"}");
    let last_hash = log.writer.last_hash().to_string();
    let next_index = log.writer.next_index();
    let reopened = Log::reopen(log.entries);
    assert_eq!(reopened.writer.last_hash(), last_hash);
    assert_eq!(reopened.writer.next_index(), next_index);
}

#[test]
fn test_append_only_guarantee() {
    let mut log = Log::new();
    let idx =
        log.log_intent(None, AuditOperationType::InvestigationCreated, "Examiner A", "Case #1", "{}");
    log.log_result(idx, AuditResult::Success, "{}");
    assert_eq!(log.entries[0].result, AuditResult::Pending);
    assert_eq!(log.entries[1].result, AuditResult::Success);
}

#[test]
fn test_50_sequential_intent_result_pairs_maintain_chain() {
    let mut log = Log::new();
    log.pairs(0, 50, "Examiner", "Artifact #");
    let report = AuditLogVerifier::new(&log.entries).verify_full().unwrap();
    assert_eq!(report.overall_status, ChainStatus::Intact, "Chain must be intact after 100 writes");
    assert_eq!(report.total_entries, 100);
}

#[test]
fn test_reopen_after_writes_preserves_chain() {
    let mut log = Log::new();
    log.pairs(0, 10, "Parser", "File #");
    let mut log = Log::reopen(log.entries);
    log.pairs(10, 20, "Parser", "File #");
    let report = AuditLogVerifier::new(&log.entries).verify_full().unwrap();
    assert_eq!(report.overall_status, ChainStatus::Intact, "Chain must survive session boundary");
    assert_eq!(report.total_entries, 40);
}

#[test]
fn test_tamper_entry_in_100_entry_chain() {
    let mut log = Log::new();
    log.pairs(0, 50, "Examiner", "Artifact #");
    log.entries[50].subject = "TAMPERED".to_string();
    let report = AuditLogVerifier::new(&log.entries).verify_full().unwrap();
    assert_eq!(report.overall_status, ChainStatus::Broken, "Must detect tampered entry");
}

#[test]
fn test_delete_entry_from_chain_detected() {
    let mut log = Log::new();
    log.pairs(0, 10, "Parser", "File #");
    log.entries.remove(5);
    let report = AuditLogVerifier::new(&log.entries).verify_full().unwrap();
    assert_eq!(report.overall_status, ChainStatus::Broken, "Must detect deleted entry");
}

#[test]
fn test_swap_hashes_detected() {
    let mut log = Log::new();
    log.pairs(0, 6, "Examiner", "Item #");
    let h2 = log.entries[2].entry_hash.clone();
    let h3 = log.entries[3].entry_hash.clone();
    log.entries[2].entry_hash = h3;
    log.entries[3].entry_hash = h2;
    let report = AuditLogVerifier::new(&log.entries).verify_full().unwrap();
    assert_eq!(report.overall_status, ChainStatus::Broken, "Must detect swapped hashes");
}

// ── a device that disconnects ───────────────────────────────────────────────

/// A device that answers a fixed number of transfers, then is gone.
struct DisconnectingAdb {
    pulls_before_disconnect: usize,
    pull_count: std::cell::Cell<usize>,
}

impl DisconnectingAdb {
    fn new(pulls_before_disconnect: usize) -> Self {
        Self { pulls_before_disconnect, pull_count: std::cell::Cell::new(0) }
    }

    fn gone(&self, command: &str, reason: &str) -> OracleError {
        OracleError::AdbCommandFailed {
            serial: "DEAD".to_string(),
            command: command.to_string(),
            reason: reason.to_string(),
        }
    }
}

impl AdbInterface for DisconnectingAdb {
    fn list_devices(&self) -> Result<Vec<AdbDevice>, OracleError> {
        Ok(Vec::new())
    }

    fn shell_command(&self, _serial: &str, _command: &str) -> Result<String, OracleError> {
        let count = self.pull_count.get();
        if count >= self.pulls_before_disconnect {
            Err(self.gone("pull", "error: device not found (USB disconnected)"))
        } else {
            self.pull_count.set(count + 1);
            Ok("sample data".to_string())
        }
    }

    fn get_prop(&self, serial: &str, prop_name: &str) -> Result<String, OracleError> {
        self.shell_command(serial, &format!("getprop {}", prop_name))
    }

    fn pull_file(&self, _serial: &str, _remote: &str, _local: &str) -> Result<(), OracleError> {
        let count = self.pull_count.get();
        if count >= self.pulls_before_disconnect {
            Err(self.gone("pull", "error: device not found (USB disconnected)"))
        } else {
            self.pull_count.set(count + 1);
            Ok(())
        }
    }

    fn check_file_exists(&self, _serial: &str, _path: &str) -> Result<bool, OracleError> {
        if self.pull_count.get() >= self.pulls_before_disconnect {
            Err(self.gone("stat", "error: device not found"))
        } else {
            Ok(true)
        }
    }

    fn check_file_readable(&self, _serial: &str, _path: &str) -> Result<bool, OracleError> {
        if self.pull_count.get() >= self.pulls_before_disconnect {
            Err(self.gone("test -r", "error: device not found"))
        } else {
            Ok(true)
        }
    }

    fn stat_file(&self, _serial: &str, _path: &str) -> Result<FileStatResult, OracleError> {
        Err(self.gone("stat", "error: device not found"))
    }

    fn verify_connection(&self, _expected_serial: &str) -> Result<String, OracleError> {
        Err(self.gone("devices", "error: device not found"))
    }
}

#[test]
fn test_disconnection_returns_adb_error() {
    let adb = DisconnectingAdb::new(0);
    let result = adb.shell_command("SERIAL", "ls /data");
    assert!(result.is_err());
    if let Err(OracleError::AdbCommandFailed { reason, .. }) = result {
        assert!(reason.contains("device not found"));
    }
}

#[test]
fn test_partial_operations_then_disconnect() {
    let adb = DisconnectingAdb::new(2);
    assert!(adb.shell_command("S", "cmd1").is_ok());
    assert!(adb.shell_command("S", "cmd2").is_ok());
    assert!(adb.shell_command("S", "cmd3").is_err());
}

#[test]
fn test_immediate_disconnect_on_file_check() {
    let adb = DisconnectingAdb::new(0);
    assert!(adb.check_file_exists("S", "/data/misc/wifi/WifiConfigStore.xml").is_err());
}

#[test]
fn test_result_for_a_longer_index_does_not_answer_a_prefix() {
    let mut log = Log::new();
    for i in 0..11 {
        log.log_intent(None, AuditOperationType::ExaminerNoteAdded, "E", &format!("n{}", i), "{}");
    }
    log.log_result(10, AuditResult::Success, "{}");
    let pending = oracle::writer::find_incomplete_entries(&log.entries);
    assert_eq!(pending, (0..10).collect::<Vec<u64>>());
    let mut entries = log.entries.clone();
    log.writer.recover_incomplete(&mut entries).unwrap();
    assert!(entries.iter().any(|e| e.operation == AuditOperationType::SystemCrashRecovery
        && e.details.contains("\"recovered_intent_index\":1,")));
    assert!(oracle::writer::find_incomplete_entries(&entries).is_empty());
    assert!(oracle::writer::names_whole_text("{\"intent_entry_index\":10}", "\"intent_entry_index\":10"));
    assert!(!oracle::writer::names_whole_text("{\"intent_entry_index\":10}", "\"intent_entry_index\":1"));
}

#[test]
fn test_log_intent_appends_one_pending_entry() {
    let mut writer = AuditLogWriter::resume(None);
    let mut log: Vec<AuditEntry> = Vec::new();
    let genesis = ForensicHash::genesis().to_hex();
    let i = writer
        .log_intent(&mut log, None, AuditOperationType::ExaminerNoteAdded, "Examiner A", "Note", "{}".to_string())
        .unwrap();
    assert_eq!(i, 0);
    assert_eq!(log.len(), 1);
    assert_eq!(log[0].result, AuditResult::Pending);
    assert_eq!(log[0].previous_hash, genesis);
    assert!(log[0].verify_hash().unwrap());
    assert_eq!(writer.next_index(), 1);
    assert_eq!(writer.last_hash(), log[0].entry_hash.as_str());
    let j = writer
        .log_intent(&mut log, None, AuditOperationType::ExaminerNoteAdded, "Examiner A", "Again", "{}".to_string())
        .unwrap();
    assert_eq!(j, 1);
    assert_eq!(log[1].previous_hash, log[0].entry_hash);
}

#[test]
fn test_log_intent_refuses_a_bad_head_and_changes_nothing() {
    let mut writer = AuditLogWriter::resume(Some(("not a hash".to_string(), 4)));
    let mut log: Vec<AuditEntry> = Vec::new();
    let r = writer.log_intent(&mut log, None, AuditOperationType::ExaminerNoteAdded, "A", "S", "{}".to_string());
    assert!(matches!(r, Err(OracleError::SerializationError { .. })));
    assert!(log.is_empty());
    assert_eq!(writer.next_index(), 5);
    assert_eq!(writer.last_hash(), "not a hash");
}
