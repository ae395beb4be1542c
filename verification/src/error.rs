//! The platform's error type.
//!
//! Every variant carries plain values (identifiers and paths as text), so
//! that an error can be recorded verbatim in the audit log.

use vstd::prelude::*;
use crate::text::{append, debug_text, debug_text_of, decimal, decimal_string, owned};

verus! {

/// Top-level error of the forensic platform.
#[derive(Debug, Clone, PartialEq, Eq)]
pub enum OracleError {
    /// The audit hash chain is broken at `entry_index`.
    AuditChainBroken { entry_index: u64, expected: String, found: String },
    /// An audit log write failed; the operation it records must not proceed.
    AuditWriteFailed { reason: String },
    /// An intent entry has no matching result entry.
    AuditEntryIncomplete { entry_index: u64, description: String },
    /// An attempt to modify an existing evidence record.
    EvidenceModificationAttempt { record_id: String },
    /// An artifact's hash at retrieval differs from its hash at storage.
    EvidenceHashMismatch { artifact_id: String, stored_hash: String, computed_hash: String },
    /// The evidence store is inconsistent.
    EvidenceStoreCorrupted { reason: String },
    /// The provenance chain of a record is broken.
    ProvenanceChainBroken { record_id: String, reason: String },
    /// No Android device is visible on any transport.
    NoDeviceDetected,
    /// Several devices are connected and none was selected.
    MultipleDevicesDetected { count: usize },
    /// The device has not authorised this host.
    DeviceUnauthorized { serial: String },
    /// The device is connected but offline.
    DeviceOffline { serial: String, state: String },
    /// An ADB command failed.
    AdbCommandFailed { serial: String, command: String, reason: String },
    /// A capability was assumed but not confirmed by detection.
    CapabilityNotConfirmed { capability: String },
    /// A parser cannot handle an artifact.
    ParserIncompatible { parser_id: String, artifact_id: String, reason: String },
    /// A parser produced invalid output.
    ParserOutputInvalid { parser_id: String, artifact_id: String, reason: String },
    /// An artifact is corrupted beyond recovery.
    ArtifactCorrupted { artifact_id: String, reason: String },
    /// A plugin failed validation.
    PluginValidationFailed { plugin_id: String, reason: String },
    /// A required plugin is missing.
    PluginMissing { plugin_id: String, required_version: String },
    /// No artifact could be acquired.
    AcquisitionFailed { reason: String },
    /// Correlation could not run.
    CorrelationFailed { reason: String },
    /// An acquisition timed out.
    AcquisitionTimeout { serial: String, path: String, timeout_secs: u64 },
    /// The device disconnected during an acquisition.
    DeviceDisconnectedDuringAcquisition { serial: String, path: String },
    /// Before-first-unlock state blocks an artifact.
    BfuStateBlocked { serial: String, artifact_class: String, encryption_zone: String },
    /// Several devices are connected and the selection is ambiguous.
    AmbiguousDeviceSelection { count: usize },
    /// The examiner aborted the investigation.
    ExaminerAborted,
    /// The pipeline halted.
    PipelineHalted { state: String, detail: String },
    /// The configuration is missing, unreadable or invalid.
    ConfigurationError { reason: String },
    /// A filesystem operation failed.
    IoError { path: String, source: String },
    /// A database operation failed.
    DatabaseError { reason: String },
    /// Serialisation or deserialisation failed.
    SerializationError { reason: String },
}

/// The result type of the platform.
pub type OracleResult<T> = Result<T, OracleError>;

/// The message of `e`, as the platform displays it.
pub open spec fn error_text(e: OracleError) -> Seq<char> {
    match e {
        OracleError::AuditChainBroken { entry_index, expected, found } => "Audit chain integrity violation at entry "@ + decimal(entry_index as nat) + ": expected hash "@ + expected@ + ", found "@ + found@,
        OracleError::AuditWriteFailed { reason } => "Audit log write failed: "@ + reason@,
        OracleError::AuditEntryIncomplete { entry_index, description } => "Incomplete audit entry detected at index "@ + decimal(entry_index as nat) + ": "@ + description@,
        OracleError::EvidenceModificationAttempt { record_id } => "Forensic integrity violation: attempted to modify existing record "@ + record_id@,
        OracleError::EvidenceHashMismatch { artifact_id, stored_hash, computed_hash } => "Evidence integrity violation: artifact "@ + artifact_id@ + " hash mismatch \u{2014} stored: "@ + stored_hash@ + ", computed: "@ + computed_hash@,
        OracleError::EvidenceStoreCorrupted { reason } => "Evidence store integrity check failed: "@ + reason@,
        OracleError::ProvenanceChainBroken { record_id, reason } => "Provenance chain broken for record "@ + record_id@ + ": "@ + reason@,
        OracleError::NoDeviceDetected => "No Android device detected on any transport"@,
        OracleError::MultipleDevicesDetected { count } => "Multiple devices detected ("@ + decimal(count as nat) + "). Specify target device serial."@,
        OracleError::DeviceUnauthorized { serial } => "Device "@ + serial@ + " is not authorized for ADB. Accept the RSA key prompt on the device."@,
        OracleError::DeviceOffline { serial, state } => "Device "@ + serial@ + " is in offline state: "@ + state@,
        OracleError::AdbCommandFailed { serial, command, reason } => "ADB command failed on device "@ + serial@ + ": "@ + command@ + " \u{2014} "@ + reason@,
        OracleError::CapabilityNotConfirmed { capability } => "Capability not confirmed: "@ + capability@ + ". The CDE profile does not grant this access."@,
        OracleError::ParserIncompatible { parser_id, artifact_id, reason } => "Parser "@ + parser_id@ + " cannot parse artifact "@ + artifact_id@ + ": "@ + reason@,
        OracleError::ParserOutputInvalid { parser_id, artifact_id, reason } => "Parser "@ + parser_id@ + " produced invalid output for artifact "@ + artifact_id@ + ": "@ + reason@,
        OracleError::ArtifactCorrupted { artifact_id, reason } => "Artifact "@ + artifact_id@ + " is corrupted: "@ + reason@,
        OracleError::PluginValidationFailed { plugin_id, reason } => "Plugin "@ + plugin_id@ + " failed validation: "@ + reason@,
        OracleError::PluginMissing { plugin_id, required_version } => "Required plugin "@ + plugin_id@ + " version "@ + required_version@ + " is not installed"@,
        OracleError::AcquisitionFailed { reason } => "Forensic acquisition failed: "@ + reason@,
        OracleError::CorrelationFailed { reason } => "Correlation failed: "@ + reason@,
        OracleError::AcquisitionTimeout { serial, path, timeout_secs } => "Acquisition timed out after "@ + decimal(timeout_secs as nat) + "s on device "@ + serial@ + ": "@ + path@,
        OracleError::DeviceDisconnectedDuringAcquisition { serial, path } => "Device "@ + serial@ + " disconnected during acquisition of "@ + path@,
        OracleError::BfuStateBlocked { serial, artifact_class, encryption_zone } => "BFU state blocks access to "@ + debug_text_of(artifact_class@) + " ("@ + encryption_zone@ + ") on device "@ + serial@,
        OracleError::AmbiguousDeviceSelection { count } => "Ambiguous device selection: "@ + decimal(count as nat) + " devices connected. Specify --source with exact serial."@,
        OracleError::ExaminerAborted => "Pipeline halted: examiner chose to abort investigation"@,
        OracleError::PipelineHalted { state, detail } => "Pipeline halted: "@ + state@ + ". "@ + detail@,
        OracleError::ConfigurationError { reason } => "Configuration error: "@ + reason@,
        OracleError::IoError { path, source } => "Filesystem I/O error at path "@ + path@ + ": "@ + source@,
        OracleError::DatabaseError { reason } => "Database error: "@ + reason@,
        OracleError::SerializationError { reason } => "Serialization error: "@ + reason@,
    }
}

impl OracleError {
    /// The message of this error.
    pub fn display_text(&self) -> (s: String)
        ensures
            s@ == error_text(*self),
    {
        match self {
            OracleError::AuditChainBroken { entry_index, expected, found } => {
                let mut s = owned("Audit chain integrity violation at entry ");
                append(&mut s, decimal_string(*entry_index as u64).as_str());
                append(&mut s, ": expected hash ");
                append(&mut s, expected.as_str());
                append(&mut s, ", found ");
                append(&mut s, found.as_str());
                s
            },
            OracleError::AuditWriteFailed { reason } => {
                let mut s = owned("Audit log write failed: ");
                append(&mut s, reason.as_str());
                s
            },
            OracleError::AuditEntryIncomplete { entry_index, description } => {
                let mut s = owned("Incomplete audit entry detected at index ");
                append(&mut s, decimal_string(*entry_index as u64).as_str());
                append(&mut s, ": ");
                append(&mut s, description.as_str());
                s
            },
            OracleError::EvidenceModificationAttempt { record_id } => {
                let mut s = owned("Forensic integrity violation: attempted to modify existing record ");
                append(&mut s, record_id.as_str());
                s
            },
            OracleError::EvidenceHashMismatch { artifact_id, stored_hash, computed_hash } => {
                let mut s = owned("Evidence integrity violation: artifact ");
                append(&mut s, artifact_id.as_str());
                append(&mut s, " hash mismatch \u{2014} stored: ");
                append(&mut s, stored_hash.as_str());
                append(&mut s, ", computed: ");
                append(&mut s, computed_hash.as_str());
                s
            },
            OracleError::EvidenceStoreCorrupted { reason } => {
                let mut s = owned("Evidence store integrity check failed: ");
                append(&mut s, reason.as_str());
                s
            },
            OracleError::ProvenanceChainBroken { record_id, reason } => {
                let mut s = owned("Provenance chain broken for record ");
                append(&mut s, record_id.as_str());
                append(&mut s, ": ");
                append(&mut s, reason.as_str());
                s
            },
            OracleError::NoDeviceDetected => {
                let mut s = owned("No Android device detected on any transport");
                s
            },
            OracleError::MultipleDevicesDetected { count } => {
                let mut s = owned("Multiple devices detected (");
                append(&mut s, decimal_string(*count as u64).as_str());
                append(&mut s, "). Specify target device serial.");
                s
            },
            OracleError::DeviceUnauthorized { serial } => {
                let mut s = owned("Device ");
                append(&mut s, serial.as_str());
                append(&mut s, " is not authorized for ADB. Accept the RSA key prompt on the device.");
                s
            },
            OracleError::DeviceOffline { serial, state } => {
                let mut s = owned("Device ");
                append(&mut s, serial.as_str());
                append(&mut s, " is in offline state: ");
                append(&mut s, state.as_str());
                s
            },
            OracleError::AdbCommandFailed { serial, command, reason } => {
                let mut s = owned("ADB command failed on device ");
                append(&mut s, serial.as_str());
                append(&mut s, ": ");
                append(&mut s, command.as_str());
                append(&mut s, " \u{2014} ");
                append(&mut s, reason.as_str());
                s
            },
            OracleError::CapabilityNotConfirmed { capability } => {
                let mut s = owned("Capability not confirmed: ");
                append(&mut s, capability.as_str());
                append(&mut s, ". The CDE profile does not grant this access.");
                s
            },
            OracleError::ParserIncompatible { parser_id, artifact_id, reason } => {
                let mut s = owned("Parser ");
                append(&mut s, parser_id.as_str());
                append(&mut s, " cannot parse artifact ");
                append(&mut s, artifact_id.as_str());
                append(&mut s, ": ");
                append(&mut s, reason.as_str());
                s
            },
            OracleError::ParserOutputInvalid { parser_id, artifact_id, reason } => {
                let mut s = owned("Parser ");
                append(&mut s, parser_id.as_str());
                append(&mut s, " produced invalid output for artifact ");
                append(&mut s, artifact_id.as_str());
                append(&mut s, ": ");
                append(&mut s, reason.as_str());
                s
            },
            OracleError::ArtifactCorrupted { artifact_id, reason } => {
                let mut s = owned("Artifact ");
                append(&mut s, artifact_id.as_str());
                append(&mut s, " is corrupted: ");
                append(&mut s, reason.as_str());
                s
            },
            OracleError::PluginValidationFailed { plugin_id, reason } => {
                let mut s = owned("Plugin ");
                append(&mut s, plugin_id.as_str());
                append(&mut s, " failed validation: ");
                append(&mut s, reason.as_str());
                s
            },
            OracleError::PluginMissing { plugin_id, required_version } => {
                let mut s = owned("Required plugin ");
                append(&mut s, plugin_id.as_str());
                append(&mut s, " version ");
                append(&mut s, required_version.as_str());
                append(&mut s, " is not installed");
                s
            },
            OracleError::AcquisitionFailed { reason } => {
                let mut s = owned("Forensic acquisition failed: ");
                append(&mut s, reason.as_str());
                s
            },
            OracleError::CorrelationFailed { reason } => {
                let mut s = owned("Correlation failed: ");
                append(&mut s, reason.as_str());
                s
            },
            OracleError::AcquisitionTimeout { serial, path, timeout_secs } => {
                let mut s = owned("Acquisition timed out after ");
                append(&mut s, decimal_string(*timeout_secs as u64).as_str());
                append(&mut s, "s on device ");
                append(&mut s, serial.as_str());
                append(&mut s, ": ");
                append(&mut s, path.as_str());
                s
            },
            OracleError::DeviceDisconnectedDuringAcquisition { serial, path } => {
                let mut s = owned("Device ");
                append(&mut s, serial.as_str());
                append(&mut s, " disconnected during acquisition of ");
                append(&mut s, path.as_str());
                s
            },
            OracleError::BfuStateBlocked { serial, artifact_class, encryption_zone } => {
                let mut s = owned("BFU state blocks access to ");
                append(&mut s, debug_text(artifact_class.as_str()).as_str());
                append(&mut s, " (");
                append(&mut s, encryption_zone.as_str());
                append(&mut s, ") on device ");
                append(&mut s, serial.as_str());
                s
            },
            OracleError::AmbiguousDeviceSelection { count } => {
                let mut s = owned("Ambiguous device selection: ");
                append(&mut s, decimal_string(*count as u64).as_str());
                append(&mut s, " devices connected. Specify --source with exact serial.");
                s
            },
            OracleError::ExaminerAborted => {
                let mut s = owned("Pipeline halted: examiner chose to abort investigation");
                s
            },
            OracleError::PipelineHalted { state, detail } => {
                let mut s = owned("Pipeline halted: ");
                append(&mut s, state.as_str());
                append(&mut s, ". ");
                append(&mut s, detail.as_str());
                s
            },
            OracleError::ConfigurationError { reason } => {
                let mut s = owned("Configuration error: ");
                append(&mut s, reason.as_str());
                s
            },
            OracleError::IoError { path, source } => {
                let mut s = owned("Filesystem I/O error at path ");
                append(&mut s, path.as_str());
                append(&mut s, ": ");
                append(&mut s, source.as_str());
                s
            },
            OracleError::DatabaseError { reason } => {
                let mut s = owned("Database error: ");
                append(&mut s, reason.as_str());
                s
            },
            OracleError::SerializationError { reason } => {
                let mut s = owned("Serialization error: ");
                append(&mut s, reason.as_str());
                s
            },
        }
    }
}

} // verus!
