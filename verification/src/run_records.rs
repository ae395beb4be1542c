//! What a pipeline run writes into the audit log at each stage: the
//! operation of each intent and the details (compact JSON, keys in order)
//! of its intent and result entries.

use vstd::prelude::*;
use crate::json::{json_quoted, json_string};
use crate::pipeline::ForensicPipeline;
use crate::text::{append, decimal, decimal_string, owned};
use crate::types::{
    artifact_class_name, encryption_state_name, root_method_name, selinux_mode_name, uuid_string,
    uuid_text, ArtifactClass, ArtifactId, AuditOperationType, AuditResult, CapabilityProfile,
    ExaminerIdentity,
};

verus! {

/// The JSON object of an examiner, keys in order.
pub open spec fn examiner_json(x: ExaminerIdentity) -> Seq<char> {
    "{\"badge_id\":"@ + json_quoted(x.badge_id@) + ",\"name\":"@ + json_quoted(x.name@)
        + ",\"organization\":"@ + json_quoted(x.organization@) + "}"@
}

/// The checks a verified connection has passed, as the record lists them.
pub open spec fn verification_checks_json() -> Seq<char> {
    "[\"adb_binary_reachable\",\"device_serial_match\",\"adb_authorization_granted\",\"echo_test_passed\"]"@
}

/// The JSON object `{"<key>":<n>}` of one count.
pub open spec fn count_json(key: Seq<char>, n: nat) -> Seq<char> {
    "{\""@ + key + "\":"@ + decimal(n) + "}"@
}

/// The JSON object of two counts, keys in the order given.
pub open spec fn counts2_json(k1: Seq<char>, n1: nat, k2: Seq<char>, n2: nat) -> Seq<char> {
    "{\""@ + k1 + "\":"@ + decimal(n1) + ",\""@ + k2 + "\":"@ + decimal(n2) + "}"@
}

/// The JSON object of three counts, keys in the order given.
pub open spec fn counts3_json(
    k1: Seq<char>,
    n1: nat,
    k2: Seq<char>,
    n2: nat,
    k3: Seq<char>,
    n3: nat,
) -> Seq<char> {
    "{\""@ + k1 + "\":"@ + decimal(n1) + ",\""@ + k2 + "\":"@ + decimal(n2) + ",\""@ + k3 + "\":"@
        + decimal(n3) + "}"@
}

pub(crate) fn examiner_text(x: &ExaminerIdentity) -> (s: String)
    ensures
        s@ == examiner_json(*x),
{
    let mut s = owned("{\"badge_id\":");
    append(&mut s, json_string(x.badge_id.as_str()).as_str());
    append(&mut s, ",\"name\":");
    append(&mut s, json_string(x.name.as_str()).as_str());
    append(&mut s, ",\"organization\":");
    append(&mut s, json_string(x.organization.as_str()).as_str());
    append(&mut s, "}");
    s
}

/// `{"<key>":<n>}`.
pub fn count_details(key: &str, n: u64) -> (s: String)
    ensures
        s@ == count_json(key@, n as nat),
{
    let mut s = owned("{\"");
    append(&mut s, key);
    append(&mut s, "\":");
    append(&mut s, decimal_string(n).as_str());
    append(&mut s, "}");
    s
}

/// `{"<k1>":<n1>,"<k2>":<n2>}`.
pub fn counts2_details(k1: &str, n1: u64, k2: &str, n2: u64) -> (s: String)
    ensures
        s@ == counts2_json(k1@, n1 as nat, k2@, n2 as nat),
{
    let mut s = owned("{\"");
    append(&mut s, k1);
    append(&mut s, "\":");
    append(&mut s, decimal_string(n1).as_str());
    append(&mut s, ",\"");
    append(&mut s, k2);
    append(&mut s, "\":");
    append(&mut s, decimal_string(n2).as_str());
    append(&mut s, "}");
    s
}

/// `{"<k1>":<n1>,"<k2>":<n2>,"<k3>":<n3>}`.
pub fn counts3_details(k1: &str, n1: u64, k2: &str, n2: u64, k3: &str, n3: u64) -> (s: String)
    ensures
        s@ == counts3_json(k1@, n1 as nat, k2@, n2 as nat, k3@, n3 as nat),
{
    let mut s = owned("{\"");
    append(&mut s, k1);
    append(&mut s, "\":");
    append(&mut s, decimal_string(n1).as_str());
    append(&mut s, ",\"");
    append(&mut s, k2);
    append(&mut s, "\":");
    append(&mut s, decimal_string(n2).as_str());
    append(&mut s, ",\"");
    append(&mut s, k3);
    append(&mut s, "\":");
    append(&mut s, decimal_string(n3).as_str());
    append(&mut s, "}");
    s
}

impl ForensicPipeline {
    /// The details of the run's opening intent: the case, the device and
    /// the examiner.
    pub fn run_intent_details(&self, device_serial: &str) -> (s: String)
        ensures
            s@ == "{\"case_name\":"@ + json_quoted(self.case_name_spec()) + ",\"device_serial\":"@
                + json_quoted(device_serial@) + ",\"examiner\":"@ + examiner_json(self.examiner_spec())
                + "}"@,
    {
        let mut s = owned("{\"case_name\":");
        append(&mut s, json_string(self.case_name()).as_str());
        append(&mut s, ",\"device_serial\":");
        append(&mut s, json_string(device_serial).as_str());
        append(&mut s, ",\"examiner\":");
        append(&mut s, examiner_text(self.examiner()).as_str());
        append(&mut s, "}");
        s
    }

    /// The operation of the connection check that opens the run.
    pub fn connection_check_operation() -> (op: AuditOperationType)
        ensures
            op matches AuditOperationType::Custom(s) && s@ == "ConnectionVerification"@,
    {
        AuditOperationType::Custom(owned("ConnectionVerification"))
    }

    /// The details of the connection check's intent, and of its result
    /// when it fails: the serial expected.
    pub fn connection_check_details(device_serial: &str) -> (s: String)
        ensures
            s@ == "{\"expected_serial\":"@ + json_quoted(device_serial@) + "}"@,
    {
        let mut s = owned("{\"expected_serial\":");
        append(&mut s, json_string(device_serial).as_str());
        append(&mut s, "}");
        s
    }

    /// The details of a passed connection check: the build the device
    /// reports, the checks passed and the serial verified.
    pub fn connection_verified_details(verified_serial: &str, adb_version: &str) -> (s: String)
        ensures
            s@ == "{\"adb_version\":"@ + json_quoted(adb_version@) + ",\"verification_checks\":"@
                + verification_checks_json() + ",\"verified_serial\":"@ + json_quoted(
                verified_serial@,
            ) + "}"@,
    {
        let mut s = owned("{\"adb_version\":");
        append(&mut s, json_string(adb_version).as_str());
        append(&mut s, ",\"verification_checks\":");
        append(
            &mut s,
            "[\"adb_binary_reachable\",\"device_serial_match\",\"adb_authorization_granted\",\"echo_test_passed\"]",
        );
        append(&mut s, ",\"verified_serial\":");
        append(&mut s, json_string(verified_serial).as_str());
        append(&mut s, "}");
        s
    }

    /// The run's result when the connection check fails with `error`.
    pub fn connection_failed_result(error: &str) -> (r: AuditResult)
        ensures
            r matches AuditResult::Failure(t) && t@ == "CONNECTION_VERIFICATION_FAILED: "@ + error@,
    {
        let mut t = owned("CONNECTION_VERIFICATION_FAILED: ");
        append(&mut t, error);
        AuditResult::Failure(t)
    }

    /// The details of the capability detection's intent.
    pub fn capability_intent_details(device_serial: &str, verified_serial: &str) -> (s: String)
        ensures
            s@ == "{\"serial\":"@ + json_quoted(device_serial@) + ",\"verified_serial\":"@
                + json_quoted(verified_serial@) + "}"@,
    {
        let mut s = owned("{\"serial\":");
        append(&mut s, json_string(device_serial).as_str());
        append(&mut s, ",\"verified_serial\":");
        append(&mut s, json_string(verified_serial).as_str());
        append(&mut s, "}");
        s
    }

    /// The details of a completed capability detection: the encryption
    /// state, root method and SELinux mode found.
    pub fn capability_result_details(profile: &CapabilityProfile) -> (s: String)
        ensures
            s@ == "{\"encryption_state\":\""@ + encryption_state_name(profile.encryption_state)
                + "\",\"root_method\":\""@ + root_method_name(profile.root_method)
                + "\",\"selinux_mode\":\""@ + selinux_mode_name(profile.selinux_mode) + "\"}"@,
    {
        let mut s = owned("{\"encryption_state\":\"");
        append(&mut s, profile.encryption_state.debug_name().as_str());
        append(&mut s, "\",\"root_method\":\"");
        append(&mut s, profile.root_method.debug_name().as_str());
        append(&mut s, "\",\"selinux_mode\":\"");
        append(&mut s, profile.selinux_mode.debug_name().as_str());
        append(&mut s, "\"}");
        s
    }

    /// The result details of the automatic acknowledgement of the profile.
    pub fn acknowledgement_details() -> (s: String)
        ensures
            s@ == "{\"acknowledged_by\":\"CLI_AUTO\"}"@,
    {
        owned("{\"acknowledged_by\":\"CLI_AUTO\"}")
    }

    /// The details of a complete acquisition.
    pub fn acquisition_complete_details(successful: u64, failed: u64, total_bytes: u64) -> (s: String)
        ensures
            s@ == "{\"failed_count\":"@ + decimal(failed as nat)
                + ",\"state\":\"ACQUISITION_COMPLETE\",\"successful_count\":"@ + decimal(
                successful as nat,
            ) + ",\"total_bytes\":"@ + decimal(total_bytes as nat) + "}"@,
    {
        let mut s = owned("{\"failed_count\":");
        append(&mut s, decimal_string(failed).as_str());
        append(&mut s, ",\"state\":\"ACQUISITION_COMPLETE\",\"successful_count\":");
        append(&mut s, decimal_string(successful).as_str());
        append(&mut s, ",\"total_bytes\":");
        append(&mut s, decimal_string(total_bytes).as_str());
        append(&mut s, "}");
        s
    }

    /// The operation of storing an acquired artifact.
    pub fn artifact_stored_operation() -> (op: AuditOperationType)
        ensures
            op matches AuditOperationType::Custom(s) && s@ == "ArtifactStored"@,
    {
        AuditOperationType::Custom(owned("ArtifactStored"))
    }

    /// The details of storing an artifact: its class, where it was found
    /// and its SHA-256 hash.
    pub fn artifact_stored_details(class: ArtifactClass, device_path: &str, sha256: &str) -> (s: String)
        ensures
            s@ == "{\"artifact_class\":\""@ + artifact_class_name(class) + "\",\"device_path\":"@
                + json_quoted(device_path@) + ",\"sha256\":"@ + json_quoted(sha256@) + "}"@,
    {
        let mut s = owned("{\"artifact_class\":\"");
        append(&mut s, class.debug_name().as_str());
        append(&mut s, "\",\"device_path\":");
        append(&mut s, json_string(device_path).as_str());
        append(&mut s, ",\"sha256\":");
        append(&mut s, json_string(sha256).as_str());
        append(&mut s, "}");
        s
    }

    /// The details of a stored artifact's result: its new identifier.
    pub fn artifact_id_details(id: ArtifactId) -> (s: String)
        ensures
            s@ == "{\"artifact_id\":\""@ + uuid_text(id.0) + "\"}"@,
    {
        let mut s = owned("{\"artifact_id\":\"");
        append(&mut s, uuid_string(id.0).as_str());
        append(&mut s, "\"}");
        s
    }

    /// The details of a parser run's intent: the artifact and the parser.
    pub fn parser_intent_details(artifact: ArtifactId, parser_id: &str) -> (s: String)
        ensures
            s@ == "{\"artifact_id\":\""@ + uuid_text(artifact.0) + "\",\"parser_id\":"@ + json_quoted(
                parser_id@,
            ) + "}"@,
    {
        let mut s = owned("{\"artifact_id\":\"");
        append(&mut s, uuid_string(artifact.0).as_str());
        append(&mut s, "\",\"parser_id\":");
        append(&mut s, json_string(parser_id).as_str());
        append(&mut s, "}");
        s
    }

    /// The result of a parser that panicked.
    pub fn parser_panic_result() -> (r: AuditResult)
        ensures
            r matches AuditResult::Failure(t) && t@ == "Parser panic"@,
    {
        AuditResult::Failure(owned("Parser panic"))
    }
}

} // verus!
