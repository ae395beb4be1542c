//! What the commands decide and record: where an investigation's files
//! live, how its identifier is read from the command line, which device a
//! connection finds, which case an investigation belongs to, and the
//! details the audit log keeps of creation, connection, detection and
//! integrity verification.

use vstd::prelude::*;
use crate::adb::{find_device, first_with_serial, AdbDevice, AdbDeviceState};
use crate::chain::ChainStatus;
use crate::config::{ends_with, join_path, lemma_name_plain, OracleConfig};
use crate::entry::AuditEntry;
use crate::json::{json_quoted, json_string};
use crate::run_records::{examiner_json, examiner_text};
use crate::text::{append, chars_of, debug_text, debug_text_of, decimal, decimal_string, owned, push_char};
use crate::types::{
    encryption_state_name, root_method_name, selinux_mode_name, uuid_string, uuid_text,
    AuditOperationType, AuditResult, CapabilityProfile, ExaminerIdentity, InvestigationId,
};

verus! {

/// The UUID value that the text `s` denotes, as `uuid::Uuid::parse_str`
/// reads it (hyphenated, simple, braced or URN form), or none when it
/// denotes none.
pub uninterp spec fn uuid_parsed(s: Seq<char>) -> Option<u128>;

/// Calls `uuid::Uuid::parse_str` and takes the value as a `u128`. The
/// result is named `uuid_parsed` of the text: parsing depends on the text
/// alone.
#[verifier::external_body]
fn parse_uuid(s: &str) -> (r: Option<u128>)
    ensures
        r == uuid_parsed(s@),
{
    match uuid::Uuid::parse_str(s) {
        Ok(u) => Some(u.as_u128()),
        Err(_) => None,
    }
}

/// The message for an identifier that is not a UUID.
pub const INVALID_INVESTIGATION_ID: &'static str = "Invalid Investigation ID format (must be a valid UUID)";

/// Reads an investigation identifier given as a UUID.
pub fn parse_investigation_id(id_str: &str) -> (r: Result<InvestigationId, String>)
    ensures
        match uuid_parsed(id_str@) {
            Some(v) => r == Ok::<InvestigationId, String>(InvestigationId(v)),
            None => r matches Err(m) && m@ == INVALID_INVESTIGATION_ID@,
        },
{
    match parse_uuid(id_str) {
        Some(v) => Ok(InvestigationId(v)),
        None => Err(owned(INVALID_INVESTIGATION_ID)),
    }
}

/// Every character of a UUID's text is a lower-case hexadecimal digit or a
/// hyphen.
proof fn lemma_uuid_text_plain(v: u128)
    ensures
        crate::config::plain_component(uuid_text(v)),
{
    let t = uuid_text(v);
    assert forall|i: int| 0 <= i < t.len() implies ('a' <= #[trigger] t[i] <= 'z') || ('0' <= t[i]
        <= '9') || t[i] == '.' || t[i] == '-' by {
        if t[i] != '-' {
            let j: int = if i < 8 {
                i
            } else if i < 13 {
                i - 1
            } else if i < 18 {
                i - 2
            } else if i < 23 {
                i - 3
            } else {
                i - 4
            };
            assert(t[i] == crate::hash::hex_digit(crate::types::uuid_nibble(v, j)));
            let n = crate::types::uuid_nibble(v, j);
            assert(0 <= n < 16);
        }
    }
    lemma_name_plain(t);
}

/// The evidence store directory of an investigation: the investigations
/// directory joined with the identifier's text.
pub fn investigation_store_dir(config: &OracleConfig, investigation_id: InvestigationId) -> (r: String)
    ensures
        ends_with(r@, uuid_text(investigation_id.0)),
{
    let name = uuid_string(investigation_id.0);
    proof {
        lemma_uuid_text_plain(investigation_id.0);
    }
    join_path(config.general.investigations_dir.as_str(), name.as_str())
}

/// The path of the audit database: `audit.db` in the investigations
/// directory.
pub fn audit_db_path(config: &OracleConfig) -> (r: String)
    ensures
        ends_with(r@, "audit.db"@),
{
    proof {
        reveal_strlit("audit.db");
        lemma_name_plain("audit.db"@);
    }
    join_path(config.general.investigations_dir.as_str(), "audit.db")
}

/// The debug name of a chain status.
pub open spec fn chain_status_name(s: ChainStatus) -> Seq<char> {
    match s {
        ChainStatus::Intact => "Intact"@,
        ChainStatus::Broken => "Broken"@,
    }
}

/// The display text of a chain status.
pub open spec fn chain_status_text(s: ChainStatus) -> Seq<char> {
    match s {
        ChainStatus::Intact => "INTACT"@,
        ChainStatus::Broken => "BROKEN"@,
    }
}

/// The text of a boolean.
pub open spec fn bool_text(b: bool) -> Seq<char> {
    if b {
        "true"@
    } else {
        "false"@
    }
}

fn bool_string(b: bool) -> (r: String)
    ensures
        r@ == bool_text(b),
{
    if b {
        owned("true")
    } else {
        owned("false")
    }
}

/// The outcome recorded for an integrity verification: success when the
/// audit chain is intact and every stored artifact still matches its hash,
/// else a failure that names both findings.
pub fn integrity_outcome(audit: ChainStatus, evidence_clean: bool) -> (r: AuditResult)
    ensures
        audit == ChainStatus::Intact && evidence_clean ==> r == AuditResult::Success,
        !(audit == ChainStatus::Intact && evidence_clean) ==> (r matches AuditResult::Failure(t)
            && t@ == "Integrity check failed: audit_chain="@ + chain_status_name(audit)
            + ", evidence_clean="@ + bool_text(evidence_clean)),
{
    if audit == ChainStatus::Intact && evidence_clean {
        AuditResult::Success
    } else {
        let mut t = owned("Integrity check failed: audit_chain=");
        match audit {
            ChainStatus::Intact => append(&mut t, "Intact"),
            ChainStatus::Broken => append(&mut t, "Broken"),
        }
        append(&mut t, ", evidence_clean=");
        let b = bool_string(evidence_clean);
        append(&mut t, b.as_str());
        AuditResult::Failure(t)
    }
}

/// The details recorded with an integrity verification (compact JSON,
/// keys in order): the chain status, whether the evidence is clean, and
/// the numbers of failed and of all stored artifacts.
pub fn integrity_details(audit: ChainStatus, evidence_clean: bool, total: usize, failed: usize) -> (r: String)
    ensures
        r@ == "{\"audit_chain_status\":\""@ + chain_status_text(audit)
            + "\",\"evidence_integrity_clean\":"@ + bool_text(evidence_clean)
            + ",\"failed_artifacts\":"@ + decimal(failed as nat) + ",\"total_artifacts\":"@
            + decimal(total as nat) + "}"@,
{
    let mut r = owned("{\"audit_chain_status\":\"");
    let st = audit.display_text();
    append(&mut r, st.as_str());
    append(&mut r, "\",\"evidence_integrity_clean\":");
    let b = bool_string(evidence_clean);
    append(&mut r, b.as_str());
    append(&mut r, ",\"failed_artifacts\":");
    let f = decimal_string(failed as u64);
    append(&mut r, f.as_str());
    append(&mut r, ",\"total_artifacts\":");
    let t = decimal_string(total as u64);
    append(&mut r, t.as_str());
    append(&mut r, "}");
    r
}

/// The first entry at or after `i` that belongs to the investigation `id`
/// and, when `created_only`, records its creation.
pub open spec fn first_entry_from(es: Seq<AuditEntry>, id: InvestigationId, created_only: bool, i: int) -> Option<AuditEntry>
    decreases es.len() - i,
{
    if i < 0 || i >= es.len() {
        None
    } else if es[i].investigation_id == Some(id) && (!created_only || es[i].operation
        is InvestigationCreated) {
        Some(es[i])
    } else {
        first_entry_from(es, id, created_only, i + 1)
    }
}

/// The case name and examiner of an investigation, read from its audit
/// entries in order: the subject and actor of the entry that created it;
/// failing that, of its first entry; failing that, `Investigation` and
/// `UNKNOWN`.
pub open spec fn case_details_of(es: Seq<AuditEntry>, id: InvestigationId) -> (Seq<char>, Seq<char>) {
    match first_entry_from(es, id, true, 0) {
        Some(e) => (e.subject@, e.actor@),
        None => match first_entry_from(es, id, false, 0) {
            Some(e) => (e.subject@, e.actor@),
            None => ("Investigation"@, "UNKNOWN"@),
        },
    }
}

/// The position of the first entry that `first_entry_from` picks.
fn find_entry(es: &Vec<AuditEntry>, id: InvestigationId, created_only: bool) -> (r: Option<usize>)
    ensures
        match r {
            Some(k) => k < es@.len() && first_entry_from(es@, id, created_only, 0) == Some(es@[k as int]),
            None => first_entry_from(es@, id, created_only, 0) is None,
        },
{
    let mut i: usize = 0;
    while i < es.len()
        invariant
            i <= es@.len(),
            first_entry_from(es@, id, created_only, 0) == first_entry_from(es@, id, created_only, i as int),
        decreases es@.len() - i,
    {
        let e = &es[i];
        let same = match e.investigation_id {
            Some(x) => x.0 == id.0,
            None => false,
        };
        let created = match e.operation {
            AuditOperationType::InvestigationCreated => true,
            _ => false,
        };
        if same && (!created_only || created) {
            return Some(i);
        }
        i = i + 1;
    }
    None
}

/// The case name and examiner of the investigation `id`, given its audit
/// log's entries in index order.
pub fn case_details(entries: &Vec<AuditEntry>, id: InvestigationId) -> (r: (String, String))
    ensures
        (r.0@, r.1@) == case_details_of(entries@, id),
{
    match find_entry(entries, id, true) {
        Some(k) => (owned(entries[k].subject.as_str()), owned(entries[k].actor.as_str())),
        None => match find_entry(entries, id, false) {
            Some(k) => (owned(entries[k].subject.as_str()), owned(entries[k].actor.as_str())),
            None => (owned("Investigation"), owned("UNKNOWN")),
        },
    }
}

/// The examiner a pipeline run is attributed to: the recorded examiner's
/// name, no badge, and the configured organization.
pub fn ingest_examiner(name: String, config: &OracleConfig) -> (x: ExaminerIdentity)
    ensures
        x.name == name,
        x.badge_id@ == "N/A"@,
        x.organization@ == config.general.organization_name@,
{
    ExaminerIdentity {
        name,
        badge_id: owned("N/A"),
        organization: owned(config.general.organization_name.as_str()),
    }
}

/// `s` with every space replaced by an underscore.
pub open spec fn spaces_to_underscores(s: Seq<char>) -> Seq<char> {
    s.map_values(|c: char| if c == ' ' { '_' } else { c })
}

/// The base name of the report files: `report_`, the case name with its
/// spaces made underscores, `_` and the investigation identifier.
pub fn report_base_filename(case_name: &str, id: InvestigationId) -> (r: String)
    ensures
        r@ == "report_"@ + spaces_to_underscores(case_name@) + "_"@ + uuid_text(id.0),
{
    let cs = chars_of(case_name);
    let mut r = owned("report_");
    let ghost start = r@;
    let mut i: usize = 0;
    while i < cs.len()
        invariant
            i <= cs@.len(),
            cs@ == case_name@,
            start == "report_"@,
            r@ == start + spaces_to_underscores(cs@.take(i as int)),
        decreases cs@.len() - i,
    {
        let c = cs[i];
        if c == ' ' {
            push_char(&mut r, '_');
        } else {
            push_char(&mut r, c);
        }
        proof {
            assert(spaces_to_underscores(cs@.take(i as int + 1)) =~= spaces_to_underscores(
                cs@.take(i as int),
            ).push(if c == ' ' { '_' } else { c }));
        }
        i = i + 1;
    }
    proof {
        assert(cs@.take(cs@.len() as int) =~= cs@);
    }
    append(&mut r, "_");
    let t = uuid_string(id.0);
    append(&mut r, t.as_str());
    r
}

/// The details recorded when the reports are written (compact JSON, keys
/// in order): the integrity seal and the two paths.
pub fn report_export_details(json_path: &str, pdf_path: &str, integrity_seal: &str) -> (r: String)
    ensures
        r@ == "{\"integrity_seal\":"@ + json_quoted(integrity_seal@) + ",\"json_path\":"@
            + json_quoted(json_path@) + ",\"pdf_path\":"@ + json_quoted(pdf_path@) + "}"@,
{
    let mut r = owned("{\"integrity_seal\":");
    let a = json_string(integrity_seal);
    append(&mut r, a.as_str());
    append(&mut r, ",\"json_path\":");
    let b = json_string(json_path);
    append(&mut r, b.as_str());
    append(&mut r, ",\"pdf_path\":");
    let c = json_string(pdf_path);
    append(&mut r, c.as_str());
    append(&mut r, "}");
    r
}

/// The JSON of an optional string: `null` or the string literal.
pub open spec fn optional_text_json(s: Option<Seq<char>>) -> Seq<char> {
    match s {
        Some(t) => json_quoted(t),
        None => "null"@,
    }
}

/// The details of the intent that creates an investigation (compact JSON,
/// keys in order): the case name, the description (or `null`) and the
/// examiner.
pub fn new_investigation_details(case_name: &str, examiner: &ExaminerIdentity, description: Option<&str>) -> (s: String)
    ensures
        s@ == "{\"case_name\":"@ + json_quoted(case_name@) + ",\"description\":"@ + optional_text_json(
            match description {
                Some(d) => Some(d@),
                None => None,
            },
        ) + ",\"examiner\":"@ + examiner_json(*examiner) + "}"@,
{
    let mut s = owned("{\"case_name\":");
    append(&mut s, json_string(case_name).as_str());
    append(&mut s, ",\"description\":");
    match description {
        Some(d) => append(&mut s, json_string(d).as_str()),
        None => append(&mut s, "null"),
    }
    append(&mut s, ",\"examiner\":");
    append(&mut s, examiner_text(examiner).as_str());
    append(&mut s, "}");
    s
}

/// The details of a created investigation (compact JSON, keys in order):
/// its identifier and its evidence store directory.
pub fn new_investigation_result_details(id: InvestigationId, store_dir: &str) -> (s: String)
    ensures
        s@ == "{\"investigation_id\":\""@ + uuid_text(id.0) + "\",\"store_dir\":"@ + json_quoted(
            store_dir@,
        ) + "}"@,
{
    let mut s = owned("{\"investigation_id\":\"");
    append(&mut s, uuid_string(id.0).as_str());
    append(&mut s, "\",\"store_dir\":");
    append(&mut s, json_string(store_dir).as_str());
    append(&mut s, "}");
    s
}

/// The message for a command that needs the audit database before any
/// investigation has created it.
pub const NO_AUDIT_DATABASE: &'static str = "Audit database does not exist. Create an investigation first.";

/// The message of an acquisition for an investigation whose workspace is
/// missing.
pub fn missing_workspace_message(store_dir: &str) -> (m: String)
    ensures
        m@ == "Investigation workspace does not exist: "@ + store_dir@ + ". Run new-investigation first."@,
{
    let mut m = owned("Investigation workspace does not exist: ");
    append(&mut m, store_dir);
    append(&mut m, ". Run new-investigation first.");
    m
}

/// The message of a pipeline run for an investigation whose workspace is
/// missing.
pub fn missing_investigation_message(store_dir: &str) -> (m: String)
    ensures
        m@ == "Investigation workspace directory does not exist: "@ + store_dir@
            + ". Has this investigation been created?"@,
{
    let mut m = owned("Investigation workspace directory does not exist: ");
    append(&mut m, store_dir);
    append(&mut m, ". Has this investigation been created?");
    m
}

/// The `Debug` text of a device state: the variant's name, with the state
/// text in its `Debug` form for an unknown state.
pub open spec fn device_state_debug(st: AdbDeviceState) -> Seq<char> {
    match st {
        AdbDeviceState::Device => "Device"@,
        AdbDeviceState::Offline => "Offline"@,
        AdbDeviceState::Unauthorized => "Unauthorized"@,
        AdbDeviceState::Unknown(s) => "Unknown("@ + debug_text_of(s@) + ")"@,
    }
}

fn device_state_debug_text(st: &AdbDeviceState) -> (s: String)
    ensures
        s@ == device_state_debug(*st),
{
    match st {
        AdbDeviceState::Device => owned("Device"),
        AdbDeviceState::Offline => owned("Offline"),
        AdbDeviceState::Unauthorized => owned("Unauthorized"),
        AdbDeviceState::Unknown(t) => {
            let mut s = owned("Unknown(");
            append(&mut s, debug_text(t.as_str()).as_str());
            append(&mut s, ")");
            s
        },
    }
}

/// The serials of `ds` as JSON string literals separated by commas.
pub open spec fn quoted_serials(ds: Seq<AdbDevice>) -> Seq<char>
    decreases ds.len(),
{
    if ds.len() == 0 {
        Seq::empty()
    } else if ds.len() == 1 {
        json_quoted(ds[0].serial@)
    } else {
        quoted_serials(ds.drop_last()) + ","@ + json_quoted(ds.last().serial@)
    }
}

/// The serials of `ds` in their `Debug` form separated by `, `.
pub open spec fn debug_serials(ds: Seq<AdbDevice>) -> Seq<char>
    decreases ds.len(),
{
    if ds.len() == 0 {
        Seq::empty()
    } else if ds.len() == 1 {
        debug_text_of(ds[0].serial@)
    } else {
        debug_serials(ds.drop_last()) + ", "@ + debug_text_of(ds.last().serial@)
    }
}

/// The serials of `ds`: as JSON string literals separated by `,` when
/// `json`, else in `Debug` form separated by `, `.
fn serials_text(ds: &Vec<AdbDevice>, json: bool) -> (s: String)
    ensures
        s@ == (if json {
            quoted_serials(ds@)
        } else {
            debug_serials(ds@)
        }),
{
    let mut s = String::new();
    let mut i: usize = 0;
    while i < ds.len()
        invariant
            i <= ds@.len(),
            s@ == (if json {
                quoted_serials(ds@.take(i as int))
            } else {
                debug_serials(ds@.take(i as int))
            }),
        decreases ds@.len() - i,
    {
        proof {
            assert(ds@.take(i as int + 1).drop_last() =~= ds@.take(i as int));
        }
        if i > 0 {
            if json {
                append(&mut s, ",");
            } else {
                append(&mut s, ", ");
            }
        }
        if json {
            append(&mut s, json_string(ds[i].serial.as_str()).as_str());
        } else {
            append(&mut s, debug_text(ds[i].serial.as_str()).as_str());
        }
        proof {
            if i == 0 {
                assert(s@ =~= (if json {
                    quoted_serials(ds@.take(1))
                } else {
                    debug_serials(ds@.take(1))
                }));
            }
        }
        i = i + 1;
    }
    proof {
        assert(ds@.take(ds@.len() as int) =~= ds@);
    }
    s
}

/// The details of an intent that names the device it concerns.
pub fn serial_details(serial: &str) -> (s: String)
    ensures
        s@ == "{\"serial\":"@ + json_quoted(serial@) + "}"@,
{
    let mut s = owned("{\"serial\":");
    append(&mut s, json_string(serial).as_str());
    append(&mut s, "}");
    s
}

/// What connecting to a device records: whether it was listed, the
/// result, and the result's details (compact JSON).
#[derive(Debug)]
pub struct ConnectOutcome {
    pub found: bool,
    pub result: AuditResult,
    pub details: String,
}

/// The outcome of connecting to the device `serial`, given the devices
/// ADB lists: success with its state and transport when it is listed,
/// else a failure that lists the serials available.
pub fn connect_outcome(devices: &Vec<AdbDevice>, serial: &str) -> (o: ConnectOutcome)
    ensures
        match first_with_serial(devices@, serial@, 0) {
            Some(k) => {
                &&& o.found
                &&& o.result == AuditResult::Success
                &&& o.details@ == "{\"serial\":"@ + json_quoted(serial@) + ",\"state\":"@
                    + json_quoted(device_state_debug(devices@[k].state)) + ",\"transport\":"@
                    + json_quoted(devices@[k].transport_type@) + "}"@
            },
            None => {
                &&& !o.found
                &&& o.result matches AuditResult::Failure(t) && t@ == "Device "@ + serial@
                    + " not found"@
                &&& o.details@ == "{\"available_devices\":["@ + quoted_serials(devices@) + "]}"@
            },
        },
{
    match find_device(devices, serial) {
        Some(k) => {
            let mut d = owned("{\"serial\":");
            append(&mut d, json_string(serial).as_str());
            append(&mut d, ",\"state\":");
            let st = device_state_debug_text(&devices[k].state);
            append(&mut d, json_string(st.as_str()).as_str());
            append(&mut d, ",\"transport\":");
            append(&mut d, json_string(devices[k].transport_type.as_str()).as_str());
            append(&mut d, "}");
            ConnectOutcome { found: true, result: AuditResult::Success, details: d }
        },
        None => {
            let mut t = owned("Device ");
            append(&mut t, serial);
            append(&mut t, " not found");
            let mut d = owned("{\"available_devices\":[");
            append(&mut d, serials_text(devices, true).as_str());
            append(&mut d, "]}");
            ConnectOutcome { found: false, result: AuditResult::Failure(t), details: d }
        },
    }
}

/// The error of connecting to a device that ADB does not list.
pub fn device_not_found_message(devices: &Vec<AdbDevice>, serial: &str) -> (m: String)
    ensures
        m@ == "Device '"@ + serial@ + "' not found. Available devices: ["@ + debug_serials(devices@)
            + "]"@,
{
    let mut m = owned("Device '");
    append(&mut m, serial);
    append(&mut m, "' not found. Available devices: [");
    append(&mut m, serials_text(devices, false).as_str());
    append(&mut m, "]");
    m
}

/// The details of a completed capability detection on its own (compact
/// JSON, keys in order): the numbers of accessible classes and available
/// methods, the encryption state, root method and SELinux mode.
pub fn detection_result_details(profile: &CapabilityProfile) -> (s: String)
    ensures
        s@ == "{\"accessible_classes\":"@ + decimal(profile.accessible_artifact_classes@.len())
            + ",\"available_methods\":"@ + decimal(profile.available_methods@.len())
            + ",\"encryption_state\":\""@ + encryption_state_name(profile.encryption_state)
            + "\",\"root_method\":\""@ + root_method_name(profile.root_method)
            + "\",\"selinux_mode\":\""@ + selinux_mode_name(profile.selinux_mode) + "\"}"@,
{
    let mut s = owned("{\"accessible_classes\":");
    append(&mut s, decimal_string(profile.accessible_artifact_classes.len() as u64).as_str());
    append(&mut s, ",\"available_methods\":");
    append(&mut s, decimal_string(profile.available_methods.len() as u64).as_str());
    append(&mut s, ",\"encryption_state\":\"");
    append(&mut s, profile.encryption_state.debug_name().as_str());
    append(&mut s, "\",\"root_method\":\"");
    append(&mut s, profile.root_method.debug_name().as_str());
    append(&mut s, "\",\"selinux_mode\":\"");
    append(&mut s, profile.selinux_mode.debug_name().as_str());
    append(&mut s, "\"}");
    s
}

/// The names among `names` that are investigation identifiers (UUIDs), in
/// order.
pub open spec fn case_names(names: Seq<Seq<char>>) -> Seq<Seq<char>> {
    names.filter(|n: Seq<char>| uuid_parsed(n) is Some)
}

/// The case workspaces among the directory names of the investigations
/// directory: those that are investigation identifiers, in order.
pub fn case_workspaces(names: &Vec<String>) -> (r: Vec<String>)
    ensures
        r@.map_values(|s: String| s@) == case_names(names@.map_values(|s: String| s@)),
{
    let ghost views = names@.map_values(|s: String| s@);
    let mut r: Vec<String> = Vec::new();
    let mut i: usize = 0;
    while i < names.len()
        invariant
            i <= names@.len(),
            views == names@.map_values(|s: String| s@),
            r@.map_values(|s: String| s@) == case_names(views.take(i as int)),
        decreases names@.len() - i,
    {
        proof {
            reveal(Seq::filter);
            assert(views.take(i as int + 1).drop_last() =~= views.take(i as int));
        }
        let ghost before = r@;
        if parse_uuid(names[i].as_str()).is_some() {
            r.push(owned(names[i].as_str()));
            proof {
                assert(r@.map_values(|s: String| s@) =~= before.map_values(|s: String| s@).push(
                    views[i as int],
                ));
            }
        }
        i = i + 1;
    }
    proof {
        assert(views.take(names@.len() as int) =~= views);
    }
    r
}

/// The number of entries of `es` that belong to the investigation `id`.
pub open spec fn entries_of(es: Seq<AuditEntry>, id: InvestigationId) -> nat {
    es.filter(|e: AuditEntry| e.investigation_id == Some(id)).len()
}

/// The number of audit entries that belong to the investigation `id`.
pub fn investigation_entry_count(entries: &Vec<AuditEntry>, id: InvestigationId) -> (n: usize)
    ensures
        n == entries_of(entries@, id),
{
    let mut n: usize = 0;
    let mut i: usize = 0;
    while i < entries.len()
        invariant
            i <= entries@.len(),
            n == entries_of(entries@.take(i as int), id),
            n <= i,
        decreases entries@.len() - i,
    {
        proof {
            reveal(Seq::filter);
            assert(entries@.take(i as int + 1).drop_last() =~= entries@.take(i as int));
        }
        let same = match entries[i].investigation_id {
            Some(x) => x.0 == id.0,
            None => false,
        };
        if same {
            n = n + 1;
        }
        i = i + 1;
    }
    proof {
        assert(entries@.take(entries@.len() as int) =~= entries@);
    }
    n
}

} // verus!
