//! Self-verifying exports of the audit log.
//!
//! An export holds every entry, the verification report made just before
//! it, and the SHA-256 hash of the compact JSON of everything else, so that
//! any change to an exported file can be detected.

use vstd::prelude::*;
use vstd::utf8::encode_utf8;
use crate::chain::{chain_intact, reports_on, AuditLogVerifier, ChainStatus, VerificationReport};
use crate::entry::{entry_json, AuditEntry};
use crate::error::OracleResult;
use crate::hash::{hex_lower, sha256_of, ForensicHash};
use crate::json::{json_quoted, json_string};
use crate::text::{append, decimal, decimal_string, owned, str_eq};
use crate::types::utc_now_rfc3339;

verus! {

/// A complete exported audit log with its integrity proofs.
#[derive(Debug, Clone)]
pub struct AuditLogExport {
    /// Format version.
    pub export_version: String,
    /// When the export was made (RFC 3339).
    pub exported_at: String,
    /// Every entry, in index order.
    pub entries: Vec<AuditEntry>,
    /// The verification report made just before the export.
    pub verification: VerificationReport,
    /// SHA-256 (lowercase hex) of the compact JSON of the fields above.
    pub export_hash: String,
}

/// The entries `es` as the items of a JSON array, separated by commas.
pub open spec fn entries_items_json(es: Seq<AuditEntry>) -> Seq<char>
    decreases es.len(),
{
    if es.len() == 0 {
        Seq::empty()
    } else if es.len() == 1 {
        entry_json(es[0])
    } else {
        entries_items_json(es.drop_last()) + ","@ + entry_json(es.last())
    }
}

/// The JSON of an optional number: `null` or its digits.
pub open spec fn optional_number_json(n: Option<u64>) -> Seq<char> {
    match n {
        None => "null"@,
        Some(k) => decimal(k as nat),
    }
}

/// The JSON of an optional string: `null` or the string literal.
pub open spec fn optional_string_json(s: Option<String>) -> Seq<char> {
    match s {
        None => "null"@,
        Some(t) => json_quoted(t@),
    }
}

/// The JSON of a chain status.
pub open spec fn status_json(s: ChainStatus) -> Seq<char> {
    match s {
        ChainStatus::Intact => "\"Intact\""@,
        ChainStatus::Broken => "\"Broken\""@,
    }
}

/// The compact JSON object of a verification report, fields in order.
pub open spec fn report_json(r: VerificationReport) -> Seq<char> {
    "{\"total_entries\":"@ + decimal(r.total_entries as nat) + ",\"verified_entries\":"@ + decimal(
        r.verified_entries as nat,
    ) + ",\"first_broken_entry\":"@ + optional_number_json(r.first_broken_entry)
        + ",\"failure_description\":"@ + optional_string_json(r.failure_description)
        + ",\"verification_timestamp\":"@ + json_quoted(r.verification_timestamp@)
        + ",\"overall_status\":"@ + status_json(r.overall_status) + "}"@
}

/// The hashed payload of an export: the compact JSON object of every field
/// but `export_hash`, in order.
pub open spec fn payload_json(
    version: Seq<char>,
    exported_at: Seq<char>,
    es: Seq<AuditEntry>,
    report: VerificationReport,
) -> Seq<char> {
    "{\"export_version\":"@ + json_quoted(version) + ",\"exported_at\":"@ + json_quoted(exported_at)
        + ",\"entries\":["@ + entries_items_json(es) + "],\"verification\":"@ + report_json(report)
        + "}"@
}

/// The hash an export must carry.
pub open spec fn payload_hash(
    version: Seq<char>,
    exported_at: Seq<char>,
    es: Seq<AuditEntry>,
    report: VerificationReport,
) -> Seq<char> {
    hex_lower(sha256_of(encode_utf8(payload_json(version, exported_at, es, report))))
}

/// The hash that `x` must carry for its own fields.
pub open spec fn export_hash_of(x: AuditLogExport) -> Seq<char> {
    payload_hash(x.export_version@, x.exported_at@, x.entries@, x.verification)
}

fn entries_items_text(es: &Vec<AuditEntry>) -> (s: String)
    ensures
        s@ == entries_items_json(es@),
{
    let mut s = String::new();
    let mut i: usize = 0;
    while i < es.len()
        invariant
            0 <= i <= es.len(),
            s@ == entries_items_json(es@.take(i as int)),
        decreases es.len() - i,
    {
        assert(es@.take(i + 1).drop_last() =~= es@.take(i as int));
        if i > 0 {
            append(&mut s, ",");
        }
        append(&mut s, es[i].json_text().as_str());
        proof {
            if i == 0 {
                assert(s@ =~= entries_items_json(es@.take(1)));
            }
        }
        i = i + 1;
    }
    assert(es@.take(es.len() as int) =~= es@);
    s
}

fn report_text(r: &VerificationReport) -> (s: String)
    ensures
        s@ == report_json(*r),
{
    let mut s = owned("{\"total_entries\":");
    append(&mut s, decimal_string(r.total_entries).as_str());
    append(&mut s, ",\"verified_entries\":");
    append(&mut s, decimal_string(r.verified_entries).as_str());
    append(&mut s, ",\"first_broken_entry\":");
    match r.first_broken_entry {
        None => append(&mut s, "null"),
        Some(k) => append(&mut s, decimal_string(k).as_str()),
    }
    append(&mut s, ",\"failure_description\":");
    match &r.failure_description {
        None => append(&mut s, "null"),
        Some(d) => append(&mut s, json_string(d.as_str()).as_str()),
    }
    append(&mut s, ",\"verification_timestamp\":");
    append(&mut s, json_string(r.verification_timestamp.as_str()).as_str());
    append(&mut s, ",\"overall_status\":");
    match r.overall_status {
        ChainStatus::Intact => append(&mut s, "\"Intact\""),
        ChainStatus::Broken => append(&mut s, "\"Broken\""),
    }
    append(&mut s, "}");
    s
}

fn payload_text(
    version: &str,
    exported_at: &str,
    es: &Vec<AuditEntry>,
    report: &VerificationReport,
) -> (s: String)
    ensures
        s@ == payload_json(version@, exported_at@, es@, *report),
{
    let mut s = owned("{\"export_version\":");
    append(&mut s, json_string(version).as_str());
    append(&mut s, ",\"exported_at\":");
    append(&mut s, json_string(exported_at).as_str());
    append(&mut s, ",\"entries\":[");
    append(&mut s, entries_items_text(es).as_str());
    append(&mut s, "],\"verification\":");
    append(&mut s, report_text(report).as_str());
    append(&mut s, "}");
    s
}

impl AuditLogExport {
    /// Assembles an export of format version `1.0.0` from the entries, the
    /// report made just before and the export time, with its hash.
    pub fn assemble(entries: Vec<AuditEntry>, verification: VerificationReport, exported_at: String) -> (x:
        AuditLogExport)
        ensures
            x.export_version@ == "1.0.0"@,
            x.exported_at@ == exported_at@,
            x.entries@ == entries@,
            x.verification == verification,
            x.export_hash@ == export_hash_of(x),
    {
        let export_version = owned("1.0.0");
        let payload = payload_text(export_version.as_str(), exported_at.as_str(), &entries, &verification);
        let export_hash = ForensicHash::from_bytes(payload.as_str().as_bytes()).to_hex();
        AuditLogExport { export_version, exported_at, entries, verification, export_hash }
    }
}

/// The compact JSON of a whole export: the hashed payload's fields, then
/// `export_hash`.
pub open spec fn export_json(x: AuditLogExport) -> Seq<char> {
    "{\"export_version\":"@ + json_quoted(x.export_version@) + ",\"exported_at\":"@ + json_quoted(
        x.exported_at@,
    ) + ",\"entries\":["@ + entries_items_json(x.entries@) + "],\"verification\":"@ + report_json(
        x.verification,
    ) + ",\"export_hash\":"@ + json_quoted(x.export_hash@) + "}"@
}

impl AuditLogExport {
    /// The export as compact JSON, fields in order.
    pub fn json_text(&self) -> (s: String)
        ensures
            s@ == export_json(*self),
    {
        let mut s = owned("{\"export_version\":");
        append(&mut s, json_string(self.export_version.as_str()).as_str());
        append(&mut s, ",\"exported_at\":");
        append(&mut s, json_string(self.exported_at.as_str()).as_str());
        append(&mut s, ",\"entries\":[");
        append(&mut s, entries_items_text(&self.entries).as_str());
        append(&mut s, "],\"verification\":");
        append(&mut s, report_text(&self.verification).as_str());
        append(&mut s, ",\"export_hash\":");
        append(&mut s, json_string(self.export_hash.as_str()).as_str());
        append(&mut s, "}");
        s
    }
}

/// Exports an audit log, given its entries in index order: verifies the
/// chain, assembles the export at the current time (RFC 3339), and returns
/// it with the JSON text to be written out.
pub fn export_audit_log(entries: Vec<AuditEntry>) -> (r: (AuditLogExport, String))
    ensures
        r.0.export_version@ == "1.0.0"@,
        r.0.entries@ == entries@,
        reports_on(r.0.verification, entries@),
        r.0.export_hash@ == export_hash_of(r.0),
        r.1@ == export_json(r.0),
{
    let verification = AuditLogVerifier::new(entries.as_slice()).verify_full().unwrap();
    let x = AuditLogExport::assemble(entries, verification, utc_now_rfc3339());
    let text = x.json_text();
    (x, text)
}

/// Whether an export's `export_hash` matches its content. Always `Ok`.
pub fn verify_export_hash(export: &AuditLogExport) -> (r: OracleResult<bool>)
    ensures
        r matches Ok(b) && (b <==> export.export_hash@ == export_hash_of(*export)),
{
    let payload = payload_text(
        export.export_version.as_str(),
        export.exported_at.as_str(),
        &export.entries,
        &export.verification,
    );
    let recomputed = ForensicHash::from_bytes(payload.as_str().as_bytes()).to_hex();
    Ok(str_eq(recomputed.as_str(), export.export_hash.as_str()))
}

/// An assembled export verifies: `verify_export_hash` returns `Ok(true)` for
/// every export that `assemble` builds, and `Ok(false)` for any export whose
/// hash was replaced by a different text.
pub proof fn law_assembled_export_verifies(x: AuditLogExport, altered: AuditLogExport)
    requires
        x.export_hash@ == export_hash_of(x),
        altered == (AuditLogExport { export_hash: altered.export_hash, ..x }),
        altered.export_hash@ != x.export_hash@,
    ensures
        x.export_hash@ == export_hash_of(x),
        altered.export_hash@ != export_hash_of(altered),
{
}

/// An export of an intact log proves it intact: when the entries form an
/// intact chain, the report that `export_audit_log` puts in the export
/// says so, counts every entry as verified and names no broken entry.
pub proof fn law_export_of_intact_log(entries: Seq<AuditEntry>, x: AuditLogExport)
    requires
        chain_intact(entries),
        x.entries@ == entries,
        reports_on(x.verification, entries),
    ensures
        x.verification.overall_status == ChainStatus::Intact,
        x.verification.total_entries == entries.len(),
        x.verification.verified_entries == entries.len(),
        x.verification.first_broken_entry is None,
        x.verification.failure_description is None,
{
}

} // verus!
