//! Entries of the hash-chained audit log.
//!
//! Each entry's hash is `SHA-256(previous_hash_bytes || content)`, where
//! `content` is the compact JSON of every field but `entry_hash`, in
//! declaration order. The chain therefore makes any change to a recorded
//! field, and any reordering of entries, visible to the verifier.

use vstd::prelude::*;
use vstd::utf8::encode_utf8;
use crate::error::{OracleError, OracleResult};
use crate::hash::{
    hex_decoded, hex_lower, is_hex_text, joined, lemma_hex_lower_decodes, sha256_of, ForensicHash,
};
use crate::json::{json_quoted, json_string};
use crate::text::{append, decimal, decimal_string, owned, str_eq};
use crate::types::{
    operation_json, random_uuid, result_json, utc_now_text, uuid_string, uuid_text,
    AuditOperationType, AuditResult, InvestigationId,
};

verus! {

/// One immutable entry of the audit log.
///
/// `entry_id` is a UUID value; `timestamp` is the RFC 3339 text of the
/// creation instant in UTC (`Z` suffix); `details` is the structured
/// metadata as compact JSON text; `previous_hash` and `entry_hash` are
/// 64 lowercase hexadecimal digits.
#[derive(Debug, Clone)]
pub struct AuditEntry {
    pub entry_id: u128,
    pub entry_index: u64,
    pub timestamp: String,
    pub investigation_id: Option<InvestigationId>,
    pub operation: AuditOperationType,
    pub actor: String,
    pub subject: String,
    pub details: String,
    pub result: AuditResult,
    pub previous_hash: String,
    pub entry_hash: String,
}

/// The JSON text of an optional investigation: `null` or its UUID string.
pub open spec fn investigation_json(id: Option<InvestigationId>) -> Seq<char> {
    match id {
        None => "null"@,
        Some(i) => json_quoted(uuid_text(i.0)),
    }
}

/// The compact JSON of the fields of `e` up to `previous_hash`, without the
/// closing brace.
pub open spec fn fields_json(e: AuditEntry) -> Seq<char> {
    "{\"entry_id\":"@ + json_quoted(uuid_text(e.entry_id)) + ",\"entry_index\":"@ + decimal(
        e.entry_index as nat,
    ) + ",\"timestamp\":"@ + json_quoted(e.timestamp@) + ",\"investigation_id\":"@
        + investigation_json(e.investigation_id) + ",\"operation\":"@ + operation_json(e.operation)
        + ",\"actor\":"@ + json_quoted(e.actor@) + ",\"subject\":"@ + json_quoted(e.subject@)
        + ",\"details\":"@ + e.details@ + ",\"result\":"@ + result_json(e.result)
        + ",\"previous_hash\":"@ + json_quoted(e.previous_hash@)
}

/// The hashed content of `e`: the compact JSON object of every field except
/// `entry_hash`, in declaration order.
pub open spec fn content_json(e: AuditEntry) -> Seq<char> {
    fields_json(e) + "}"@
}

/// The compact JSON object of all fields of `e`, in declaration order.
pub open spec fn entry_json(e: AuditEntry) -> Seq<char> {
    fields_json(e) + ",\"entry_hash\":"@ + json_quoted(e.entry_hash@) + "}"@
}

/// `h` is the text of a hash: 64 hexadecimal digits.
pub open spec fn is_hash_text(h: Seq<char>) -> bool {
    is_hex_text(encode_utf8(h)) && encode_utf8(h).len() == 64
}

/// The hash that `e` must carry: the lowercase hex of
/// `SHA-256(bytes of previous_hash || UTF-8 of content)`.
pub open spec fn chained_hash(e: AuditEntry) -> Seq<char> {
    hex_lower(sha256_of(hex_decoded(encode_utf8(e.previous_hash@)) + encode_utf8(content_json(e))))
}

/// `e` carries the hash of its own content chained to its previous hash.
pub open spec fn hash_ok(e: AuditEntry) -> bool {
    is_hash_text(e.previous_hash@) && e.entry_hash@ == chained_hash(e)
}

/// The fields of `e` other than its identity, time and hash are the given ones.
pub open spec fn has_fields(
    e: AuditEntry,
    entry_index: u64,
    investigation_id: Option<InvestigationId>,
    operation: AuditOperationType,
    actor: Seq<char>,
    subject: Seq<char>,
    details: Seq<char>,
    result: AuditResult,
    previous_hash: Seq<char>,
) -> bool {
    &&& e.entry_index == entry_index
    &&& e.investigation_id == investigation_id
    &&& e.operation == operation
    &&& e.actor@ == actor
    &&& e.subject@ == subject
    &&& e.details@ == details
    &&& e.result == result
    &&& e.previous_hash@ == previous_hash
}

/// The JSON text of an optional investigation.
fn investigation_json_text(id: &Option<InvestigationId>) -> (s: String)
    ensures
        s@ == investigation_json(*id),
{
    match id {
        None => owned("null"),
        Some(i) => {
            let u = uuid_string(i.0);
            json_string(u.as_str())
        },
    }
}

impl AuditEntry {
    /// The compact JSON of the fields up to `previous_hash`, unclosed.
    fn fields_text(&self) -> (s: String)
        ensures
            s@ == fields_json(*self),
    {
        let id = uuid_string(self.entry_id);
        let mut s = owned("{\"entry_id\":");
        append(&mut s, json_string(id.as_str()).as_str());
        append(&mut s, ",\"entry_index\":");
        append(&mut s, decimal_string(self.entry_index).as_str());
        append(&mut s, ",\"timestamp\":");
        append(&mut s, json_string(self.timestamp.as_str()).as_str());
        append(&mut s, ",\"investigation_id\":");
        append(&mut s, investigation_json_text(&self.investigation_id).as_str());
        append(&mut s, ",\"operation\":");
        append(&mut s, self.operation.json_text().as_str());
        append(&mut s, ",\"actor\":");
        append(&mut s, json_string(self.actor.as_str()).as_str());
        append(&mut s, ",\"subject\":");
        append(&mut s, json_string(self.subject.as_str()).as_str());
        append(&mut s, ",\"details\":");
        append(&mut s, self.details.as_str());
        append(&mut s, ",\"result\":");
        append(&mut s, self.result.json_text().as_str());
        append(&mut s, ",\"previous_hash\":");
        append(&mut s, json_string(self.previous_hash.as_str()).as_str());
        s
    }

    /// The hashed content of this entry as compact JSON text.
    pub fn content_text(&self) -> (s: String)
        ensures
            s@ == content_json(*self),
    {
        let mut s = self.fields_text();
        append(&mut s, "}");
        s
    }

    /// This entry as compact JSON text, `entry_hash` included.
    pub fn json_text(&self) -> (s: String)
        ensures
            s@ == entry_json(*self),
    {
        let mut s = self.fields_text();
        append(&mut s, ",\"entry_hash\":");
        append(&mut s, json_string(self.entry_hash.as_str()).as_str());
        append(&mut s, "}");
        s
    }

    /// Computes the hash this entry must carry:
    /// `SHA-256(previous_hash_bytes || content)` as lowercase hex.
    ///
    /// Fails with `SerializationError` when `previous_hash` is not 64
    /// hexadecimal digits.
    pub fn compute_hash(&self) -> (r: OracleResult<String>)
        ensures
            r is Ok <==> is_hash_text(self.previous_hash@),
            r matches Ok(h) ==> h@ == chained_hash(*self) && is_hash_text(h@),
            r is Err ==> r matches Err(OracleError::SerializationError { .. }),
    {
        let content = self.content_text();
        let prev = match ForensicHash::from_hex(self.previous_hash.as_str()) {
            Ok(h) => h,
            Err(e) => {
                return Err(e);
            },
        };
        let prev_bytes = prev.as_bytes();
        let content_bytes = content.as_str().as_bytes();
        let parts: [&[u8]; 2] = [prev_bytes.as_slice(), content_bytes];
        let hash = ForensicHash::from_chain(&parts);
        proof {
            let views = parts@.map_values(|p: &[u8]| p@);
            assert(views.len() == 2);
            assert(views.last() == content_bytes@);
            assert(views.drop_last() =~= seq![prev_bytes@]);
            assert(views.drop_last().drop_last() =~= Seq::<Seq<u8>>::empty());
            assert(joined(views.drop_last().drop_last()) =~= Seq::<u8>::empty());
            assert(joined(views.drop_last()) =~= prev_bytes@);
            assert(joined(views) =~= prev_bytes@ + content_bytes@);
            hash.lemma_len();
            lemma_hex_lower_decodes(hash.value());
        }
        Ok(hash.to_hex())
    }

    /// Whether the stored `entry_hash` equals the recomputed hash.
    ///
    /// Fails with `SerializationError` when `previous_hash` is not 64
    /// hexadecimal digits.
    pub fn verify_hash(&self) -> (r: OracleResult<bool>)
        ensures
            r is Ok <==> is_hash_text(self.previous_hash@),
            r matches Ok(b) ==> (b <==> hash_ok(*self)),
            r is Err ==> r matches Err(OracleError::SerializationError { .. }),
    {
        let recomputed = match self.compute_hash() {
            Ok(h) => h,
            Err(e) => {
                return Err(e);
            },
        };
        Ok(str_eq(recomputed.as_str(), self.entry_hash.as_str()))
    }

    /// Builds an entry with the given identity and creation time and a
    /// freshly computed `entry_hash`.
    ///
    /// Fails with `SerializationError` when `previous_hash` is not 64
    /// hexadecimal digits.
    pub fn from_parts(
        entry_id: u128,
        timestamp: String,
        entry_index: u64,
        investigation_id: Option<InvestigationId>,
        operation: AuditOperationType,
        actor: String,
        subject: String,
        details: String,
        result: AuditResult,
        previous_hash: String,
    ) -> (r: OracleResult<AuditEntry>)
        ensures
            r is Ok <==> is_hash_text(previous_hash@),
            r matches Ok(e) ==> {
                &&& has_fields(
                    e,
                    entry_index,
                    investigation_id,
                    operation,
                    actor@,
                    subject@,
                    details@,
                    result,
                    previous_hash@,
                )
                &&& e.entry_id == entry_id
                &&& e.timestamp@ == timestamp@
                &&& hash_ok(e)
                &&& is_hash_text(e.entry_hash@)
            },
            r is Err ==> r matches Err(OracleError::SerializationError { .. }),
    {
        let mut entry = AuditEntry {
            entry_id,
            entry_index,
            timestamp,
            investigation_id,
            operation,
            actor,
            subject,
            details,
            result,
            previous_hash,
            entry_hash: String::new(),
        };
        match entry.compute_hash() {
            Ok(h) => {
                entry.entry_hash = h;
                Ok(entry)
            },
            Err(e) => Err(e),
        }
    }

    /// Builds a new entry with a fresh random identifier, the current time
    /// and a freshly computed `entry_hash`: the only way callers create
    /// entries.
    ///
    /// Fails with `SerializationError` when `previous_hash` is not 64
    /// hexadecimal digits.
    pub fn new(
        entry_index: u64,
        investigation_id: Option<InvestigationId>,
        operation: AuditOperationType,
        actor: String,
        subject: String,
        details: String,
        result: AuditResult,
        previous_hash: String,
    ) -> (r: OracleResult<AuditEntry>)
        ensures
            r is Ok <==> is_hash_text(previous_hash@),
            r matches Ok(e) ==> has_fields(
                e,
                entry_index,
                investigation_id,
                operation,
                actor@,
                subject@,
                details@,
                result,
                previous_hash@,
            ) && hash_ok(e) && is_hash_text(e.entry_hash@),
            r is Err ==> r matches Err(OracleError::SerializationError { .. }),
    {
        let entry_id = random_uuid();
        let timestamp = utc_now_text();
        AuditEntry::from_parts(
            entry_id,
            timestamp,
            entry_index,
            investigation_id,
            operation,
            actor,
            subject,
            details,
            result,
            previous_hash,
        )
    }
}

} // verus!
