//! The append-only audit log writer: its chain state and the entries it
//! appends under the write-before-execute protocol.
//!
//! Every auditable operation first appends an *intent* entry with result
//! `Pending`, then performs the operation, then appends a *result* entry
//! that names the intent's index in its details. An intent that no later
//! entry answers (after a crash) is closed by a crash-recovery entry.
//!
//! The writer holds the hash of the last appended entry and the next index.
//! It builds each entry; storage appends it and then reports it back with
//! `record_appended`, so the state advances only for stored entries.

use vstd::prelude::*;
use crate::chain::{chain_intact, entry_intact, expected_previous, genesis_text, intact_prefix, linked};
use crate::entry::{has_fields, hash_ok, is_hash_text, AuditEntry};
use crate::error::OracleResult;
use crate::hash::ForensicHash;
use crate::json::{json_quoted, json_string};
use crate::text::{append, chars_of, decimal, decimal_string, owned};
use crate::types::{operation_json, uuid_string, uuid_text, AuditOperationType, AuditResult};

verus! {

// ── Specifications ───────────────────────────────────────────────────────────

/// `c` with ASCII upper-case letters folded to lower case.
pub open spec fn ascii_fold(c: char) -> char {
    if 'A' <= c && c <= 'Z' {
        ((c as u32) + 32) as char
    } else {
        c
    }
}

/// Pattern character `p` matches text character `c` under SQL `LIKE`:
/// `_` matches any character, letters match ignoring ASCII case.
pub open spec fn like_char_matches(p: char, c: char) -> bool {
    p == '_' || ascii_fold(p) == ascii_fold(c)
}

/// `pat` matches `text` at position `i` under SQL `LIKE`.
pub open spec fn like_matches_at(text: Seq<char>, pat: Seq<char>, i: int) -> bool {
    &&& 0 <= i
    &&& i + pat.len() <= text.len()
    &&& forall|j: int| 0 <= j < pat.len() ==> like_char_matches(#[trigger] pat[j], text[i + j])
}

/// `text LIKE '%' || pat || '%'`, for a `pat` without `%`.
pub open spec fn like_contains(text: Seq<char>, pat: Seq<char>) -> bool {
    exists|i: int| like_matches_at(text, pat, i)
}

/// `pat` matches `text` at `i` and the character after the match, if any,
/// is not an ASCII digit: the number that ends `pat` is matched whole.
pub open spec fn like_matches_whole_at(text: Seq<char>, pat: Seq<char>, i: int) -> bool {
    &&& like_matches_at(text, pat, i)
    &&& (i + pat.len() == text.len() || !('0' <= text[i + pat.len()] <= '9'))
}

/// `text` holds `pat` under SQL `LIKE`, with the number that ends `pat`
/// matched whole (`"intent_entry_index":1` does not match inside
/// `"intent_entry_index":10`).
pub open spec fn names_whole(text: Seq<char>, pat: Seq<char>) -> bool {
    exists|i: int| like_matches_whole_at(text, pat, i)
}

/// The details text by which a result entry names its intent.
pub open spec fn completion_pattern(idx: u64) -> Seq<char> {
    "\"intent_entry_index\":"@ + decimal(idx as nat)
}

/// The details text by which a recovery entry names its intent.
pub open spec fn recovery_pattern(idx: u64) -> Seq<char> {
    "\"recovered_intent_index\":"@ + decimal(idx as nat)
}

/// Some entry of `es` with an index above `idx` names `pat` in its details,
/// its number whole.
pub open spec fn referenced_after(es: Seq<AuditEntry>, idx: u64, pat: Seq<char>) -> bool {
    exists|j: int|
        0 <= j < es.len() && (#[trigger] es[j]).entry_index > idx && names_whole(es[j].details@, pat)
}

/// `e` is an intent of `es` that no later result or recovery entry answers.
pub open spec fn unanswered(es: Seq<AuditEntry>, e: AuditEntry) -> bool {
    &&& e.result == AuditResult::Pending
    &&& !referenced_after(es, e.entry_index, completion_pattern(e.entry_index))
    &&& !referenced_after(es, e.entry_index, recovery_pattern(e.entry_index))
}

/// The indices of the unanswered intents among the first `n` entries of `es`,
/// in order.
pub open spec fn unanswered_among(es: Seq<AuditEntry>, n: nat) -> Seq<u64>
    decreases n,
{
    if n == 0 {
        Seq::empty()
    } else {
        let rest = unanswered_among(es, (n - 1) as nat);
        if unanswered(es, es[n - 1]) {
            rest.push(es[n - 1].entry_index)
        } else {
            rest
        }
    }
}


/// The positions of the unanswered intents among the first `n` entries of
/// `es`, in order.
pub open spec fn unanswered_positions(es: Seq<AuditEntry>, n: nat) -> Seq<int>
    decreases n,
{
    if n == 0 {
        Seq::empty()
    } else {
        let rest = unanswered_positions(es, (n - 1) as nat);
        if unanswered(es, es[n - 1]) {
            rest.push(n - 1)
        } else {
            rest
        }
    }
}

/// The positions of the unanswered intents of `es`.
pub open spec fn recovery_positions(es: Seq<AuditEntry>) -> Seq<int> {
    unanswered_positions(es, es.len())
}

/// `e` is the crash-recovery entry for `intent`, at index `idx`, linked to `prev`.
pub open spec fn is_recovery_for(e: AuditEntry, intent: AuditEntry, idx: u64, prev: Seq<char>) -> bool {
    &&& has_fields(
        e,
        idx,
        intent.investigation_id,
        AuditOperationType::SystemCrashRecovery,
        "SYSTEM"@,
        recovery_subject(intent.entry_index),
        recovery_details_json(intent),
        AuditResult::Success,
        prev,
    )
    &&& hash_ok(e)
    &&& is_hash_text(e.entry_hash@)
}

/// The hash that appended entry `k` of `es` (counting from `n`) links to.
pub open spec fn appended_prev(es: Seq<AuditEntry>, n: int, k: int, first: Seq<char>) -> Seq<char> {
    if k == 0 {
        first
    } else {
        es[n + k - 1].entry_hash@
    }
}

/// The details of a result entry answering intent `intent`.
pub open spec fn result_details_json(intent: AuditEntry, result_details: Seq<char>) -> Seq<char> {
    "{\"intent_entry_id\":"@ + json_quoted(uuid_text(intent.entry_id)) + ","@ + completion_pattern(
        intent.entry_index,
    ) + ",\"result_details\":"@ + result_details + "}"@
}

/// The reason recorded by a crash-recovery entry.
pub open spec fn recovery_reason() -> Seq<char> {
    "Process crash detected \u{2014} intent entry has no corresponding result entry"@
}

/// The details of a crash-recovery entry for intent `intent`.
pub open spec fn recovery_details_json(intent: AuditEntry) -> Seq<char> {
    "{\"recovered_intent_id\":"@ + json_quoted(uuid_text(intent.entry_id)) + ","@
        + recovery_pattern(intent.entry_index) + ",\"recovered_operation\":"@ + json_quoted(
        operation_json(intent.operation),
    ) + ",\"recovery_reason\":"@ + json_quoted(recovery_reason()) + "}"@
}

/// The subject of a crash-recovery entry for the intent at `idx`.
pub open spec fn recovery_subject(idx: u64) -> Seq<char> {
    "Crash recovery for intent entry "@ + decimal(idx as nat)
}

/// The hash a new entry must link to after the entries `es`.
pub open spec fn head_of(es: Seq<AuditEntry>) -> Seq<char> {
    expected_previous(es, es.len() as int)
}

// ── LIKE matching ────────────────────────────────────────────────────────────

fn fold(c: char) -> (r: char)
    ensures
        r == ascii_fold(c),
{
    if 'A' <= c && c <= 'Z' {
        let b = (c as u8) + 32;
        b as char
    } else {
        c
    }
}

fn like_at(text: &[char], pat: &[char], i: usize) -> (r: bool)
    ensures
        r == like_matches_at(text@, pat@, i as int),
{
    if i > text.len() || pat.len() > text.len() - i {
        return false;
    }
    let mut k: usize = 0;
    while k < pat.len()
        invariant
            i + pat.len() <= text.len(),
            0 <= k <= pat.len(),
            forall|j: int| 0 <= j < k ==> like_char_matches(#[trigger] pat@[j], text@[i + j]),
        decreases pat.len() - k,
    {
        let p = pat[k];
        if p != '_' && fold(p) != fold(text[i + k]) {
            assert(!like_char_matches(pat@[k as int], text@[i + k]));
            return false;
        }
        k = k + 1;
    }
    true
}

/// Whether `text LIKE '%' || pat || '%'` holds, for a `pat` without `%`.
pub fn like_contains_text(text: &str, pat: &str) -> (r: bool)
    ensures
        r == like_contains(text@, pat@),
{
    let t = chars_of(text);
    let p = chars_of(pat);
    if p.len() > t.len() {
        assert forall|i: int| !like_matches_at(t@, p@, i) by {}
        return false;
    }
    let limit = t.len() - p.len();
    let mut i: usize = 0;
    loop
        invariant
            p.len() <= t.len(),
            t@ == text@,
            p@ == pat@,
            limit == t.len() - p.len(),
            0 <= i <= limit,
            forall|j: int| 0 <= j < i ==> !like_matches_at(t@, p@, j),
        ensures
            forall|j: int| 0 <= j <= limit ==> !like_matches_at(t@, p@, j),
        decreases limit - i,
    {
        if like_at(t.as_slice(), p.as_slice(), i) {
            return true;
        }
        if i == limit {
            break;
        }
        i = i + 1;
    }
    assert forall|j: int| !like_matches_at(t@, p@, j) by {
        if 0 <= j <= limit {
        }
    }
    false
}


/// The positions listed by `unanswered_positions` are increasing, in range,
/// and are exactly the unanswered intents.
pub proof fn lemma_unanswered_positions(es: Seq<AuditEntry>, n: nat)
    requires
        n <= es.len(),
    ensures
        forall|k: int|
            0 <= k < unanswered_positions(es, n).len() ==> {
                &&& k <= #[trigger] unanswered_positions(es, n)[k] < n
                &&& unanswered(es, es[unanswered_positions(es, n)[k]])
            },
        forall|a: int, b: int|
            0 <= a < b < unanswered_positions(es, n).len() ==> unanswered_positions(es, n)[a]
                < unanswered_positions(es, n)[b],
        forall|q: int|
            0 <= q < n && #[trigger] unanswered(es, es[q]) ==> exists|k: int|
                0 <= k < unanswered_positions(es, n).len() && unanswered_positions(es, n)[k] == q,
    decreases n,
{
    if n > 0 {
        lemma_unanswered_positions(es, (n - 1) as nat);
        let rest = unanswered_positions(es, (n - 1) as nat);
        let all = unanswered_positions(es, n);
        assert(rest.len() <= n - 1) by {
            if rest.len() > 0 {
                assert(rest.len() - 1 <= rest[rest.len() - 1]);
            }
        }
        assert forall|k: int| 0 <= k < all.len() implies {
            &&& k <= #[trigger] all[k] < n
            &&& unanswered(es, es[all[k]])
        } by {
            if k < rest.len() {
                assert(all[k] == rest[k]);
            }
        }
        assert forall|a: int, b: int| 0 <= a < b < all.len() implies all[a] < all[b] by {
            if b < rest.len() {
                assert(all[a] == rest[a]);
                assert(all[b] == rest[b]);
            } else {
                assert(all[a] == rest[a]);
            }
        }
        assert forall|q: int| 0 <= q < n && #[trigger] unanswered(es, es[q]) implies exists|k: int|
            0 <= k < all.len() && all[k] == q by {
            if q < n - 1 {
                let k = choose|k: int| 0 <= k < rest.len() && rest[k] == q;
                assert(all[k] == q);
            } else {
                assert(all[all.len() - 1] == q);
            }
        }
    }
}

/// A reference made by an entry of `es` is still made once `es` is extended.
pub proof fn lemma_referenced_after_extends(
    es: Seq<AuditEntry>,
    more: Seq<AuditEntry>,
    idx: u64,
    pat: Seq<char>,
)
    requires
        more.len() >= es.len(),
        more.subrange(0, es.len() as int) == es,
        referenced_after(es, idx, pat),
    ensures
        referenced_after(more, idx, pat),
{
    let j = choose|j: int|
        0 <= j < es.len() && (#[trigger] es[j]).entry_index > idx && names_whole(es[j].details@, pat);
    assert(more.subrange(0, es.len() as int)[j] == more[j]);
    assert(more[j] == es[j]);
}

/// When no entry among the first `m` of `es` is an unanswered intent, none
/// is listed.
pub proof fn lemma_none_unanswered(es: Seq<AuditEntry>, m: nat)
    requires
        m <= es.len(),
        forall|i: int| 0 <= i < m ==> !unanswered(es, #[trigger] es[i]),
    ensures
        unanswered_among(es, m) == Seq::<u64>::empty(),
    decreases m,
{
    if m > 0 {
        lemma_none_unanswered(es, (m - 1) as nat);
    }
}

// ── The writer ───────────────────────────────────────────────────────────────

/// The chain state of an append-only audit log writer.
#[derive(Debug, Clone)]
pub struct AuditLogWriter {
    last_hash: String,
    next_index: u64,
}

/// `w` is the state of a writer whose log holds exactly `es`: entry `j` has
/// index `j`, the next index is the length and the head is the last hash.
pub open spec fn tracks(w: AuditLogWriter, es: Seq<AuditEntry>) -> bool {
    &&& w.head() == head_of(es)
    &&& w.index() == es.len()
    &&& forall|j: int| 0 <= j < es.len() ==> (#[trigger] es[j]).entry_index == j
}

impl AuditLogWriter {
    /// The hash the next entry links to.
    pub closed spec fn head(&self) -> Seq<char> {
        self.last_hash@
    }

    /// The index the next entry receives.
    pub closed spec fn index(&self) -> u64 {
        self.next_index
    }

    /// The state of a writer over a log whose last entry has the given hash
    /// and index, or over an empty log (genesis hash, index 0).
    pub fn resume(head: Option<(String, u64)>) -> (w: AuditLogWriter)
        requires
            head matches Some((_, i)) ==> i < u64::MAX,
        ensures
            match head {
                None => w.head() == genesis_text() && w.index() == 0,
                Some((h, i)) => w.head() == h@ && w.index() == i + 1,
            },
    {
        match head {
            None => AuditLogWriter { last_hash: ForensicHash::genesis().to_hex(), next_index: 0 },
            Some((h, i)) => AuditLogWriter { last_hash: h, next_index: i + 1 },
        }
    }

    /// The hash of the most recently appended entry (genesis when empty).
    pub fn last_hash(&self) -> (s: &str)
        ensures
            s@ == self.head(),
    {
        self.last_hash.as_str()
    }

    /// The index that the next entry receives.
    pub fn next_index(&self) -> (n: u64)
        ensures
            n == self.index(),
    {
        self.next_index
    }

    /// Advances the state past `entry`, once storage has appended it.
    pub fn record_appended(&mut self, entry: &AuditEntry)
        requires
            entry.entry_index < u64::MAX,
        ensures
            final(self).head() == entry.entry_hash@,
            final(self).index() == entry.entry_index + 1,
    {
        self.last_hash = entry.entry_hash.clone();
        self.next_index = entry.entry_index + 1;
    }

    /// The intent entry recording that an operation is about to run
    /// (result `Pending`), chained to the head.
    ///
    /// Fails with `SerializationError` when the head is not a hash text.
    pub fn intent_entry(
        &self,
        investigation_id: Option<crate::types::InvestigationId>,
        operation: AuditOperationType,
        actor: &str,
        subject: &str,
        details: String,
    ) -> (r: OracleResult<AuditEntry>)
        ensures
            r is Ok <==> is_hash_text(self.head()),
            r matches Ok(e) ==> has_fields(
                e,
                self.index(),
                investigation_id,
                operation,
                actor@,
                subject@,
                details@,
                AuditResult::Pending,
                self.head(),
            ) && hash_ok(e) && is_hash_text(e.entry_hash@),
    {
        AuditEntry::new(
            self.next_index,
            investigation_id,
            operation,
            owned(actor),
            owned(subject),
            details,
            AuditResult::Pending,
            self.last_hash.clone(),
        )
    }

    /// Logs an intended operation before it runs, onto `log` (the stored
    /// entries, in index order): the intent entry (result `Pending`) gets
    /// the writer's index and links to its head; it is appended, the writer
    /// advances past it, and its index is returned. Over a log the writer
    /// tracks with an intact chain, the chain stays intact and tracked.
    ///
    /// Fails with `SerializationError`, changing nothing, when the head is
    /// not a hash text.
    pub fn log_intent(
        &mut self,
        log: &mut Vec<AuditEntry>,
        investigation_id: Option<crate::types::InvestigationId>,
        operation: AuditOperationType,
        actor: &str,
        subject: &str,
        details: String,
    ) -> (r: OracleResult<u64>)
        requires
            old(self).index() < u64::MAX,
        ensures
            r is Ok <==> is_hash_text(old(self).head()),
            r is Err ==> final(log)@ == old(log)@ && *final(self) == *old(self),
            r matches Ok(i) ==> {
                &&& i == old(self).index()
                &&& final(log)@.len() == old(log)@.len() + 1
                &&& final(log)@.drop_last() == old(log)@
                &&& has_fields(
                    final(log)@.last(),
                    i,
                    investigation_id,
                    operation,
                    actor@,
                    subject@,
                    details@,
                    AuditResult::Pending,
                    old(self).head(),
                )
                &&& hash_ok(final(log)@.last())
                &&& final(self).head() == final(log)@.last().entry_hash@
                &&& final(self).index() == i + 1
            },
            r is Ok && chain_intact(old(log)@) && tracks(*old(self), old(log)@) ==> chain_intact(
                final(log)@,
            ) && tracks(*final(self), final(log)@),
    {
        let ghost es0 = log@;
        let ghost w0 = *self;
        let e = match self.intent_entry(investigation_id, operation, actor, subject, details) {
            Ok(e) => e,
            Err(x) => {
                return Err(x);
            },
        };
        let i = e.entry_index;
        self.record_appended(&e);
        log.push(e);
        proof {
            assert(log@.drop_last() =~= es0);
            if chain_intact(es0) && tracks(w0, es0) {
                law_append_keeps_chain_intact(es0, w0, log@.last(), *self);
                assert(es0.push(log@.last()) =~= log@);
            }
        }
        Ok(i)
    }

    /// The result entry answering `intent`: it repeats the intent's
    /// investigation, operation, actor and subject, carries `result`, and
    /// its details name the intent's identifier and index and hold
    /// `result_details` (compact JSON text).
    ///
    /// Fails with `SerializationError` when the head is not a hash text.
    pub fn result_entry(&self, intent: &AuditEntry, result: AuditResult, result_details: &str) -> (r:
        OracleResult<AuditEntry>)
        ensures
            r is Ok <==> is_hash_text(self.head()),
            r matches Ok(e) ==> has_fields(
                e,
                self.index(),
                intent.investigation_id,
                intent.operation,
                intent.actor@,
                intent.subject@,
                result_details_json(*intent, result_details@),
                result,
                self.head(),
            ) && hash_ok(e) && is_hash_text(e.entry_hash@),
    {
        let id = uuid_string(intent.entry_id);
        let mut details = owned("{\"intent_entry_id\":");
        append(&mut details, json_string(id.as_str()).as_str());
        append(&mut details, ",");
        append(&mut details, "\"intent_entry_index\":");
        append(&mut details, decimal_string(intent.entry_index).as_str());
        append(&mut details, ",\"result_details\":");
        append(&mut details, result_details);
        append(&mut details, "}");
        assert(details@ =~= result_details_json(*intent, result_details@));
        AuditEntry::new(
            self.next_index,
            intent.investigation_id,
            intent.operation.duplicate(),
            intent.actor.clone(),
            intent.subject.clone(),
            details,
            result,
            self.last_hash.clone(),
        )
    }

    /// The crash-recovery entry closing the unanswered `intent`: a
    /// `SystemCrashRecovery` by `SYSTEM` with result `Success`, whose
    /// details name the intent and its operation.
    ///
    /// Fails with `SerializationError` when the head is not a hash text.
    pub fn recovery_entry(&self, intent: &AuditEntry) -> (r: OracleResult<AuditEntry>)
        ensures
            r is Ok <==> is_hash_text(self.head()),
            r matches Ok(e) ==> has_fields(
                e,
                self.index(),
                intent.investigation_id,
                AuditOperationType::SystemCrashRecovery,
                "SYSTEM"@,
                recovery_subject(intent.entry_index),
                recovery_details_json(*intent),
                AuditResult::Success,
                self.head(),
            ) && hash_ok(e) && is_hash_text(e.entry_hash@),
    {
        let id = uuid_string(intent.entry_id);
        let op = intent.operation.json_text();
        let mut details = owned("{\"recovered_intent_id\":");
        append(&mut details, json_string(id.as_str()).as_str());
        append(&mut details, ",");
        append(&mut details, "\"recovered_intent_index\":");
        append(&mut details, decimal_string(intent.entry_index).as_str());
        append(&mut details, ",\"recovered_operation\":");
        append(&mut details, json_string(op.as_str()).as_str());
        append(&mut details, ",\"recovery_reason\":");
        append(
            &mut details,
            json_string(
                "Process crash detected \u{2014} intent entry has no corresponding result entry",
            ).as_str(),
        );
        append(&mut details, "}");
        assert(details@ =~= recovery_details_json(*intent));
        let mut subject = owned("Crash recovery for intent entry ");
        append(&mut subject, decimal_string(intent.entry_index).as_str());
        AuditEntry::new(
            self.next_index,
            intent.investigation_id,
            AuditOperationType::SystemCrashRecovery,
            owned("SYSTEM"),
            subject,
            details,
            AuditResult::Success,
            self.last_hash.clone(),
        )
    }
}

/// Whether `text` names `pat` with its number whole (see `names_whole`).
pub fn names_whole_text(text: &str, pat: &str) -> (r: bool)
    ensures
        r == names_whole(text@, pat@),
{
    let t = chars_of(text);
    let p = chars_of(pat);
    if p.len() > t.len() {
        assert forall|i: int| !like_matches_whole_at(t@, p@, i) by {}
        return false;
    }
    let limit = t.len() - p.len();
    let mut i: usize = 0;
    loop
        invariant
            p.len() <= t.len(),
            t@ == text@,
            p@ == pat@,
            limit == t.len() - p.len(),
            0 <= i <= limit,
            forall|j: int| 0 <= j < i ==> !like_matches_whole_at(t@, p@, j),
        ensures
            forall|j: int| 0 <= j <= limit ==> !like_matches_whole_at(t@, p@, j),
        decreases limit - i,
    {
        if like_at(t.as_slice(), p.as_slice(), i) {
            let end = i + p.len();
            if end == t.len() || !('0' <= t[end] && t[end] <= '9') {
                assert(like_matches_whole_at(t@, p@, i as int));
                return true;
            }
        }
        if i == limit {
            break;
        }
        i = i + 1;
    }
    assert forall|j: int| !like_matches_whole_at(t@, p@, j) by {
        if 0 <= j <= limit {
        }
    }
    false
}

/// Whether some entry of `es` with an index above `idx` names `pat` in its
/// details, its number whole.
fn any_reference_after(es: &[AuditEntry], idx: u64, pat: &str) -> (r: bool)
    ensures
        r == referenced_after(es@, idx, pat@),
{
    let mut j: usize = 0;
    while j < es.len()
        invariant
            0 <= j <= es.len(),
            forall|k: int|
                0 <= k < j ==> !((#[trigger] es@[k]).entry_index > idx && names_whole(
                    es@[k].details@,
                    pat@,
                )),
        decreases es.len() - j,
    {
        if es[j].entry_index > idx && names_whole_text(es[j].details.as_str(), pat) {
            return true;
        }
        j = j + 1;
    }
    false
}

/// The indices of the intents (entries with result `Pending`) that no later
/// entry answers, in log order. A later entry answers the intent at index
/// `n` when its details are `LIKE '%"intent_entry_index":n%'` (a result) or
/// `LIKE '%"recovered_intent_index":n%'` (a crash recovery), with `n` not
/// followed by a further digit.
pub fn find_incomplete_entries(es: &[AuditEntry]) -> (r: Vec<u64>)
    ensures
        r@ == unanswered_among(es@, es@.len()),
{
    let mut out: Vec<u64> = Vec::new();
    let mut i: usize = 0;
    while i < es.len()
        invariant
            0 <= i <= es.len(),
            out@ == unanswered_among(es@, i as nat),
        decreases es.len() - i,
    {
        let e = &es[i];
        let pending = match e.result {
            AuditResult::Pending => true,
            _ => false,
        };
        if pending {
            let mut cp = owned("\"intent_entry_index\":");
            append(&mut cp, decimal_string(e.entry_index).as_str());
            let mut rp = owned("\"recovered_intent_index\":");
            append(&mut rp, decimal_string(e.entry_index).as_str());
            let answered = any_reference_after(es, e.entry_index, cp.as_str())
                || any_reference_after(es, e.entry_index, rp.as_str());
            if !answered {
                out.push(e.entry_index);
            }
        }
        i = i + 1;
    }
    out
}



/// The positions of the unanswered intents of `es`, in order.
fn unanswered_positions_of(es: &[AuditEntry]) -> (r: Vec<usize>)
    ensures
        r@.len() == unanswered_positions(es@, es@.len()).len(),
        forall|k: int| 0 <= k < r@.len() ==> r@[k] as int == unanswered_positions(es@, es@.len())[k],
{
    let mut out: Vec<usize> = Vec::new();
    let mut i: usize = 0;
    while i < es.len()
        invariant
            0 <= i <= es.len(),
            out@.len() == unanswered_positions(es@, i as nat).len(),
            forall|k: int| 0 <= k < out@.len() ==> out@[k] as int == unanswered_positions(es@, i as nat)[k],
        decreases es.len() - i,
    {
        let e = &es[i];
        let pending = match e.result {
            AuditResult::Pending => true,
            _ => false,
        };
        if pending {
            let mut cp = owned("\"intent_entry_index\":");
            append(&mut cp, decimal_string(e.entry_index).as_str());
            let mut rp = owned("\"recovered_intent_index\":");
            append(&mut rp, decimal_string(e.entry_index).as_str());
            let answered = any_reference_after(es, e.entry_index, cp.as_str())
                || any_reference_after(es, e.entry_index, rp.as_str());
            if !answered {
                out.push(i);
            }
        }
        i = i + 1;
    }
    out
}

impl AuditLogWriter {
    /// Crash recovery over the log `entries` (in index order): every intent
    /// that no later entry answers gets a crash-recovery entry, appended in
    /// log order of the intents, and the state advances past each one.
    ///
    /// Fails with `SerializationError`, changing nothing, when there is an
    /// unanswered intent and the head is not a hash text. When the writer
    /// tracks an intact log, a successful recovery leaves it tracking an
    /// intact log in which no intent is unanswered.
    pub fn recover_incomplete(&mut self, entries: &mut Vec<AuditEntry>) -> (r: OracleResult<()>)
        requires
            old(self).index() + old(entries)@.len() < u64::MAX,
        ensures
            r is Ok <==> (recovery_positions(old(entries)@).len() == 0 || is_hash_text(
                old(self).head(),
            )),
            r is Err ==> final(entries)@ == old(entries)@ && *final(self) == *old(self),
            r is Ok ==> final(entries)@.len() == old(entries)@.len() + recovery_positions(
                old(entries)@,
            ).len(),
            r is Ok ==> final(entries)@.subrange(0, old(entries)@.len() as int) == old(entries)@,
            r is Ok ==> forall|k: int|
                0 <= k < recovery_positions(old(entries)@).len() ==> is_recovery_for(
                    #[trigger] final(entries)@[old(entries)@.len() + k],
                    old(entries)@[recovery_positions(old(entries)@)[k]],
                    (old(self).index() + k) as u64,
                    appended_prev(final(entries)@, old(entries)@.len() as int, k, old(self).head()),
                ),
            r is Ok ==> final(self).index() == old(self).index() + recovery_positions(
                old(entries)@,
            ).len(),
            r is Ok ==> final(self).head() == appended_prev(
                final(entries)@,
                old(entries)@.len() as int,
                recovery_positions(old(entries)@).len() as int,
                old(self).head(),
            ),
            r is Ok && chain_intact(old(entries)@) && tracks(*old(self), old(entries)@) ==> {
                &&& chain_intact(final(entries)@)
                &&& tracks(*final(self), final(entries)@)
                &&& unanswered_among(final(entries)@, final(entries)@.len()) == Seq::<u64>::empty()
            },
    {
        let ghost es0 = entries@;
        let ghost w0 = *self;
        let n = entries.len();
        let positions = unanswered_positions_of(entries.as_slice());
        let ghost ps = recovery_positions(es0);
        proof {
            lemma_unanswered_positions(es0, es0.len());
        }
        let ghost cond = chain_intact(es0) && tracks(w0, es0);
        if positions.len() > 0 {
            if let Err(e) = ForensicHash::from_hex(self.last_hash.as_str()) {
                return Err(e);
            }
        }
        let mut k: usize = 0;
        while k < positions.len()
            invariant
                0 <= k <= positions.len(),
                w0 == *old(self),
                es0 == old(entries)@,
                n == es0.len(),
                positions@.len() == ps.len(),
                forall|j: int| 0 <= j < positions@.len() ==> positions@[j] as int == ps[j],
                forall|j: int| 0 <= j < ps.len() ==> j <= #[trigger] ps[j] < n,
                forall|j: int| 0 <= j < ps.len() ==> unanswered(es0, es0[#[trigger] ps[j]]),
                w0.index() + n < u64::MAX,
                entries@.len() == n + k,
                entries@.subrange(0, n as int) == es0,
                forall|j: int|
                    0 <= j < k ==> is_recovery_for(
                        #[trigger] entries@[n + j],
                        es0[ps[j]],
                        (w0.index() + j) as u64,
                        appended_prev(entries@, n as int, j, w0.head()),
                    ),
                self.index() == w0.index() + k,
                self.head() == appended_prev(entries@, n as int, k as int, w0.head()),
                positions@.len() > 0 ==> is_hash_text(self.head()),
                positions@.len() > 0 ==> is_hash_text(w0.head()),
                k == 0 ==> *self == w0,
                cond == (chain_intact(es0) && tracks(w0, es0)),
                cond ==> chain_intact(entries@) && tracks(*self, entries@),
                cond ==> forall|j: int|
                    0 <= j < k ==> !unanswered(entries@, #[trigger] es0[ps[j]]),
            decreases positions.len() - k,
        {
            let p = positions[k];
            proof {
                assert(entries@.subrange(0, n as int)[p as int] == entries@[p as int]);
            }
            let rec = match self.recovery_entry(&entries[p]) {
                Ok(e) => e,
                Err(e) => {
                    proof {
                        assert(false);
                    }
                    return Err(e);
                },
            };
            let ghost before = entries@;
            let ghost w_before = *self;
            self.record_appended(&rec);
            entries.push(rec);
            proof {
                assert(entries@.subrange(0, n as int) =~= es0) by {
                    assert forall|j: int| 0 <= j < n implies entries@[j] == es0[j] by {
                        assert(before.subrange(0, n as int)[j] == before[j]);
                    }
                }
                assert(entries@[n + k as int] == rec);
                assert forall|j: int| 0 <= j < k + 1 implies is_recovery_for(
                    #[trigger] entries@[n + j],
                    es0[ps[j]],
                    (w0.index() + j) as u64,
                    appended_prev(entries@, n as int, j, w0.head()),
                ) by {
                    if j < k {
                        assert(entries@[n + j] == before[n + j]);
                        if j > 0 {
                            assert(entries@[n + j - 1] == before[n + j - 1]);
                        }
                    } else {
                        if k > 0 {
                            assert(entries@[n + k - 1] == before[n + k - 1]);
                        }
                    }
                }
                if cond {
                    law_append_keeps_chain_intact(before, w_before, rec, *self);
                    let idx = es0[ps[k as int]].entry_index;
                    assert(es0[ps[k as int]].entry_index == ps[k as int]) by {
                        assert(before[ps[k as int]] == es0[ps[k as int]]);
                    }
                    law_recovery_answers_intent(before, w_before, ps[k as int], rec);
                    assert(before[ps[k as int]] == es0[ps[k as int]]);
                    assert forall|j: int| 0 <= j < k + 1 implies !unanswered(
                        entries@,
                        #[trigger] es0[ps[j]],
                    ) by {
                        if j < k {
                            let e = es0[ps[j]];
                            assert(!unanswered(before, e));
                            assert(entries@.subrange(0, before.len() as int) =~= before);
                            if referenced_after(before, e.entry_index, completion_pattern(e.entry_index)) {
                                lemma_referenced_after_extends(before, entries@, e.entry_index, completion_pattern(e.entry_index));
                            }
                            if referenced_after(before, e.entry_index, recovery_pattern(e.entry_index)) {
                                lemma_referenced_after_extends(before, entries@, e.entry_index, recovery_pattern(e.entry_index));
                            }
                        }
                    }
                }
            }
            k = k + 1;
        }
        proof {
            if cond {
                let fin = entries@;
                assert forall|i: int| 0 <= i < fin.len() implies !unanswered(fin, #[trigger] fin[i]) by {
                    if i < n {
                        assert(fin.subrange(0, n as int)[i] == fin[i]);
                        let e = es0[i];
                        assert(fin[i] == e);
                        if unanswered(es0, e) {
                            let j = choose|j: int| 0 <= j < ps.len() && ps[j] == i;
                            assert(!unanswered(fin, es0[ps[j]]));
                        } else if e.result == AuditResult::Pending {
                            if referenced_after(es0, e.entry_index, completion_pattern(e.entry_index)) {
                                lemma_referenced_after_extends(es0, fin, e.entry_index, completion_pattern(e.entry_index));
                            } else {
                                lemma_referenced_after_extends(es0, fin, e.entry_index, recovery_pattern(e.entry_index));
                            }
                        }
                    } else {
                        assert(is_recovery_for(fin[n + (i - n)], es0[ps[i - n]], (w0.index() + (i - n)) as u64, appended_prev(fin, n as int, i - n, w0.head())));
                    }
                }
                lemma_none_unanswered(fin, fin.len());
            }
        }
        Ok(())
    }
}

// ── Laws ─────────────────────────────────────────────────────────────────────

/// If `pat` occurs in `text` at `i` character for character, then
/// `text LIKE '%' || pat || '%'`; when no digit follows, `text` also names
/// `pat` whole.
pub proof fn lemma_like_contains_infix(text: Seq<char>, pat: Seq<char>, i: int)
    requires
        0 <= i,
        i + pat.len() <= text.len(),
        text.subrange(i, i + pat.len()) == pat,
    ensures
        like_contains(text, pat),
        (i + pat.len() == text.len() || !('0' <= text[i + pat.len()] <= '9')) ==> names_whole(text, pat),
{
    assert forall|j: int| 0 <= j < pat.len() implies like_char_matches(
        #[trigger] pat[j],
        text[i + j],
    ) by {
        assert(text.subrange(i, i + pat.len())[j] == text[i + j]);
    }
    assert(like_matches_at(text, pat, i));
    if i + pat.len() == text.len() || !('0' <= text[i + pat.len()] <= '9') {
        assert(like_matches_whole_at(text, pat, i));
    }
}

/// A new log is empty and intact, and a writer resumed over no entry tracks it.
pub proof fn law_empty_log_is_tracked(w: AuditLogWriter)
    requires
        w.head() == genesis_text(),
        w.index() == 0,
    ensures
        chain_intact(Seq::<AuditEntry>::empty()),
        tracks(w, Seq::<AuditEntry>::empty()),
{
}

/// Appending keeps the chain intact: when a writer tracks an intact log, an
/// entry it builds (linked to its head, at its index, with a valid hash)
/// extends the log to an intact log, and the writer advanced past that
/// entry tracks the extended log.
pub proof fn law_append_keeps_chain_intact(
    es: Seq<AuditEntry>,
    w: AuditLogWriter,
    e: AuditEntry,
    advanced: AuditLogWriter,
)
    requires
        chain_intact(es),
        tracks(w, es),
        e.previous_hash@ == w.head(),
        e.entry_index == w.index(),
        hash_ok(e),
        advanced.head() == e.entry_hash@,
        advanced.index() == e.entry_index + 1,
    ensures
        chain_intact(es.push(e)),
        tracks(advanced, es.push(e)),
{
    let es2 = es.push(e);
    assert forall|i: int| 0 <= i < es2.len() implies #[trigger] entry_intact(es2, i) by {
        if i < es.len() {
            assert(entry_intact(es, i));
            assert(es2[i] == es[i]);
            if i > 0 {
                assert(es2[i - 1] == es[i - 1]);
            }
        } else {
            assert(es2[i] == e);
            if i > 0 {
                assert(es2[i - 1] == es[i - 1]);
            }
        }
    }
    assert forall|j: int| 0 <= j < es2.len() implies (#[trigger] es2[j]).entry_index == j by {
        if j < es.len() {
            assert(es2[j] == es[j]);
        }
    }
}

/// A result entry answers its intent: once the result entry built for the
/// pending intent at position `p` is appended to a log that the writer
/// tracks, that intent is no longer unanswered.
pub proof fn law_result_answers_intent(
    es: Seq<AuditEntry>,
    w: AuditLogWriter,
    p: int,
    r: AuditEntry,
    result_details: Seq<char>,
)
    requires
        tracks(w, es),
        0 <= p < es.len(),
        r.entry_index == w.index(),
        r.details@ == result_details_json(es[p], result_details),
    ensures
        !unanswered(es.push(r), es[p]),
{
    let e = es[p];
    let es2 = es.push(r);
    let pat = completion_pattern(e.entry_index);
    let x = "{\"intent_entry_id\":"@ + json_quoted(uuid_text(e.entry_id)) + ","@;
    let d = r.details@;
    let rest = ",\"result_details\":"@ + result_details + "}"@;
    assert(d =~= x + pat + rest);
    assert(d.subrange(x.len() as int, (x.len() + pat.len()) as int) =~= pat);
    reveal_strlit(",\"result_details\":");
    assert(rest[0] == ',');
    assert(d[(x.len() + pat.len()) as int] == rest[0]);
    lemma_like_contains_infix(d, pat, x.len() as int);
    assert(es2[es.len() as int] == r);
    assert(es[p].entry_index == p);
    assert(referenced_after(es2, e.entry_index, pat));
}

/// Crash recovery answers the intent it closes: once the recovery entry
/// built for the intent at position `p` is appended to a log that the writer
/// tracks, that intent is no longer unanswered.
pub proof fn law_recovery_answers_intent(es: Seq<AuditEntry>, w: AuditLogWriter, p: int, r: AuditEntry)
    requires
        tracks(w, es),
        0 <= p < es.len(),
        r.entry_index == w.index(),
        r.details@ == recovery_details_json(es[p]),
    ensures
        !unanswered(es.push(r), es[p]),
{
    let e = es[p];
    let es2 = es.push(r);
    let pat = recovery_pattern(e.entry_index);
    let x = "{\"recovered_intent_id\":"@ + json_quoted(uuid_text(e.entry_id)) + ","@;
    let d = r.details@;
    let rest = ",\"recovered_operation\":"@ + json_quoted(operation_json(e.operation))
        + ",\"recovery_reason\":"@ + json_quoted(recovery_reason()) + "}"@;
    assert(d =~= x + pat + rest);
    assert(d.subrange(x.len() as int, (x.len() + pat.len()) as int) =~= pat);
    reveal_strlit(",\"recovered_operation\":");
    assert(rest[0] == ',');
    assert(d[(x.len() + pat.len()) as int] == rest[0]);
    lemma_like_contains_infix(d, pat, x.len() as int);
    assert(es2[es.len() as int] == r);
    assert(es[p].entry_index == p);
    assert(referenced_after(es2, e.entry_index, pat));
}

/// Reopening a log continues its chain: a writer resumed at the head of a
/// log whose entries carry their positions as indices (the genesis hash
/// and index 0 when it is empty, else the last entry's hash and the next
/// index) tracks that log, and crash recovery on reopening has nothing to
/// add exactly when no intent of the log is left unanswered.
pub proof fn law_reopen_resumes_chain(es: Seq<AuditEntry>, w: AuditLogWriter)
    requires
        forall|j: int| 0 <= j < es.len() ==> (#[trigger] es[j]).entry_index == j,
        es.len() == 0 ==> w.head() == genesis_text() && w.index() == 0,
        es.len() > 0 ==> w.head() == es.last().entry_hash@ && w.index() == es.last().entry_index + 1,
    ensures
        tracks(w, es),
        (recovery_positions(es).len() == 0) <==> (forall|i: int|
            0 <= i < es.len() ==> !unanswered(es, #[trigger] es[i])),
{
    lemma_unanswered_positions(es, es.len());
    let ps = recovery_positions(es);
    if ps.len() > 0 {
        assert(unanswered(es, es[ps[0]]));
    }
    if exists|i: int| 0 <= i < es.len() && unanswered(es, #[trigger] es[i]) {
        let q = choose|i: int| 0 <= i < es.len() && unanswered(es, #[trigger] es[i]);
        let k = choose|k: int| 0 <= k < ps.len() && ps[k] == q;
        assert(ps.len() > 0);
    }
}

} // verus!
