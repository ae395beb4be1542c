//! Read-only verification of the audit hash chain.
//!
//! For every entry, in order, the verifier checks that `previous_hash` is
//! the `entry_hash` of the entry before it (the genesis hash for the first)
//! and that `entry_hash` is the hash recomputed from the entry's content.
//! The first entry failing either check is where the chain is broken.

use vstd::prelude::*;
use crate::entry::{chained_hash, hash_ok, is_hash_text, AuditEntry};
use crate::error::{OracleError, OracleResult};
use crate::hash::{genesis_bytes, hex_lower, lemma_hex_lower_decodes, ForensicHash};
use crate::text::{append, decimal, decimal_string, owned, str_eq};
use crate::types::utc_now_text;

verus! {

/// The overall integrity status of the audit chain.
#[derive(Debug, Clone, Copy, PartialEq, Eq, Structural)]
pub enum ChainStatus {
    /// Every entry carries its own hash and links to its predecessor.
    Intact,
    /// Some entry fails one of the two checks.
    Broken,
}

impl ChainStatus {
    /// The display text: `INTACT` or `BROKEN`.
    pub fn display_text(&self) -> (s: String)
        ensures
            s@ == (match *self {
                ChainStatus::Intact => "INTACT"@,
                ChainStatus::Broken => "BROKEN"@,
            }),
    {
        match self {
            ChainStatus::Intact => owned("INTACT"),
            ChainStatus::Broken => owned("BROKEN"),
        }
    }
}

/// `rep` is the report of a full verification pass over `log`: it counts
/// the entries, and either finds the chain intact or names the first
/// broken entry, how many entries came before it and why it is broken.
pub open spec fn reports_on(rep: VerificationReport, log: Seq<AuditEntry>) -> bool {
    &&& rep.total_entries == log.len()
    &&& (rep.overall_status == ChainStatus::Intact <==> chain_intact(log))
    &&& (rep.verified_entries == rep.total_entries <==> chain_intact(log))
    &&& (chain_intact(log) ==> {
        &&& rep.verified_entries == log.len()
        &&& rep.first_broken_entry is None
        &&& rep.failure_description is None
        &&& rep.overall_status == ChainStatus::Intact
    })
    &&& forall|k: int|
        first_break(log, k) ==> {
            &&& rep.verified_entries == k
            &&& rep.first_broken_entry == Some(log[k].entry_index)
            &&& rep.failure_description matches Some(d) && d@ == failure_text(log, k)
            &&& rep.overall_status == ChainStatus::Broken
        }
}

/// The result of a full verification pass.
#[derive(Debug, Clone)]
pub struct VerificationReport {
    /// Number of entries examined.
    pub total_entries: u64,
    /// Number of entries verified before the first break.
    pub verified_entries: u64,
    /// Index of the first entry where the chain is broken, if any.
    pub first_broken_entry: Option<u64>,
    /// Description of the first failure, if any.
    pub failure_description: Option<String>,
    /// When the verification ran (RFC 3339, UTC).
    pub verification_timestamp: String,
    /// Overall status.
    pub overall_status: ChainStatus,
}

/// The text of the genesis hash: 64 zeros.
pub open spec fn genesis_text() -> Seq<char> {
    hex_lower(genesis_bytes())
}

/// The `previous_hash` that entry `i` of `es` must carry.
pub open spec fn expected_previous(es: Seq<AuditEntry>, i: int) -> Seq<char> {
    if i == 0 {
        genesis_text()
    } else {
        es[i - 1].entry_hash@
    }
}

/// Entry `i` of `es` links to its predecessor.
pub open spec fn linked(es: Seq<AuditEntry>, i: int) -> bool {
    es[i].previous_hash@ == expected_previous(es, i)
}

/// Entry `i` of `es` passes both checks.
pub open spec fn entry_intact(es: Seq<AuditEntry>, i: int) -> bool {
    linked(es, i) && hash_ok(es[i])
}

/// The first `n` entries of `es` pass both checks.
pub open spec fn intact_prefix(es: Seq<AuditEntry>, n: int) -> bool {
    forall|i: int| 0 <= i < n ==> #[trigger] entry_intact(es, i)
}

/// Every entry of `es` passes both checks.
pub open spec fn chain_intact(es: Seq<AuditEntry>) -> bool {
    intact_prefix(es, es.len() as int)
}

/// Entry `k` is the first entry of `es` that fails a check.
pub open spec fn first_break(es: Seq<AuditEntry>, k: int) -> bool {
    0 <= k < es.len() && intact_prefix(es, k) && !entry_intact(es, k)
}

/// The description of a link failure at entry `e`.
pub open spec fn link_failure_text(e: AuditEntry, expected: Seq<char>) -> Seq<char> {
    "Entry "@ + decimal(e.entry_index as nat) + " previous_hash mismatch: expected "@ + expected
        + ", found "@ + e.previous_hash@
}

/// The description of a hash failure at entry `e`.
pub open spec fn hash_failure_text(e: AuditEntry) -> Seq<char> {
    "Entry "@ + decimal(e.entry_index as nat) + " hash mismatch: recomputed "@ + chained_hash(e)
        + ", stored "@ + e.entry_hash@
}

/// The description of the failure of the first broken entry `k`.
pub open spec fn failure_text(es: Seq<AuditEntry>, k: int) -> Seq<char> {
    if !linked(es, k) {
        link_failure_text(es[k], expected_previous(es, k))
    } else {
        hash_failure_text(es[k])
    }
}

/// The genesis text is the text of a hash.
pub proof fn lemma_genesis_text_is_hash()
    ensures
        is_hash_text(genesis_text()),
{
    lemma_hex_lower_decodes(genesis_bytes());
}

/// The text of the genesis hash.
fn genesis_hex() -> (s: String)
    ensures
        s@ == genesis_text(),
{
    ForensicHash::genesis().to_hex()
}

/// A read-only verifier over the entries of an audit log, in index order.
pub struct AuditLogVerifier<'a> {
    entries: &'a [AuditEntry],
}

impl<'a> AuditLogVerifier<'a> {
    /// The entries under verification.
    pub closed spec fn log(&self) -> Seq<AuditEntry> {
        self.entries@
    }

    /// A verifier over `entries`.
    pub fn new(entries: &'a [AuditEntry]) -> (v: AuditLogVerifier<'a>)
        ensures
            v.log() == entries@,
    {
        AuditLogVerifier { entries }
    }

    /// Walks the chain and fails at the first broken entry with
    /// `AuditChainBroken`: for a broken link, `expected` is the hash the
    /// entry should link to and `found` its `previous_hash`; for a wrong
    /// hash, `expected` is the recomputed hash and `found` the stored one.
    pub fn verify_chain(&self) -> (r: OracleResult<()>)
        ensures
            r is Ok <==> chain_intact(self.log()),
            forall|k: int|
                first_break(self.log(), k) ==> (r matches Err(
                    OracleError::AuditChainBroken { entry_index, expected, found },
                ) && entry_index == self.log()[k].entry_index && (if !linked(self.log(), k) {
                    expected@ == expected_previous(self.log(), k) && found@ == self.log()[k].previous_hash@
                } else {
                    expected@ == chained_hash(self.log()[k]) && found@ == self.log()[k].entry_hash@
                })),
    {
        let es = self.entries;
        let mut expected = genesis_hex();
        proof {
            lemma_genesis_text_is_hash();
        }
        let mut i: usize = 0;
        while i < es.len()
            invariant
                0 <= i <= es.len(),
                es@ == self.log(),
                intact_prefix(es@, i as int),
                expected@ == expected_previous(es@, i as int),
                is_hash_text(expected@),
            decreases es.len() - i,
        {
            let entry = &es[i];
            if !str_eq(entry.previous_hash.as_str(), expected.as_str()) {
                proof {
                    assert(first_break(es@, i as int));
                    assert forall|k: int| first_break(es@, k) implies k == i by {
                        if k < i {
                            assert(entry_intact(es@, k));
                        } else if k > i {
                            assert(entry_intact(es@, i as int));
                        }
                    }
                }
                return Err(OracleError::AuditChainBroken {
                    entry_index: entry.entry_index,
                    expected,
                    found: entry.previous_hash.clone(),
                });
            }
            let recomputed = match entry.compute_hash() {
                Ok(h) => h,
                Err(e) => {
                    proof {
                        assert(false);
                    }
                    return Err(e);
                },
            };
            if !str_eq(recomputed.as_str(), entry.entry_hash.as_str()) {
                proof {
                    assert(first_break(es@, i as int));
                    assert forall|k: int| first_break(es@, k) implies k == i by {
                        if k < i {
                            assert(entry_intact(es@, k));
                        } else if k > i {
                            assert(entry_intact(es@, i as int));
                        }
                    }
                }
                return Err(OracleError::AuditChainBroken {
                    entry_index: entry.entry_index,
                    expected: recomputed,
                    found: entry.entry_hash.clone(),
                });
            }
            proof {
                assert(entry_intact(es@, i as int));
                assert(intact_prefix(es@, i + 1)) by {
                    assert forall|k: int| 0 <= k < i + 1 implies #[trigger] entry_intact(es@, k) by {
                        if k < i {
                            assert(entry_intact(es@, k));
                        }
                    }
                }
            }
            expected = entry.entry_hash.clone();
            i = i + 1;
        }
        proof {
            assert forall|k: int| !first_break(es@, k) by {
                if 0 <= k < es@.len() {
                    assert(entry_intact(es@, k));
                }
            }
        }
        Ok(())
    }

    /// Walks the chain and reports on it. A broken chain is recorded in the
    /// report, never returned as an error: the result is always `Ok`.
    pub fn verify_full(&self) -> (r: OracleResult<VerificationReport>)
        ensures
            r matches Ok(rep) && reports_on(rep, self.log()),
    {
        let es = self.entries;
        let total_entries = es.len() as u64;
        let mut expected = genesis_hex();
        proof {
            lemma_genesis_text_is_hash();
        }
        let mut first_broken_entry: Option<u64> = None;
        let mut failure_description: Option<String> = None;
        let mut i: usize = 0;
        while i < es.len()
            invariant_except_break
                first_broken_entry is None,
                failure_description is None,
            invariant
                0 <= i <= es.len(),
                es@ == self.log(),
                intact_prefix(es@, i as int),
                expected@ == expected_previous(es@, i as int),
                is_hash_text(expected@),
            ensures
                first_broken_entry is None ==> i == es.len() && failure_description is None,
                first_broken_entry is Some ==> {
                    &&& first_break(es@, i as int)
                    &&& first_broken_entry == Some(es@[i as int].entry_index)
                    &&& failure_description matches Some(d) && d@ == failure_text(es@, i as int)
                },
            decreases es.len() - i,
        {
            let entry = &es[i];
            if !str_eq(entry.previous_hash.as_str(), expected.as_str()) {
                let mut d = owned("Entry ");
                append(&mut d, decimal_string(entry.entry_index).as_str());
                append(&mut d, " previous_hash mismatch: expected ");
                append(&mut d, expected.as_str());
                append(&mut d, ", found ");
                append(&mut d, entry.previous_hash.as_str());
                first_broken_entry = Some(entry.entry_index);
                failure_description = Some(d);
                break;
            }
            let recomputed = match entry.compute_hash() {
                Ok(h) => h,
                Err(_) => {
                    proof {
                        assert(false);
                    }
                    String::new()
                },
            };
            if !str_eq(recomputed.as_str(), entry.entry_hash.as_str()) {
                let mut d = owned("Entry ");
                append(&mut d, decimal_string(entry.entry_index).as_str());
                append(&mut d, " hash mismatch: recomputed ");
                append(&mut d, recomputed.as_str());
                append(&mut d, ", stored ");
                append(&mut d, entry.entry_hash.as_str());
                first_broken_entry = Some(entry.entry_index);
                failure_description = Some(d);
                break;
            }
            proof {
                assert(entry_intact(es@, i as int));
                assert(intact_prefix(es@, i + 1)) by {
                    assert forall|k: int| 0 <= k < i + 1 implies #[trigger] entry_intact(es@, k) by {
                        if k < i {
                            assert(entry_intact(es@, k));
                        }
                    }
                }
            }
            expected = entry.entry_hash.clone();
            i = i + 1;
        }
        proof {
            assert forall|k: int| first_break(es@, k) implies k == i by {
                if k < i {
                    assert(entry_intact(es@, k));
                } else if k > i && i < es@.len() {
                    assert(entry_intact(es@, i as int));
                }
            }
            if first_broken_entry is None {
                assert forall|k: int| 0 <= k < es@.len() implies #[trigger] entry_intact(es@, k) by {}
            } else {
                assert(!entry_intact(es@, i as int));
            }
        }
        let overall_status = if first_broken_entry.is_some() {
            ChainStatus::Broken
        } else {
            ChainStatus::Intact
        };
        let verified_entries = i as u64;
        Ok(VerificationReport {
            total_entries,
            verified_entries,
            first_broken_entry,
            failure_description,
            verification_timestamp: utc_now_text(),
            overall_status,
        })
    }
}


/// A log with a broken entry has a first broken entry.
pub proof fn lemma_first_break_exists(es: Seq<AuditEntry>)
    requires
        !chain_intact(es),
    ensures
        exists|k: int| first_break(es, k),
    decreases es.len(),
{
    if intact_prefix(es, es.len() - 1) {
        assert(first_break(es, es.len() - 1));
    } else {
        let shorter = es.drop_last();
        assert forall|i: int| 0 <= i < shorter.len() && entry_intact(shorter, i) implies #[trigger] entry_intact(es, i) by {
            if i > 0 {
                assert(shorter[i - 1] == es[i - 1]);
            }
            assert(shorter[i] == es[i]);
        }
        assert forall|i: int| 0 <= i < shorter.len() && entry_intact(es, i) implies #[trigger] entry_intact(shorter, i) by {
            if i > 0 {
                assert(shorter[i - 1] == es[i - 1]);
            }
            assert(shorter[i] == es[i]);
        }
        lemma_first_break_exists(shorter);
        let k = choose|k: int| first_break(shorter, k);
        assert(first_break(es, k));
    }
}

/// Replacing the stored hash of an entry of an intact log with any other
/// text breaks the chain at that entry.
pub proof fn law_altered_entry_hash_breaks_chain(es: Seq<AuditEntry>, k: int, altered: AuditEntry)
    requires
        chain_intact(es),
        0 <= k < es.len(),
        altered == (AuditEntry { entry_hash: altered.entry_hash, ..es[k] }),
        altered.entry_hash@ != es[k].entry_hash@,
    ensures
        !chain_intact(es.update(k, altered)),
        first_break(es.update(k, altered), k),
{
    let es2 = es.update(k, altered);
    assert(entry_intact(es, k));
    assert(crate::entry::content_json(altered) == crate::entry::content_json(es[k]));
    assert(!hash_ok(altered));
    assert(!entry_intact(es2, k));
    assert forall|i: int| 0 <= i < k implies #[trigger] entry_intact(es2, i) by {
        assert(entry_intact(es, i));
        if i > 0 {
            assert(es2[i - 1] == es[i - 1]);
        }
    }
}

/// Replacing the previous hash of an entry of an intact log with any other
/// text breaks the chain at that entry.
pub proof fn law_altered_link_breaks_chain(es: Seq<AuditEntry>, k: int, altered: AuditEntry)
    requires
        chain_intact(es),
        0 <= k < es.len(),
        altered.previous_hash@ != es[k].previous_hash@,
    ensures
        !chain_intact(es.update(k, altered)),
        first_break(es.update(k, altered), k),
{
    let es2 = es.update(k, altered);
    assert(linked(es, k)) by {
        assert(entry_intact(es, k));
    }
    assert(expected_previous(es2, k) == expected_previous(es, k)) by {
        if k > 0 {
            assert(es2[k - 1] == es[k - 1]);
        }
    }
    assert(!linked(es2, k));
    assert(!entry_intact(es2, k));
    assert forall|i: int| 0 <= i < k implies #[trigger] entry_intact(es2, i) by {
        assert(es2[i] == es[i]);
        if i > 0 {
            assert(es2[i - 1] == es[i - 1]);
        }
        assert(expected_previous(es2, i) == expected_previous(es, i));
        assert(entry_intact(es, i));
    }
}

} // verus!
