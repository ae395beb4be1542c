//! The capability profiles of investigations and the examiner's
//! acknowledgment of them.
//!
//! Each investigation has at most one profile, stored once and never
//! replaced; a profile is acknowledged at most once, and an unacknowledged
//! profile blocks acquisition.

use vstd::prelude::*;
use crate::error::{OracleError, OracleResult};
use crate::text::{append, owned};
use crate::types::{
    utc_now_millis, uuid_string, uuid_text, CapabilityProfile, ExaminerIdentity, InvestigationId,
};

verus! {

/// A stored profile with its investigation and acknowledgment.
#[derive(Debug, Clone)]
pub struct StoredProfile {
    /// The profile from capability detection.
    pub profile: CapabilityProfile,
    /// The investigation the profile belongs to.
    pub investigation_id: InvestigationId,
    /// Who acknowledged the profile, if anyone.
    pub acknowledged_by: Option<ExaminerIdentity>,
    /// When it was acknowledged, in milliseconds since the Unix epoch.
    pub acknowledged_at: Option<i64>,
}

/// The position of the profile of investigation `id` among `ps`, if any.
pub open spec fn position_of(ps: Seq<StoredProfile>, id: u128, i: int) -> Option<int>
    decreases ps.len() - i,
{
    if i < 0 || i >= ps.len() {
        None
    } else if ps[i].investigation_id.0 == id {
        Some(i)
    } else {
        position_of(ps, id, i + 1)
    }
}

/// The profile of investigation `id` among `ps`, if any.
pub open spec fn profile_of(ps: Seq<StoredProfile>, id: u128) -> Option<StoredProfile> {
    match position_of(ps, id, 0) {
        Some(p) => Some(ps[p]),
        None => None,
    }
}

/// The message naming investigation `id` between `before` and `after`.
pub open spec fn about(before: Seq<char>, id: u128, after: Seq<char>) -> Seq<char> {
    before + uuid_text(id) + after
}

/// Every position that `position_of` gives is in range and holds `id`, and
/// no earlier position does.
pub proof fn lemma_position_of(ps: Seq<StoredProfile>, id: u128, i: int)
    requires
        0 <= i,
    ensures
        position_of(ps, id, i) matches Some(p) ==> i <= p < ps.len() && ps[p].investigation_id.0 == id,
        position_of(ps, id, i) is None ==> forall|k: int|
            i <= k < ps.len() ==> (#[trigger] ps[k]).investigation_id.0 != id,
    decreases ps.len() - i,
{
    if 0 <= i < ps.len() && ps[i].investigation_id.0 != id {
        lemma_position_of(ps, id, i + 1);
    }
}

fn about_text(before: &str, id: u128, after: &str) -> (r: String)
    ensures
        r@ == about(before@, id, after@),
{
    let mut s = owned(before);
    append(&mut s, uuid_string(id).as_str());
    append(&mut s, after);
    s
}

/// The capability profiles of investigations.
#[derive(Debug, Clone)]
pub struct CapabilityProfileStore {
    profiles: Vec<StoredProfile>,
}

impl CapabilityProfileStore {
    /// The stored profiles, in the order they were stored.
    pub closed spec fn stored(&self) -> Seq<StoredProfile> {
        self.profiles@
    }

    /// An empty store.
    pub fn new() -> (s: CapabilityProfileStore)
        ensures
            s.stored().len() == 0,
    {
        CapabilityProfileStore { profiles: Vec::new() }
    }

    fn find(&self, id: u128) -> (r: Option<usize>)
        ensures
            match r {
                None => position_of(self.stored(), id, 0) is None,
                Some(p) => position_of(self.stored(), id, 0) == Some(p as int) && p < self.stored().len(),
            },
    {
        let mut i: usize = 0;
        while i < self.profiles.len()
            invariant
                0 <= i <= self.profiles.len(),
                position_of(self.profiles@, id, 0) == position_of(self.profiles@, id, i as int),
            decreases self.profiles.len() - i,
        {
            if self.profiles[i].investigation_id.0 == id {
                return Some(i);
            }
            i = i + 1;
        }
        None
    }

    /// Stores the profile of an investigation. Fails with
    /// `ConfigurationError`, changing nothing, when the investigation
    /// already has one: stored profiles are never replaced.
    pub fn store_profile(&mut self, investigation_id: InvestigationId, profile: CapabilityProfile) -> (r:
        OracleResult<()>)
        ensures
            match profile_of(old(self).stored(), investigation_id.0) {
                Some(_) => {
                    &&& r matches Err(OracleError::ConfigurationError { reason })
                    &&& reason@ == about(
                        "Profile already exists for investigation "@,
                        investigation_id.0,
                        ""@,
                    )
                    &&& final(self).stored() == old(self).stored()
                },
                None => {
                    &&& r is Ok
                    &&& final(self).stored() == old(self).stored().push(
                        StoredProfile {
                            profile,
                            investigation_id,
                            acknowledged_by: None,
                            acknowledged_at: None,
                        },
                    )
                },
            },
    {
        if let Some(_) = self.find(investigation_id.0) {
            return Err(
                OracleError::ConfigurationError {
                    reason: about_text("Profile already exists for investigation ", investigation_id.0, ""),
                },
            );
        }
        self.profiles.push(
            StoredProfile { profile, investigation_id, acknowledged_by: None, acknowledged_at: None },
        );
        Ok(())
    }

    /// The stored profile of an investigation. Fails with
    /// `ConfigurationError` when it has none.
    pub fn get_profile(&self, investigation_id: &InvestigationId) -> (r: OracleResult<&StoredProfile>)
        ensures
            match profile_of(self.stored(), investigation_id.0) {
                Some(p) => r matches Ok(q) && *q == p,
                None => r matches Err(OracleError::ConfigurationError { reason }) && reason@ == about(
                    "No profile found for investigation "@,
                    investigation_id.0,
                    ""@,
                ),
            },
    {
        match self.find(investigation_id.0) {
            Some(p) => Ok(&self.profiles[p]),
            None => Err(
                OracleError::ConfigurationError {
                    reason: about_text("No profile found for investigation ", investigation_id.0, ""),
                },
            ),
        }
    }

    /// Records the examiner's acknowledgment of an investigation's profile:
    /// the profile is marked acknowledged, with the examiner and the time.
    /// Fails with `ConfigurationError`, changing nothing, when there is no
    /// profile or it was already acknowledged.
    pub fn acknowledge_profile(&mut self, investigation_id: &InvestigationId, examiner: ExaminerIdentity) -> (r:
        OracleResult<()>)
        ensures
            match position_of(old(self).stored(), investigation_id.0, 0) {
                None => {
                    &&& r matches Err(OracleError::ConfigurationError { reason })
                    &&& reason@ == about(
                        "No profile found for investigation "@,
                        investigation_id.0,
                        ""@,
                    )
                    &&& final(self).stored() == old(self).stored()
                },
                Some(p) => if old(self).stored()[p].acknowledged_by is Some {
                    &&& r matches Err(OracleError::ConfigurationError { reason })
                    &&& reason@ == about(
                        "Profile for investigation "@,
                        investigation_id.0,
                        " is already acknowledged"@,
                    )
                    &&& final(self).stored() == old(self).stored()
                } else {
                    let before = old(self).stored()[p];
                    let after = final(self).stored()[p];
                    &&& r is Ok
                    &&& final(self).stored().len() == old(self).stored().len()
                    &&& forall|k: int|
                        0 <= k < old(self).stored().len() && k != p ==> final(self).stored()[k]
                            == old(self).stored()[k]
                    &&& after.investigation_id == before.investigation_id
                    &&& after.profile == (CapabilityProfile { acknowledged: true, ..before.profile })
                    &&& after.acknowledged_by == Some(examiner)
                    &&& after.acknowledged_at is Some
                },
            },
    {
        let p = match self.find(investigation_id.0) {
            Some(p) => p,
            None => {
                return Err(
                    OracleError::ConfigurationError {
                        reason: about_text("No profile found for investigation ", investigation_id.0, ""),
                    },
                );
            },
        };
        if self.profiles[p].acknowledged_by.is_some() {
            return Err(
                OracleError::ConfigurationError {
                    reason: about_text(
                        "Profile for investigation ",
                        investigation_id.0,
                        " is already acknowledged",
                    ),
                },
            );
        }
        let ghost old_ps = self.profiles@;
        let mut sp = self.profiles.remove(p);
        sp.profile.acknowledged = true;
        sp.acknowledged_at = Some(utc_now_millis());
        sp.acknowledged_by = Some(examiner);
        self.profiles.insert(p, sp);
        proof {
            assert forall|k: int| 0 <= k < old_ps.len() && k != p implies self.profiles@[k] == old_ps[k] by {
                if k < p {
                } else {
                }
            }
        }
        Ok(())
    }

    /// Whether the profile of an investigation was acknowledged (`false`
    /// when it has none).
    pub fn is_acknowledged(&self, investigation_id: &InvestigationId) -> (r: bool)
        ensures
            r == (profile_of(self.stored(), investigation_id.0) matches Some(p) && p.acknowledged_by is Some),
    {
        match self.find(investigation_id.0) {
            Some(p) => self.profiles[p].acknowledged_by.is_some(),
            None => false,
        }
    }

    /// The number of stored profiles.
    pub fn profile_count(&self) -> (n: usize)
        ensures
            n == self.stored().len(),
    {
        self.profiles.len()
    }
}

/// A stored profile is kept: once `store_profile` succeeds for an
/// investigation, the store holds that profile for it, and storing again
/// for the same investigation fails.
pub proof fn law_stored_profile_is_kept(before: Seq<StoredProfile>, sp: StoredProfile)
    requires
        profile_of(before, sp.investigation_id.0) is None,
    ensures
        profile_of(before.push(sp), sp.investigation_id.0) == Some(sp),
{
    lemma_position_of(before, sp.investigation_id.0, 0);
    lemma_position_of(before.push(sp), sp.investigation_id.0, 0);
    let after = before.push(sp);
    assert(after[before.len() as int] == sp);
    assert(position_of(after, sp.investigation_id.0, 0) is Some);
    let p = position_of(after, sp.investigation_id.0, 0)->0;
    if p < before.len() {
        assert(after[p] == before[p]);
    }
    assert(p == before.len());
}

impl Default for CapabilityProfileStore {
    /// An empty store, as `new` makes it.
    fn default() -> (s: CapabilityProfileStore)
        ensures
            s.stored().len() == 0,
    {
        CapabilityProfileStore::new()
    }
}

} // verus!
