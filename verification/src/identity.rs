//! Resolution of network identities: claims about a Wi-Fi network from
//! several sources are merged into one resolved network.
//!
//! A claim joins the first resolved network that shares its BSSID (unless
//! the claim's MAC address is randomised) or its SSID with a compatible
//! security protocol. Confidence grows with the number of sources and is
//! reduced for randomised MAC addresses; here it is kept in basis points.

use vstd::prelude::*;
use crate::sort::{Keyed, stable_sorted_by, sort_stable, lemma_stable_sorted_props, ascending_by};
use crate::types::{is_v4_uuid, random_uuid, ArtifactId, RecordId, SecurityProtocol};

verus! {

broadcast use vstd::seq_lib::group_seq_properties;

/// A unique resolved-network identifier (a UUID value).
#[derive(Debug, Clone, Copy, PartialEq, Eq, Hash, Structural)]
pub struct NetworkIdentityId(pub u128);

impl NetworkIdentityId {
    /// A fresh random (version 4) identifier.
    pub fn new() -> (id: NetworkIdentityId)
        ensures
            is_v4_uuid(id.0),
    {
        NetworkIdentityId(random_uuid())
    }
}

/// What one source says about a network.
#[derive(Debug)]
pub struct NetworkClaim {
    /// The artifact the claim comes from.
    pub artifact_id: ArtifactId,
    /// The record within the artifact.
    pub record_id: RecordId,
    /// Human-readable description of the source.
    pub source_description: String,
    /// The normalised SSID, if known.
    pub ssid: Option<String>,
    /// The normalised BSSID, if known.
    pub bssid: Option<String>,
    /// The security protocol, if known.
    pub security_protocol: Option<SecurityProtocol>,
    /// When the network was last seen active, in nanoseconds since the epoch.
    pub last_seen_ns: Option<i128>,
    /// The BSSID is locally administered (a randomised MAC address).
    pub is_locally_administered: bool,
}

/// A network identity that one or more claims resolve to.
#[derive(Debug)]
pub struct ResolvedNetwork {
    /// Unique identifier.
    pub id: NetworkIdentityId,
    /// The SSID first seen.
    pub canonical_ssid: Option<String>,
    /// Every distinct SSID claimed.
    pub observed_ssids: Vec<String>,
    /// The first BSSID claimed from a non-randomised MAC address.
    pub canonical_bssid: Option<String>,
    /// Every distinct BSSID claimed.
    pub observed_bssids: Vec<String>,
    /// The security protocol.
    pub security_protocol: SecurityProtocol,
    /// Some claim came from a randomised MAC address.
    pub has_randomized_mac: bool,
    /// The claims, in the order they were merged.
    pub source_claims: Vec<NetworkClaim>,
    /// The number of claims.
    pub source_count: usize,
    /// Confidence in basis points (hundredths of a percent).
    pub confidence_bp: u32,
    /// The earliest instant a claim gave.
    pub first_seen_ns: Option<i128>,
    /// The latest instant a claim gave.
    pub last_seen_ns: Option<i128>,
}

/// The confidence of a network with `count` sources, in basis points:
/// 40, 65, 80, 90 and from five sources on 95 percent, times 0.85 when a
/// MAC address was randomised.
pub open spec fn confidence_bp_of(count: int, randomized: bool) -> int {
    let base: int = if count == 1 {
        4000
    } else if count == 2 {
        6500
    } else if count == 3 {
        8000
    } else if count == 4 {
        9000
    } else {
        9500
    };
    if randomized {
        base * 85 / 100
    } else {
        base
    }
}

/// Some text of `v` equals `t`.
pub open spec fn has_text(v: Seq<String>, t: Seq<char>) -> bool {
    exists|i: int| 0 <= i < v.len() && (#[trigger] v[i])@ == t
}

/// The security protocols agree: the claim gives none, gives the
/// network's, or the network's is unknown.
pub open spec fn security_compatible(claimed: Option<SecurityProtocol>, have: SecurityProtocol) -> bool {
    match claimed {
        Some(a) => a == have || have == SecurityProtocol::Unknown,
        None => true,
    }
}

/// Claim `c` matches network `n`: by its canonical BSSID, by any observed
/// BSSID (both only when the claim's MAC is not randomised), or by SSID
/// with a compatible security protocol.
pub open spec fn claim_matches(n: ResolvedNetwork, c: NetworkClaim) -> bool {
    ||| (c.bssid is Some && n.canonical_bssid is Some && !c.is_locally_administered
        && c.bssid.unwrap()@ == n.canonical_bssid.unwrap()@)
    ||| (c.bssid is Some && !c.is_locally_administered && has_text(
        n.observed_bssids@,
        c.bssid.unwrap()@,
    ))
    ||| (c.ssid is Some && n.canonical_ssid is Some && c.ssid.unwrap()@ == n.canonical_ssid.unwrap()@
        && security_compatible(c.security_protocol, n.security_protocol))
}

/// The position of the first network of `ns` from `from` on that `c`
/// matches, or -1 when there is none.
pub open spec fn first_match_from(ns: Seq<ResolvedNetwork>, c: NetworkClaim, from: int) -> int
    decreases ns.len() - from,
{
    if from < 0 || from >= ns.len() {
        -1
    } else if claim_matches(ns[from], c) {
        from
    } else {
        first_match_from(ns, c, from + 1)
    }
}

/// The position of the first network of `ns` that `c` matches, or -1.
pub open spec fn first_match(ns: Seq<ResolvedNetwork>, c: NetworkClaim) -> int {
    first_match_from(ns, c, 0)
}

/// `v` with `t` added unless it is already there.
pub open spec fn with_text(v: Seq<String>, t: String) -> Seq<String> {
    if has_text(v, t@) {
        v
    } else {
        v.push(t)
    }
}

/// The later of an optional instant and another.
pub open spec fn later(a: Option<i128>, b: i128) -> i128 {
    match a {
        Some(x) => if x >= b {
            x
        } else {
            b
        },
        None => b,
    }
}

/// The earlier of an optional instant and another.
pub open spec fn earlier(a: Option<i128>, b: i128) -> i128 {
    match a {
        Some(x) => if x <= b {
            x
        } else {
            b
        },
        None => b,
    }
}

/// `n` is `o` with claim `c` merged in.
pub open spec fn merged_into(o: ResolvedNetwork, n: ResolvedNetwork, c: NetworkClaim) -> bool {
    &&& n.id == o.id
    &&& n.observed_ssids@ == (match c.ssid {
        Some(s) => with_text(o.observed_ssids@, s),
        None => o.observed_ssids@,
    })
    &&& n.canonical_ssid == (if c.ssid is Some && o.canonical_ssid is None {
        c.ssid
    } else {
        o.canonical_ssid
    })
    &&& n.observed_bssids@ == (match c.bssid {
        Some(b) => with_text(o.observed_bssids@, b),
        None => o.observed_bssids@,
    })
    &&& n.canonical_bssid == (if c.bssid is Some && o.canonical_bssid is None
        && !c.is_locally_administered {
        c.bssid
    } else {
        o.canonical_bssid
    })
    &&& n.security_protocol == (if c.security_protocol is Some && o.security_protocol
        == SecurityProtocol::Unknown {
        c.security_protocol.unwrap()
    } else {
        o.security_protocol
    })
    &&& n.has_randomized_mac == (o.has_randomized_mac || c.is_locally_administered)
    &&& n.last_seen_ns == (match c.last_seen_ns {
        Some(t) => Some(later(o.last_seen_ns, t)),
        None => o.last_seen_ns,
    })
    &&& n.first_seen_ns == (match c.last_seen_ns {
        Some(t) => Some(earlier(o.first_seen_ns, t)),
        None => o.first_seen_ns,
    })
    &&& n.source_claims@ == o.source_claims@.push(c)
    &&& n.source_count == o.source_count + 1
    &&& n.confidence_bp == confidence_bp_of(n.source_count as int, n.has_randomized_mac)
}

/// `n` is the network that claim `c` alone resolves to.
pub open spec fn created_from(n: ResolvedNetwork, c: NetworkClaim) -> bool {
    &&& n.canonical_ssid == c.ssid
    &&& n.observed_ssids@ == (match c.ssid {
        Some(s) => seq![s],
        None => Seq::empty(),
    })
    &&& n.canonical_bssid == (if c.is_locally_administered {
        None
    } else {
        c.bssid
    })
    &&& n.observed_bssids@ == (match c.bssid {
        Some(b) => seq![b],
        None => Seq::empty(),
    })
    &&& n.security_protocol == (match c.security_protocol {
        Some(p) => p,
        None => SecurityProtocol::Unknown,
    })
    &&& n.has_randomized_mac == c.is_locally_administered
    &&& n.source_claims@ == seq![c]
    &&& n.source_count == 1
    &&& n.confidence_bp == confidence_bp_of(1, c.is_locally_administered)
    &&& n.first_seen_ns == c.last_seen_ns
    &&& n.last_seen_ns == c.last_seen_ns
}

impl ResolvedNetwork {
    /// The counts agree with the claims, the confidence with the count, and
    /// a canonical BSSID was given by some claim from a MAC address that was
    /// not randomised.
    pub open spec fn well_formed(&self) -> bool {
        &&& self.source_count == self.source_claims@.len()
        &&& self.source_count >= 1
        &&& self.confidence_bp == confidence_bp_of(self.source_count as int, self.has_randomized_mac)
        &&& (self.canonical_bssid is Some ==> exists|i: int|
            0 <= i < self.source_claims@.len() && !(#[trigger] self.source_claims@[i]).is_locally_administered
                && self.source_claims@[i].bssid == self.canonical_bssid)
    }
}

impl Keyed for ResolvedNetwork {
    /// Ordering by this key puts higher confidence first, then more sources.
    open spec fn key_spec(&self) -> int {
        -(self.confidence_bp * 0x1_0000_0000_0000_0000 + self.source_count)
    }

    fn sort_key(&self) -> (k: i128) {
        0 - (self.confidence_bp as i128 * 0x1_0000_0000_0000_0000 + self.source_count as i128)
    }
}

/// Resolves and de-duplicates network claims.
#[derive(Debug)]
pub struct NetworkIdentityResolver {
    resolved: Vec<ResolvedNetwork>,
    ingested: usize,
}

impl NetworkIdentityResolver {
    /// The networks resolved so far, in order of creation.
    pub closed spec fn networks(&self) -> Seq<ResolvedNetwork> {
        self.resolved@
    }

    /// The number of claims taken in so far.
    pub closed spec fn ingested_spec(&self) -> int {
        self.ingested as int
    }

    /// Every network is well formed and has no more sources than claims
    /// were taken in.
    pub open spec fn well_formed(&self) -> bool {
        forall|i: int|
            0 <= i < self.networks().len() ==> {
                &&& (#[trigger] self.networks()[i]).well_formed()
                &&& self.networks()[i].source_count <= self.ingested_spec()
            }
    }

    /// A resolver with no networks.
    pub fn new() -> (r: NetworkIdentityResolver)
        ensures
            r.networks().len() == 0,
            r.ingested_spec() == 0,
            r.well_formed(),
    {
        NetworkIdentityResolver { resolved: Vec::new(), ingested: 0 }
    }

    /// The networks resolved so far, in order of creation.
    pub fn current(&self) -> (r: &Vec<ResolvedNetwork>)
        ensures
            r@ == self.networks(),
    {
        &self.resolved
    }

    /// Takes in a claim: it is merged into the first network it matches, or
    /// a new network is created from it.
    pub fn ingest(&mut self, claim: NetworkClaim)
        requires
            old(self).well_formed(),
            old(self).ingested_spec() < usize::MAX,
        ensures
            final(self).well_formed(),
            final(self).ingested_spec() == old(self).ingested_spec() + 1,
            ({
                let k = first_match(old(self).networks(), claim);
                let before = old(self).networks();
                let after = final(self).networks();
                if k >= 0 {
                    &&& after.len() == before.len()
                    &&& forall|i: int| 0 <= i < before.len() && i != k ==> after[i] == before[i]
                    &&& merged_into(before[k], after[k], claim)
                } else {
                    &&& after.len() == before.len() + 1
                    &&& after.drop_last() == before
                    &&& created_from(after.last(), claim)
                }
            }),
    {
        let found = self.find_match(&claim);
        match found {
            Some(idx) => self.merge_into(idx, claim),
            None => self.create_new(claim),
        }
    }

    /// The resolved networks, highest confidence first, then most sources;
    /// networks that tie keep their order of creation.
    pub fn resolve(self) -> (r: Vec<ResolvedNetwork>)
        ensures
            r@ == stable_sorted_by(self.networks(), |n: ResolvedNetwork| n.key_spec()),
    {
        let mut resolved = self.resolved;
        sort_stable(&mut resolved);
        resolved
    }

    /// The position of the first network that `claim` matches.
    fn find_match(&self, claim: &NetworkClaim) -> (r: Option<usize>)
        ensures
            match r {
                Some(k) => k as int == first_match(self.networks(), *claim) && k < self.networks().len(),
                None => first_match(self.networks(), *claim) < 0,
            },
    {
        let n = self.resolved.len();
        let mut i: usize = n;
        let mut found: Option<usize> = None;
        while i > 0
            invariant
                i <= n,
                n == self.resolved@.len(),
                match found {
                    Some(k) => k as int == first_match_from(self.resolved@, *claim, i as int) && i
                        <= k < n,
                    None => first_match_from(self.resolved@, *claim, i as int) < 0,
                },
            decreases i,
        {
            let network = &self.resolved[i - 1];
            if matches_claim(network, claim) {
                found = Some(i - 1);
            }
            i = i - 1;
        }
        found
    }

    /// Merges `claim` into network `idx`.
    fn merge_into(&mut self, idx: usize, claim: NetworkClaim)
        requires
            old(self).well_formed(),
            old(self).ingested_spec() < usize::MAX,
            idx as int == first_match(old(self).networks(), claim),
            idx < old(self).networks().len(),
        ensures
            final(self).well_formed(),
            final(self).ingested_spec() == old(self).ingested_spec() + 1,
            final(self).networks().len() == old(self).networks().len(),
            forall|i: int|
                0 <= i < old(self).networks().len() && i != idx ==> final(self).networks()[i]
                    == old(self).networks()[i],
            merged_into(old(self).networks()[idx as int], final(self).networks()[idx as int], claim),
    {
        let ghost before = self.resolved@;
        assert(self.networks()[idx as int].well_formed());
        let mut network = self.resolved.remove(idx);
        let ghost o = network;
        match &claim.ssid {
            Some(ssid) => {
                if !contains_text(&network.observed_ssids, ssid.as_str()) {
                    network.observed_ssids.push(ssid.clone());
                }
                if network.canonical_ssid.is_none() {
                    network.canonical_ssid = Some(ssid.clone());
                }
            },
            None => {},
        }
        match &claim.bssid {
            Some(bssid) => {
                if !contains_text(&network.observed_bssids, bssid.as_str()) {
                    network.observed_bssids.push(bssid.clone());
                }
                if network.canonical_bssid.is_none() && !claim.is_locally_administered {
                    network.canonical_bssid = Some(bssid.clone());
                }
            },
            None => {},
        }
        match claim.security_protocol {
            Some(p) => {
                if network.security_protocol == SecurityProtocol::Unknown {
                    network.security_protocol = p;
                }
            },
            None => {},
        }
        if claim.is_locally_administered {
            network.has_randomized_mac = true;
        }
        match claim.last_seen_ns {
            Some(t) => {
                network.last_seen_ns = Some(
                    match network.last_seen_ns {
                        Some(x) => if x >= t {
                            x
                        } else {
                            t
                        },
                        None => t,
                    },
                );
                network.first_seen_ns = Some(
                    match network.first_seen_ns {
                        Some(x) => if x <= t {
                            x
                        } else {
                            t
                        },
                        None => t,
                    },
                );
            },
            None => {},
        }
        network.source_count = network.source_count + 1;
        let ghost canonical_before = network.canonical_bssid;
        network.source_claims.push(claim);
        network.confidence_bp = compute_confidence_bp(
            network.source_count,
            network.has_randomized_mac,
        );
        self.resolved.insert(idx, network);
        self.ingested = self.ingested + 1;
        proof {
            assert(self.resolved@ =~= before.update(idx as int, network));
            assert(merged_into(o, network, claim));
            if network.canonical_bssid is Some {
                if o.canonical_bssid is Some {
                    let i = choose|i: int|
                        0 <= i < o.source_claims@.len()
                            && !(#[trigger] o.source_claims@[i]).is_locally_administered
                            && o.source_claims@[i].bssid == o.canonical_bssid;
                    assert(network.source_claims@[i] == o.source_claims@[i]);
                } else {
                    let last = o.source_claims@.len() as int;
                    assert(network.source_claims@[last] == claim);
                }
            }
            assert(network.well_formed());
            assert forall|i: int| 0 <= i < self.networks().len() implies {
                &&& (#[trigger] self.networks()[i]).well_formed()
                &&& self.networks()[i].source_count <= self.ingested_spec()
            } by {
                if i != idx {
                    assert(self.networks()[i] == before[i]);
                    assert(old(self).networks()[i].well_formed());
                }
            }
        }
    }

    /// Adds a network resolved from `claim` alone.
    fn create_new(&mut self, claim: NetworkClaim)
        requires
            old(self).well_formed(),
            old(self).ingested_spec() < usize::MAX,
        ensures
            final(self).well_formed(),
            final(self).ingested_spec() == old(self).ingested_spec() + 1,
            final(self).networks().len() == old(self).networks().len() + 1,
            final(self).networks().drop_last() == old(self).networks(),
            created_from(final(self).networks().last(), claim),
    {
        let ghost before = self.resolved@;
        let security = match claim.security_protocol {
            Some(p) => p,
            None => SecurityProtocol::Unknown,
        };
        let randomized = claim.is_locally_administered;
        let first_seen = claim.last_seen_ns;
        let last_seen = claim.last_seen_ns;
        let mut observed_ssids: Vec<String> = Vec::new();
        let canonical_ssid = match &claim.ssid {
            Some(s) => {
                observed_ssids.push(s.clone());
                Some(s.clone())
            },
            None => None,
        };
        let mut observed_bssids: Vec<String> = Vec::new();
        let canonical_bssid = match &claim.bssid {
            Some(b) => {
                observed_bssids.push(b.clone());
                if randomized {
                    None
                } else {
                    Some(b.clone())
                }
            },
            None => None,
        };
        let ghost c = claim;
        let mut claims: Vec<NetworkClaim> = Vec::new();
        claims.push(claim);
        let network = ResolvedNetwork {
            id: NetworkIdentityId::new(),
            canonical_ssid,
            observed_ssids,
            canonical_bssid,
            observed_bssids,
            security_protocol: security,
            has_randomized_mac: randomized,
            source_claims: claims,
            source_count: 1,
            confidence_bp: compute_confidence_bp(1, randomized),
            first_seen_ns: first_seen,
            last_seen_ns: last_seen,
        };
        self.resolved.push(network);
        self.ingested = self.ingested + 1;
        proof {
            assert(claims@ =~= seq![c]);
            if c.ssid is Some {
                assert(observed_ssids@ =~= seq![c.ssid.unwrap()]);
            } else {
                assert(observed_ssids@ =~= Seq::<String>::empty());
            }
            if c.bssid is Some {
                assert(observed_bssids@ =~= seq![c.bssid.unwrap()]);
            } else {
                assert(observed_bssids@ =~= Seq::<String>::empty());
            }
            assert(self.resolved@.drop_last() =~= before);
            if network.canonical_bssid is Some {
                assert(network.source_claims@[0] == c);
            }
            assert(network.well_formed());
            assert forall|i: int| 0 <= i < self.networks().len() implies {
                &&& (#[trigger] self.networks()[i]).well_formed()
                &&& self.networks()[i].source_count <= self.ingested_spec()
            } by {
                if i < before.len() {
                    assert(self.networks()[i] == before[i]);
                    assert(old(self).networks()[i].well_formed());
                }
            }
        }
    }
}

/// The confidence of a network with `count` sources, in basis points.
pub fn compute_confidence_bp(count: usize, randomized: bool) -> (r: u32)
    ensures
        r == confidence_bp_of(count as int, randomized),
{
    let base: u32 = if count == 1 {
        4000
    } else if count == 2 {
        6500
    } else if count == 3 {
        8000
    } else if count == 4 {
        9000
    } else {
        9500
    };
    if randomized {
        base * 85 / 100
    } else {
        base
    }
}

/// Some text of `v` equals `t`.
pub(crate) fn contains_text(v: &Vec<String>, t: &str) -> (r: bool)
    ensures
        r == has_text(v@, t@),
{
    let mut i: usize = 0;
    while i < v.len()
        invariant
            i <= v@.len(),
            forall|j: int| 0 <= j < i ==> (#[trigger] v@[j])@ != t@,
        decreases v@.len() - i,
    {
        if crate::text::str_eq(v[i].as_str(), t) {
            return true;
        }
        i = i + 1;
    }
    false
}

/// Claim `claim` matches `network`.
fn matches_claim(network: &ResolvedNetwork, claim: &NetworkClaim) -> (r: bool)
    ensures
        r == claim_matches(*network, *claim),
{
    if let Some(cb) = &claim.bssid {
        if !claim.is_locally_administered {
            if let Some(nb) = &network.canonical_bssid {
                if crate::text::str_eq(cb.as_str(), nb.as_str()) {
                    return true;
                }
            }
            if contains_text(&network.observed_bssids, cb.as_str()) {
                return true;
            }
        }
    }
    if let (Some(cs), Some(ns)) = (&claim.ssid, &network.canonical_ssid) {
        if crate::text::str_eq(cs.as_str(), ns.as_str()) {
            let security_ok = match claim.security_protocol {
                Some(a) => a == network.security_protocol || network.security_protocol
                    == SecurityProtocol::Unknown,
                None => true,
            };
            if security_ok {
                return true;
            }
        }
    }
    false
}

/// More sources never lower the confidence, and up to five sources each one
/// raises it.
pub proof fn law_confidence_grows_with_sources(a: int, b: int, randomized: bool)
    requires
        1 <= a <= b,
    ensures
        confidence_bp_of(a, randomized) <= confidence_bp_of(b, randomized),
        a < b && a < 5 ==> confidence_bp_of(a, randomized) < confidence_bp_of(b, randomized),
{
}

/// A randomised MAC address lowers the confidence.
pub proof fn law_randomized_mac_lowers_confidence(count: int)
    ensures
        confidence_bp_of(count, true) < confidence_bp_of(count, false),
{
}

/// Resolved networks come highest confidence first and, at equal
/// confidence, most sources first.
pub proof fn law_resolved_by_confidence(r: NetworkIdentityResolver)
    ensures
        ({
            let s = stable_sorted_by(r.networks(), |n: ResolvedNetwork| n.key_spec());
            forall|i: int, j: int|
                0 <= i <= j < s.len() ==> s[i].confidence_bp > s[j].confidence_bp || (
                s[i].confidence_bp == s[j].confidence_bp && s[i].source_count >= s[j].source_count)
        }),
{
    let key = |n: ResolvedNetwork| n.key_spec();
    let s = stable_sorted_by(r.networks(), key);
    lemma_stable_sorted_props(r.networks(), key);
    assert forall|i: int, j: int| 0 <= i <= j < s.len() implies s[i].confidence_bp
        > s[j].confidence_bp || (s[i].confidence_bp == s[j].confidence_bp && s[i].source_count
        >= s[j].source_count) by {
        assert(key(s[i]) <= key(s[j]));
        lemma_key_order(s[i].confidence_bp as int, s[i].source_count as int, s[j].confidence_bp as int, s[j].source_count as int);
    }
}

proof fn lemma_key_order(a: int, b: int, c: int, d: int)
    by (nonlinear_arith)
    requires
        0 <= b < 0x1_0000_0000_0000_0000,
        0 <= d < 0x1_0000_0000_0000_0000,
        -(a * 0x1_0000_0000_0000_0000 + b) <= -(c * 0x1_0000_0000_0000_0000 + d),
    ensures
        a > c || (a == c && b >= d),
{
}

/// A network's canonical BSSID never comes from a randomised MAC address:
/// some claim from a MAC that was not randomised gave it.
pub proof fn law_canonical_bssid_not_randomized(r: NetworkIdentityResolver, i: int)
    requires
        r.well_formed(),
        0 <= i < r.networks().len(),
        r.networks()[i].canonical_bssid is Some,
    ensures
        exists|j: int|
            0 <= j < r.networks()[i].source_claims@.len()
                && !(#[trigger] r.networks()[i].source_claims@[j]).is_locally_administered
                && r.networks()[i].source_claims@[j].bssid == r.networks()[i].canonical_bssid,
{
    assert(r.networks()[i].well_formed());
}

impl Default for NetworkIdentityResolver {
    /// A resolver with no networks, as `new` makes it.
    fn default() -> (r: NetworkIdentityResolver)
        ensures
            r.networks().len() == 0,
            r.ingested_spec() == 0,
            r.well_formed(),
    {
        NetworkIdentityResolver::new()
    }
}

} // verus!
