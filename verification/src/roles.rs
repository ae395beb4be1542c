//! Whether the device acted as a Wi-Fi client or as a hotspot, decided by
//! a weighted vote of role signals.
//!
//! Weights are basis points; the vote is counted exactly, in half basis
//! points (an ambiguous signal gives half its weight to each side). A side
//! wins with at least 65% of the vote. Confidences are basis points of the
//! vote, rounded down; the rationale's percentages are rounded to the
//! nearest whole percent, ties to even.

use vstd::prelude::*;
use crate::correlate::{RoleClassifier, RoleSignal};
use crate::text::{append, decimal, decimal_string, owned};
use crate::types::NetworkRole;

verus! {

/// The share of the vote, in half basis points, that a signal gives the
/// client side.
pub open spec fn client_share(s: RoleSignal) -> int {
    match s.supports {
        NetworkRole::DeviceAsClient => 2 * s.weight_bp,
        NetworkRole::DeviceAsHotspot => 0,
        NetworkRole::Ambiguous => s.weight_bp as int,
    }
}

/// The share of the vote, in half basis points, that a signal gives the
/// hotspot side.
pub open spec fn hotspot_share(s: RoleSignal) -> int {
    match s.supports {
        NetworkRole::DeviceAsClient => 0,
        NetworkRole::DeviceAsHotspot => 2 * s.weight_bp,
        NetworkRole::Ambiguous => s.weight_bp as int,
    }
}

/// The client side's vote.
pub open spec fn client_votes(s: Seq<RoleSignal>) -> int
    decreases s.len(),
{
    if s.len() == 0 {
        0
    } else {
        client_votes(s.drop_last()) + client_share(s.last())
    }
}

/// The hotspot side's vote.
pub open spec fn hotspot_votes(s: Seq<RoleSignal>) -> int
    decreases s.len(),
{
    if s.len() == 0 {
        0
    } else {
        hotspot_votes(s.drop_last()) + hotspot_share(s.last())
    }
}

/// The number of signals that support `role`.
pub open spec fn supporting(s: Seq<RoleSignal>, role: NetworkRole) -> nat {
    s.filter(|x: RoleSignal| x.supports == role).len()
}

/// `part` holds at least 65% of `total`.
pub open spec fn wins(part: int, total: int) -> bool {
    100 * part >= 65 * total
}

/// `part` of `total` in basis points, rounded down.
pub open spec fn share_bp(part: int, total: int) -> int {
    (10000 * part) / total
}

/// `part` of `total` in whole percent, rounded to the nearest, ties to
/// even.
pub open spec fn rounded_percent(part: int, total: int) -> int {
    let q = (100 * part) / total;
    let r = (100 * part) % total;
    if 2 * r > total {
        q + 1
    } else if 2 * r == total && q % 2 == 1 {
        q + 1
    } else {
        q
    }
}

/// The role the signals decide.
pub open spec fn role_of(s: Seq<RoleSignal>) -> NetworkRole {
    let c = client_votes(s);
    let h = hotspot_votes(s);
    if s.len() == 0 || c + h == 0 {
        NetworkRole::Ambiguous
    } else if wins(c, c + h) {
        NetworkRole::DeviceAsClient
    } else if wins(h, c + h) {
        NetworkRole::DeviceAsHotspot
    } else {
        NetworkRole::Ambiguous
    }
}

/// The confidence in the role the signals decide, in basis points.
pub open spec fn confidence_of(s: Seq<RoleSignal>) -> int {
    let c = client_votes(s);
    let h = hotspot_votes(s);
    if s.len() == 0 || c + h == 0 {
        0
    } else if wins(c, c + h) {
        share_bp(c, c + h)
    } else if wins(h, c + h) {
        share_bp(h, c + h)
    } else if c >= h {
        share_bp(c, c + h)
    } else {
        share_bp(h, c + h)
    }
}

/// The rationale of the classification.
pub open spec fn rationale_of(s: Seq<RoleSignal>) -> Seq<char> {
    let c = client_votes(s);
    let h = hotspot_votes(s);
    if s.len() == 0 {
        "No signals available for role classification."@
    } else if c + h == 0 {
        "All signals had zero weight."@
    } else if wins(c, c + h) {
        "Device classified as CLIENT with "@ + decimal(rounded_percent(c, c + h) as nat)
            + "% weighted signal support. "@ + decimal(supporting(s, NetworkRole::DeviceAsClient))
            + " signal(s) support client mode."@
    } else if wins(h, c + h) {
        "Device classified as HOTSPOT with "@ + decimal(rounded_percent(h, c + h) as nat)
            + "% weighted signal support. "@ + decimal(supporting(s, NetworkRole::DeviceAsHotspot))
            + " signal(s) support hotspot mode."@
    } else {
        "Insufficient signal separation \u{2014} client: "@ + decimal(rounded_percent(c, c + h) as nat)
            + "%, hotspot: "@ + decimal(rounded_percent(h, c + h) as nat)
            + "%. Examiner review required."@
    }
}

/// The result of a role classification.
#[derive(Debug)]
pub struct RoleClassification {
    /// The role decided.
    pub role: NetworkRole,
    /// The confidence in it, in basis points.
    pub confidence_bp: u32,
    /// The signals it was decided from (none when there were none).
    pub signals: Vec<RoleSignal>,
    /// Why.
    pub rationale: String,
}

/// `a` carries what `b` carries.
pub open spec fn same_signal(a: RoleSignal, b: RoleSignal) -> bool {
    &&& a.description@ == b.description@
    &&& a.supports == b.supports
    &&& a.weight_bp == b.weight_bp
    &&& a.source@ == b.source@
}

fn copy_signal(s: &RoleSignal) -> (r: RoleSignal)
    ensures
        same_signal(r, *s),
{
    RoleSignal {
        description: owned(s.description.as_str()),
        supports: s.supports,
        weight_bp: s.weight_bp,
        source: owned(s.source.as_str()),
    }
}

/// The two sides' votes and the supporters of each side, counted over the
/// signals.
fn count_votes(signals: &[RoleSignal]) -> (r: (u128, u128, usize, usize))
    ensures
        r.0 == client_votes(signals@),
        r.1 == hotspot_votes(signals@),
        r.2 == supporting(signals@, NetworkRole::DeviceAsClient),
        r.3 == supporting(signals@, NetworkRole::DeviceAsHotspot),
        r.0 + r.1 <= 2 * signals@.len() * 0xffff_ffff,
{
    let mut c: u128 = 0;
    let mut h: u128 = 0;
    let mut nc: usize = 0;
    let mut nh: usize = 0;
    let mut i: usize = 0;
    while i < signals.len()
        invariant
            i <= signals@.len(),
            c == client_votes(signals@.take(i as int)),
            h == hotspot_votes(signals@.take(i as int)),
            nc == supporting(signals@.take(i as int), NetworkRole::DeviceAsClient),
            nh == supporting(signals@.take(i as int), NetworkRole::DeviceAsHotspot),
            c + h <= 2 * i * 0xffff_ffff,
            nc <= i,
            nh <= i,
        decreases signals@.len() - i,
    {
        proof {
            reveal(Seq::filter);
            assert(signals@.take(i as int + 1).drop_last() =~= signals@.take(i as int));
        }
        let w = signals[i].weight_bp as u128;
        match signals[i].supports {
            NetworkRole::DeviceAsClient => {
                c = c + 2 * w;
                nc = nc + 1;
            },
            NetworkRole::DeviceAsHotspot => {
                h = h + 2 * w;
                nh = nh + 1;
            },
            NetworkRole::Ambiguous => {
                c = c + w;
                h = h + w;
            },
        }
        i = i + 1;
    }
    proof {
        assert(signals@.take(signals@.len() as int) =~= signals@);
    }
    (c, h, nc, nh)
}

fn percent_text(part: u128, total: u128) -> (s: String)
    requires
        0 < total,
        part <= total,
        total <= 0x4_0000_0000_0000_0000_0000_0000,
    ensures
        s@ == decimal(rounded_percent(part as int, total as int) as nat),
        0 <= rounded_percent(part as int, total as int) <= 100,
{
    let q = (100 * part) / total;
    let r = (100 * part) % total;
    assert(q <= 100) by (nonlinear_arith)
        requires
            q == (100 * part as int) / (total as int),
            part <= total,
            0 < total,
    ;
    let p = if 2 * r > total {
        q + 1
    } else if 2 * r == total && q % 2 == 1 {
        q + 1
    } else {
        q
    };
    assert(p <= 100) by (nonlinear_arith)
        requires
            q == (100 * part as int) / (total as int),
            r == (100 * part as int) % (total as int),
            part <= total,
            0 < total,
            p == q || (p == q + 1 && 2 * r >= total),
    ;
    decimal_string(p as u64)
}

fn share_bp_of(part: u128, total: u128) -> (b: u32)
    requires
        0 < total,
        part <= total,
        total <= 0x4_0000_0000_0000_0000_0000_0000,
    ensures
        b == share_bp(part as int, total as int),
        b <= 10000,
{
    let v = (10000 * part) / total;
    assert(v <= 10000) by (nonlinear_arith)
        requires
            v == (10000 * part as int) / (total as int),
            part <= total,
            0 < total,
    ;
    v as u32
}

impl RoleClassifier {
    /// Classifies the network role from the signals by a weighted vote: a
    /// side with at least 65% of the vote wins, else the role is
    /// ambiguous; without signals, or with zero weight in all, it is
    /// ambiguous with no confidence.
    pub fn classify(signals: &[RoleSignal]) -> (r: RoleClassification)
        ensures
            r.role == role_of(signals@),
            r.confidence_bp == confidence_of(signals@),
            r.rationale@ == rationale_of(signals@),
            signals@.len() == 0 ==> r.signals@.len() == 0,
            signals@.len() > 0 ==> r.signals@.len() == signals@.len() && forall|i: int|
                0 <= i < signals@.len() ==> same_signal(#[trigger] r.signals@[i], signals@[i]),
    {
        if signals.len() == 0 {
            return RoleClassification {
                role: NetworkRole::Ambiguous,
                confidence_bp: 0,
                signals: Vec::new(),
                rationale: owned("No signals available for role classification."),
            };
        }
        let mut copied: Vec<RoleSignal> = Vec::new();
        let mut i: usize = 0;
        while i < signals.len()
            invariant
                i <= signals@.len(),
                copied@.len() == i,
                forall|k: int| 0 <= k < i ==> same_signal(#[trigger] copied@[k], signals@[k]),
            decreases signals@.len() - i,
        {
            copied.push(copy_signal(&signals[i]));
            i = i + 1;
        }
        let (c, h, nc, nh) = count_votes(signals);
        let total = c + h;
        if total == 0 {
            return RoleClassification {
                role: NetworkRole::Ambiguous,
                confidence_bp: 0,
                signals: copied,
                rationale: owned("All signals had zero weight."),
            };
        }
        assert(total <= 0x4_0000_0000_0000_0000_0000_0000) by (nonlinear_arith)
            requires
                total <= 2 * signals@.len() * 0xffff_ffff,
                signals@.len() <= usize::MAX,
                usize::MAX <= 0xffff_ffff_ffff_ffff,
        ;
        if 100 * c >= 65 * total {
            let mut t = owned("Device classified as CLIENT with ");
            append(&mut t, percent_text(c, total).as_str());
            append(&mut t, "% weighted signal support. ");
            append(&mut t, decimal_string(nc as u64).as_str());
            append(&mut t, " signal(s) support client mode.");
            RoleClassification {
                role: NetworkRole::DeviceAsClient,
                confidence_bp: share_bp_of(c, total),
                signals: copied,
                rationale: t,
            }
        } else if 100 * h >= 65 * total {
            let mut t = owned("Device classified as HOTSPOT with ");
            append(&mut t, percent_text(h, total).as_str());
            append(&mut t, "% weighted signal support. ");
            append(&mut t, decimal_string(nh as u64).as_str());
            append(&mut t, " signal(s) support hotspot mode.");
            RoleClassification {
                role: NetworkRole::DeviceAsHotspot,
                confidence_bp: share_bp_of(h, total),
                signals: copied,
                rationale: t,
            }
        } else {
            let mut t = owned("Insufficient signal separation \u{2014} client: ");
            append(&mut t, percent_text(c, total).as_str());
            append(&mut t, "%, hotspot: ");
            append(&mut t, percent_text(h, total).as_str());
            append(&mut t, "%. Examiner review required.");
            RoleClassification {
                role: NetworkRole::Ambiguous,
                confidence_bp: if c >= h {
                    share_bp_of(c, total)
                } else {
                    share_bp_of(h, total)
                },
                signals: copied,
                rationale: t,
            }
        }
    }
}

} // verus!
