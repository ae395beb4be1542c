//! Reconstruction of connection events from pieces of evidence.
//!
//! Evidence of the same kind of event on the same network whose instants
//! lie within two minutes of an event already reconstructed is merged into
//! it; any other evidence opens a new event. Each piece of evidence gets a
//! sequence number in the order it is recorded, so that a caller can find
//! again what it keeps beside it (its float confidence, for instance).

use vstd::prelude::*;
use crate::correlate::ConnectionEventType;
use crate::sort::{Keyed, stable_sorted_by, sort_stable, lemma_stable_sorted_props, ascending_by};
use crate::timeline::{in_time_range, whole_seconds, NANOS_PER_SEC, TIME_LIMIT_NS};
use crate::types::{is_v4_uuid, random_uuid, ArtifactId, NetworkRole, RecordId, SecurityProtocol};

verus! {

broadcast use vstd::seq_lib::group_seq_properties;

/// Evidence within this many whole seconds of an event is merged into it.
pub const EVENT_WINDOW_SECS: i128 = 120;

/// A unique connection event identifier (a UUID value).
#[derive(Debug, Clone, Copy, PartialEq, Eq, Hash, Structural)]
pub struct ConnectionEventId(pub u128);

impl ConnectionEventId {
    /// A fresh random (version 4) identifier.
    pub fn new() -> (id: ConnectionEventId)
        ensures
            is_v4_uuid(id.0),
    {
        ConnectionEventId(random_uuid())
    }
}

/// A piece of evidence for a connection event.
#[derive(Debug)]
pub struct EventEvidence {
    /// The artifact the evidence was extracted from.
    pub artifact_id: ArtifactId,
    /// The record within the artifact.
    pub record_id: RecordId,
    /// What the evidence says.
    pub description: String,
    /// The instant the evidence gives, in nanoseconds since the epoch.
    pub timestamp_ns: i128,
}

/// A reconstructed connection event.
#[derive(Debug)]
pub struct ConnectionEvent {
    /// Unique identifier of the event.
    pub id: ConnectionEventId,
    /// What happened.
    pub event_type: ConnectionEventType,
    /// The network it happened on (a UUID value).
    pub network_id: u128,
    /// Human-readable network label.
    pub network_label: String,
    /// The instant of the first evidence.
    pub timestamp_ns: i128,
    /// The security protocol in use.
    pub security_protocol: SecurityProtocol,
    /// Whether the device was client or hotspot.
    pub network_role: NetworkRole,
    /// The IP address assigned, if any evidence gave one.
    pub ip_address: Option<String>,
    /// The evidence, in the order it was recorded.
    pub evidence: Vec<EventEvidence>,
    /// The sequence numbers of the evidence, in the same order.
    pub evidence_seq: Vec<usize>,
    /// The number of pieces of evidence.
    pub corroboration_count: usize,
}

impl ConnectionEvent {
    /// The counts agree, the instant is in range and every sequence number
    /// is below `recorded`.
    pub open spec fn well_formed(&self, recorded: int) -> bool {
        &&& self.corroboration_count == self.evidence@.len()
        &&& self.evidence_seq@.len() == self.evidence@.len()
        &&& in_time_range(self.timestamp_ns as int)
        &&& forall|j: int| 0 <= j < self.evidence_seq@.len() ==> #[trigger] self.evidence_seq@[j] < recorded
    }
}

impl Keyed for ConnectionEvent {
    open spec fn key_spec(&self) -> int {
        self.timestamp_ns as int
    }

    fn sort_key(&self) -> (k: i128) {
        self.timestamp_ns
    }
}

/// Evidence of kind `ty` on network `nid` at instant `ts` may be merged into
/// event `e`: same kind, same network, and at most two minutes apart in
/// whole seconds.
pub open spec fn mergeable(e: ConnectionEvent, ty: ConnectionEventType, nid: u128, ts: int) -> bool {
    &&& e.event_type == ty
    &&& e.network_id == nid
    &&& -EVENT_WINDOW_SECS <= whole_seconds(e.timestamp_ns - ts) <= EVENT_WINDOW_SECS
}

/// The position of the first event of `es` from `from` on that the evidence
/// may be merged into, or -1 when there is none.
pub open spec fn first_mergeable_from(
    es: Seq<ConnectionEvent>,
    ty: ConnectionEventType,
    nid: u128,
    ts: int,
    from: int,
) -> int
    decreases es.len() - from,
{
    if from < 0 || from >= es.len() {
        -1
    } else if mergeable(es[from], ty, nid, ts) {
        from
    } else {
        first_mergeable_from(es, ty, nid, ts, from + 1)
    }
}

/// The position of the first event of `es` the evidence may be merged into,
/// or -1 when there is none.
pub open spec fn first_mergeable(es: Seq<ConnectionEvent>, ty: ConnectionEventType, nid: u128, ts: int) -> int {
    first_mergeable_from(es, ty, nid, ts, 0)
}

/// `after` is `before` once a piece of evidence of kind `event_type` on
/// `network_id`, numbered `recorded`, is taken in: merged into the first
/// mergeable event, which takes its IP address if it had none, or else
/// opening a new event.
pub open spec fn evidence_recorded(
    before: Seq<ConnectionEvent>,
    after: Seq<ConnectionEvent>,
    recorded: int,
    event_type: ConnectionEventType,
    network_id: u128,
    network_label: Seq<char>,
    security_protocol: SecurityProtocol,
    network_role: NetworkRole,
    evidence: EventEvidence,
    ip_address: Option<String>,
) -> bool {
    let k = first_mergeable(before, event_type, network_id, evidence.timestamp_ns as int);
    if k >= 0 {
        &&& after.len() == before.len()
        &&& forall|i: int| 0 <= i < before.len() && i != k ==> after[i] == before[i]
        &&& after[k].id == before[k].id
        &&& after[k].event_type == before[k].event_type
        &&& after[k].network_id == before[k].network_id
        &&& after[k].network_label == before[k].network_label
        &&& after[k].timestamp_ns == before[k].timestamp_ns
        &&& after[k].security_protocol == before[k].security_protocol
        &&& after[k].network_role == before[k].network_role
        &&& after[k].evidence@ == before[k].evidence@.push(evidence)
        &&& after[k].evidence_seq@ == before[k].evidence_seq@.push(recorded as usize)
        &&& after[k].corroboration_count == after[k].evidence@.len()
        &&& after[k].ip_address == (if before[k].ip_address is None && ip_address is Some {
            ip_address
        } else {
            before[k].ip_address
        })
    } else {
        &&& after.len() == before.len() + 1
        &&& after.drop_last() == before
        &&& after.last().event_type == event_type
        &&& after.last().network_id == network_id
        &&& after.last().network_label@ == network_label
        &&& after.last().timestamp_ns == evidence.timestamp_ns
        &&& after.last().security_protocol == security_protocol
        &&& after.last().network_role == network_role
        &&& after.last().ip_address == ip_address
        &&& after.last().evidence@ == seq![evidence]
        &&& after.last().evidence_seq@ == seq![recorded as usize]
        &&& after.last().corroboration_count == 1
    }
}

/// Reconstructs connection events from evidence.
#[derive(Debug)]
pub struct EventReconstructor {
    events: Vec<ConnectionEvent>,
    recorded: usize,
}

impl EventReconstructor {
    /// The events reconstructed so far, in order of creation.
    pub closed spec fn events_spec(&self) -> Seq<ConnectionEvent> {
        self.events@
    }

    /// How many pieces of evidence have been recorded.
    pub closed spec fn recorded_spec(&self) -> int {
        self.recorded as int
    }

    /// Every event is well formed.
    pub open spec fn well_formed(&self) -> bool {
        forall|i: int|
            0 <= i < self.events_spec().len() ==> (#[trigger] self.events_spec()[i]).well_formed(
                self.recorded_spec(),
            )
    }

    /// A reconstructor with no events.
    pub fn new() -> (r: EventReconstructor)
        ensures
            r.events_spec().len() == 0,
            r.recorded_spec() == 0,
            r.well_formed(),
    {
        EventReconstructor { events: Vec::new(), recorded: 0 }
    }

    /// The number of events reconstructed so far.
    pub fn event_count(&self) -> (n: usize)
        ensures
            n == self.events_spec().len(),
    {
        self.events.len()
    }

    /// The number of pieces of evidence recorded so far.
    pub fn recorded_count(&self) -> (n: usize)
        ensures
            n == self.recorded_spec(),
    {
        self.recorded
    }

    /// Records a piece of evidence. It is merged into the first event of the
    /// same kind on the same network within two minutes of it, which takes
    /// its IP address if it had none; otherwise it opens a new event. Its
    /// sequence number is the number of pieces recorded before it.
    pub fn record_evidence(
        &mut self,
        event_type: ConnectionEventType,
        network_id: u128,
        network_label: &str,
        security_protocol: SecurityProtocol,
        network_role: NetworkRole,
        evidence: EventEvidence,
        ip_address: Option<String>,
    )
        requires
            old(self).well_formed(),
            old(self).recorded_spec() < usize::MAX,
            in_time_range(evidence.timestamp_ns as int),
        ensures
            final(self).well_formed(),
            final(self).recorded_spec() == old(self).recorded_spec() + 1,
            evidence_recorded(
                old(self).events_spec(),
                final(self).events_spec(),
                old(self).recorded_spec(),
                event_type,
                network_id,
                network_label@,
                security_protocol,
                network_role,
                evidence,
                ip_address,
            ),
            (final(self).events_spec().len() == old(self).events_spec().len()) <==> exists|i: int|
                0 <= i < old(self).events_spec().len() && old(self).events_spec()[i].event_type
                    == event_type && old(self).events_spec()[i].network_id == network_id
                    && #[trigger] within_window(
                    old(self).events_spec()[i],
                    evidence.timestamp_ns as int,
                ),
    {
        let ghost before0 = self.events_spec();
        let ghost ev0 = evidence;
        let ghost ip0 = ip_address;
        let ghost rec0 = self.recorded_spec();
        let ts = evidence.timestamp_ns;
        let seq_no = self.recorded;
        let ghost before = self.events@;
        let found = self.find_mergeable_event(event_type, network_id, ts);
        match found {
            Some(k) => {
                let mut target = self.events.remove(k);
                assert(target == before[k as int]);
                target.evidence.push(evidence);
                target.evidence_seq.push(seq_no);
                target.corroboration_count = target.evidence.len();
                if target.ip_address.is_none() && ip_address.is_some() {
                    target.ip_address = ip_address;
                }
                self.events.insert(k, target);
                self.recorded = seq_no + 1;
                proof {
                    assert(self.events@ =~= before.update(k as int, target));
                    assert forall|i: int| 0 <= i < self.events@.len() implies (
                    #[trigger] self.events@[i]).well_formed(self.recorded as int) by {
                        if i != k {
                            assert(self.events@[i] == before[i]);
                            assert(before[i].well_formed(seq_no as int));
                        } else {
                            assert(before[i].well_formed(seq_no as int));
                            assert forall|j: int| 0 <= j < target.evidence_seq@.len() implies #[trigger] target.evidence_seq@[j]
                                < self.recorded by {
                                if j < before[i].evidence_seq@.len() {
                                    assert(target.evidence_seq@[j] == before[i].evidence_seq@[j]);
                                }
                            }
                        }
                    }
                }
            },
            None => {
                let mut evidence_list: Vec<EventEvidence> = Vec::new();
                evidence_list.push(evidence);
                let mut seqs: Vec<usize> = Vec::new();
                seqs.push(seq_no);
                let event = ConnectionEvent {
                    id: ConnectionEventId::new(),
                    event_type,
                    network_id,
                    network_label: crate::text::owned(network_label),
                    timestamp_ns: ts,
                    security_protocol,
                    network_role,
                    ip_address,
                    evidence: evidence_list,
                    evidence_seq: seqs,
                    corroboration_count: 1,
                };
                self.events.push(event);
                self.recorded = seq_no + 1;
                proof {
                    assert(evidence_list@ =~= seq![evidence]);
                    assert(seqs@ =~= seq![seq_no]);
                    assert(self.events@.drop_last() =~= before);
                    assert forall|i: int| 0 <= i < self.events@.len() implies (
                    #[trigger] self.events@[i]).well_formed(self.recorded as int) by {
                        if i < before.len() {
                            assert(before[i].well_formed(seq_no as int));
                        }
                    }
                }
            },
        }
        proof {
            law_merge_window_is_symmetric(
                before0,
                self.events_spec(),
                rec0,
                event_type,
                network_id,
                network_label@,
                security_protocol,
                network_role,
                ev0,
                ip0,
            );
        }
    }

    /// The events, ordered by instant; events with equal instants keep
    /// their order of creation.
    pub fn finalize(self) -> (es: Vec<ConnectionEvent>)
        ensures
            es@ == stable_sorted_by(self.events_spec(), |e: ConnectionEvent| e.key_spec()),
    {
        let mut events = self.events;
        sort_stable(&mut events);
        events
    }

    /// The position of the first event the evidence may be merged into.
    fn find_mergeable_event(
        &self,
        event_type: ConnectionEventType,
        network_id: u128,
        timestamp_ns: i128,
    ) -> (r: Option<usize>)
        requires
            self.well_formed(),
            in_time_range(timestamp_ns as int),
        ensures
            match r {
                Some(k) => k as int == first_mergeable(
                    self.events_spec(),
                    event_type,
                    network_id,
                    timestamp_ns as int,
                ) && k < self.events_spec().len(),
                None => first_mergeable(
                    self.events_spec(),
                    event_type,
                    network_id,
                    timestamp_ns as int,
                ) < 0,
            },
    {
        let n = self.events.len();
        let mut i: usize = n;
        // scan from the back, so that the result is the first match
        let mut found: Option<usize> = None;
        while i > 0
            invariant
                i <= n,
                n == self.events@.len(),
                self.well_formed(),
                in_time_range(timestamp_ns as int),
                match found {
                    Some(k) => k as int == first_mergeable_from(
                        self.events@,
                        event_type,
                        network_id,
                        timestamp_ns as int,
                        i as int,
                    ) && i <= k < n,
                    None => first_mergeable_from(
                        self.events@,
                        event_type,
                        network_id,
                        timestamp_ns as int,
                        i as int,
                    ) < 0,
                },
            decreases i,
        {
            let e = &self.events[i - 1];
            assert(self.events_spec()[i - 1].well_formed(self.recorded_spec()));
            let d = e.timestamp_ns - timestamp_ns;
            let secs = if d >= 0 {
                d / NANOS_PER_SEC
            } else {
                0 - ((0 - d) / NANOS_PER_SEC)
            };
            if e.event_type == event_type && e.network_id == network_id && -EVENT_WINDOW_SECS <= secs
                && secs <= EVENT_WINDOW_SECS {
                found = Some(i - 1);
            }
            i = i - 1;
        }
        found
    }
}

/// The events that `finalize` returns are in order of instant.
pub proof fn law_finalized_events_in_order(r: EventReconstructor)
    ensures
        ascending_by(
            stable_sorted_by(r.events_spec(), |e: ConnectionEvent| e.key_spec()),
            |e: ConnectionEvent| e.key_spec(),
        ),
{
    lemma_stable_sorted_props(r.events_spec(), |e: ConnectionEvent| e.key_spec());
}

/// An event `e` lies within two minutes of instant `ts` either way, in
/// whole seconds: the difference, in nanoseconds, is less than 121 seconds
/// in magnitude.
pub open spec fn within_window(e: ConnectionEvent, ts: int) -> bool {
    -121 * NANOS_PER_SEC < e.timestamp_ns - ts < 121 * NANOS_PER_SEC
}

proof fn lemma_window_in_nanos(d: int)
    ensures
        (-EVENT_WINDOW_SECS <= whole_seconds(d) <= EVENT_WINDOW_SECS) <==> (-121 * NANOS_PER_SEC < d
            < 121 * NANOS_PER_SEC),
{
    if d >= 0 {
        assert(whole_seconds(d) == d / 1_000_000_000);
        if d < 121 * NANOS_PER_SEC {
            assert(d / 1_000_000_000 <= 120) by (nonlinear_arith)
                requires
                    0 <= d < 121_000_000_000,
            ;
        } else {
            assert(d / 1_000_000_000 >= 121) by (nonlinear_arith)
                requires
                    d >= 121_000_000_000,
            ;
        }
    } else {
        let m = -d;
        assert(whole_seconds(d) == -(m / 1_000_000_000));
        if m < 121 * NANOS_PER_SEC {
            assert(m / 1_000_000_000 <= 120) by (nonlinear_arith)
                requires
                    0 <= m < 121_000_000_000,
            ;
        } else {
            assert(m / 1_000_000_000 >= 121) by (nonlinear_arith)
                requires
                    m >= 121_000_000_000,
            ;
        }
    }
}

proof fn lemma_first_mergeable_from(
    es: Seq<ConnectionEvent>,
    ty: ConnectionEventType,
    nid: u128,
    ts: int,
    from: int,
)
    requires
        0 <= from,
    ensures
        first_mergeable_from(es, ty, nid, ts, from) >= 0 <==> exists|i: int|
            from <= i < es.len() && #[trigger] mergeable(es[i], ty, nid, ts),
        first_mergeable_from(es, ty, nid, ts, from) >= 0 ==> {
            let k = first_mergeable_from(es, ty, nid, ts, from);
            &&& from <= k < es.len()
            &&& mergeable(es[k], ty, nid, ts)
            &&& forall|i: int| from <= i < k ==> !#[trigger] mergeable(es[i], ty, nid, ts)
        },
    decreases es.len() - from,
{
    if from < es.len() {
        lemma_first_mergeable_from(es, ty, nid, ts, from + 1);
        if !mergeable(es[from], ty, nid, ts) {
            if exists|i: int| from <= i < es.len() && #[trigger] mergeable(es[i], ty, nid, ts) {
                let i = choose|i: int| from <= i < es.len() && #[trigger] mergeable(es[i], ty, nid, ts);
                assert(from + 1 <= i);
            }
        }
    }
}

/// Merging is symmetric in time: a piece of evidence is merged into an
/// existing event (no new event is opened) exactly when some event of the
/// same kind on the same network lies within two minutes of it, before or
/// after; it then goes to the first such event. Otherwise a new event
/// holding only that evidence is appended.
pub proof fn law_merge_window_is_symmetric(
    before: Seq<ConnectionEvent>,
    after: Seq<ConnectionEvent>,
    recorded: int,
    event_type: ConnectionEventType,
    network_id: u128,
    network_label: Seq<char>,
    security_protocol: SecurityProtocol,
    network_role: NetworkRole,
    evidence: EventEvidence,
    ip_address: Option<String>,
)
    requires
        evidence_recorded(
            before,
            after,
            recorded,
            event_type,
            network_id,
            network_label,
            security_protocol,
            network_role,
            evidence,
            ip_address,
        ),
    ensures
        (after.len() == before.len()) <==> exists|i: int|
            0 <= i < before.len() && before[i].event_type == event_type && before[i].network_id
                == network_id && #[trigger] within_window(before[i], evidence.timestamp_ns as int),
        forall|k: int|
            0 <= k < before.len() && before[k].event_type == event_type && before[k].network_id
                == network_id && #[trigger] within_window(before[k], evidence.timestamp_ns as int)
                && (forall|i: int|
                0 <= i < k ==> !(before[i].event_type == event_type && before[i].network_id
                    == network_id && #[trigger] within_window(before[i], evidence.timestamp_ns as int)))
                ==> after.len() == before.len() && after[k].evidence@ == before[k].evidence@.push(
                evidence,
            ),
        after.len() != before.len() ==> after.len() == before.len() + 1 && after.drop_last() == before
            && after.last().evidence@ == seq![evidence],
{
    let ts = evidence.timestamp_ns as int;
    lemma_first_mergeable_from(before, event_type, network_id, ts, 0);
    assert forall|i: int| 0 <= i < before.len() implies (#[trigger] mergeable(
        before[i],
        event_type,
        network_id,
        ts,
    ) <==> (before[i].event_type == event_type && before[i].network_id == network_id
        && within_window(before[i], ts))) by {
        lemma_window_in_nanos(before[i].timestamp_ns - ts);
    }
    let k0 = first_mergeable(before, event_type, network_id, ts);
    if exists|i: int|
        0 <= i < before.len() && before[i].event_type == event_type && before[i].network_id == network_id
            && #[trigger] within_window(before[i], ts) {
        let i = choose|i: int|
            0 <= i < before.len() && before[i].event_type == event_type && before[i].network_id
                == network_id && #[trigger] within_window(before[i], ts);
        assert(mergeable(before[i], event_type, network_id, ts));
    }
    if k0 >= 0 {
        assert(mergeable(before[k0], event_type, network_id, ts));
    }
    assert forall|k: int|
        0 <= k < before.len() && before[k].event_type == event_type && before[k].network_id
            == network_id && #[trigger] within_window(before[k], ts) && (forall|i: int|
            0 <= i < k ==> !(before[i].event_type == event_type && before[i].network_id
                == network_id && #[trigger] within_window(before[i], ts))) implies after.len()
        == before.len() && after[k].evidence@ == before[k].evidence@.push(evidence) by {
        assert(mergeable(before[k], event_type, network_id, ts));
        assert(k0 >= 0);
        if k0 < k {
            assert(mergeable(before[k0], event_type, network_id, ts));
            assert(!(before[k0].event_type == event_type && before[k0].network_id == network_id
                && within_window(before[k0], ts)));
        } else if k0 > k {
            assert(!mergeable(before[k], event_type, network_id, ts));
        }
    }
}

impl Default for EventReconstructor {
    /// A reconstructor with no events, as `new` makes it.
    fn default() -> (r: EventReconstructor)
        ensures
            r.events_spec().len() == 0,
            r.recorded_spec() == 0,
            r.well_formed(),
    {
        EventReconstructor::new()
    }
}

} // verus!
