//! The unified timeline: connection events grouped into sessions per
//! network, the gaps between sessions and the overlaps where the device
//! seems connected to two networks at once.
//!
//! A session ends with a disconnection (or the hotspot stopping), or with a
//! quiet stretch longer than the session timeout.
//!
//! Instants are nanoseconds since the Unix epoch. The float confidence of
//! an event stays with the caller: a session lists the positions of its
//! events, from which the caller takes what it needs.

use vstd::prelude::*;
use crate::correlate::ConnectionEventType;
use crate::sort::{Keyed, stable_sorted_by, sort_stable, lemma_stable_sorted_map, lemma_stable_sorted_props, ascending_by};
use crate::text::{append, owned, signed_decimal, signed_decimal_string};
use crate::types::{is_v4_uuid, random_uuid};

verus! {

broadcast use vstd::seq_lib::group_seq_properties;

/// The largest magnitude of an instant, in nanoseconds; every date that
/// chrono can hold lies well within it.
pub const TIME_LIMIT_NS: i128 = 0x4_0000_0000_0000_0000_0000;

/// Nanoseconds in a second.
pub const NANOS_PER_SEC: i128 = 1_000_000_000;

/// Nanoseconds in a minute.
pub const NANOS_PER_MIN: i128 = 60_000_000_000;

/// The default session timeout, in minutes.
pub const DEFAULT_SESSION_TIMEOUT_MINS: i64 = 30;

/// The largest session timeout in minutes that a duration can hold.
pub const MAX_TIMEOUT_MINS: i64 = 153_722_867_280_912;

/// `t` is an instant the timeline can hold.
pub open spec fn in_time_range(t: int) -> bool {
    -TIME_LIMIT_NS <= t <= TIME_LIMIT_NS
}

/// `a / b` rounded toward zero, as integer division in Rust rounds.
pub open spec fn trunc_div(a: int, b: int) -> int {
    if a >= 0 {
        a / b
    } else {
        -((-a) / b)
    }
}

/// The whole seconds in a duration of `d` nanoseconds, rounded toward zero.
pub open spec fn whole_seconds(d: int) -> int {
    trunc_div(d, NANOS_PER_SEC as int)
}

/// The whole minutes in a duration of `d` nanoseconds, rounded toward zero.
pub open spec fn whole_minutes(d: int) -> int {
    trunc_div(whole_seconds(d), 60)
}

/// A unique session identifier (a UUID value).
#[derive(Debug, Clone, Copy, PartialEq, Eq, Hash, Structural)]
pub struct SessionId(pub u128);

impl SessionId {
    /// A fresh random (version 4) identifier.
    pub fn new() -> (id: SessionId)
        ensures
            is_v4_uuid(id.0),
    {
        SessionId(random_uuid())
    }
}

/// A connection event as the timeline sees it: its kind, the network it
/// concerns, that network's label and the instant it happened.
#[derive(Debug, Clone)]
pub struct TimedEvent {
    /// What happened.
    pub event_type: ConnectionEventType,
    /// The resolved network identity (a UUID value).
    pub network_id: u128,
    /// Human-readable network label.
    pub network_label: String,
    /// When the event happened, in nanoseconds since the epoch.
    pub timestamp_ns: i128,
}

/// What a session is, for specifications.
#[verifier::ext_equal]
pub struct SessionModel {
    pub network_id: u128,
    pub label: Seq<char>,
    pub start: int,
    pub end: int,
    pub members: Seq<usize>,
    pub closed: bool,
}

/// An event of this kind ends the session it joins: a disconnection, or
/// the hotspot stopping.
pub open spec fn closes(t: ConnectionEventType) -> bool {
    t == ConnectionEventType::Disconnected || t == ConnectionEventType::HotspotStopped
}

/// A contiguous stretch of activity on one network.
#[derive(Debug)]
pub struct TimelineSession {
    /// Unique identifier of the session.
    pub id: SessionId,
    /// The network the session concerns.
    pub network_id: u128,
    /// Human-readable network label, that of the first event.
    pub network_label: String,
    /// The instant of the first event.
    pub start_ns: i128,
    /// The instant of the last event.
    pub end_ns: i128,
    /// `end_ns - start_ns`.
    pub duration_ns: i128,
    /// The positions, in the builder's input, of the session's events, in
    /// the order they were added.
    pub event_indices: Vec<usize>,
    /// The session's last event ended it (a disconnection, or the hotspot
    /// stopping): no later event extends it.
    pub closed: bool,
}

impl TimelineSession {
    /// The session without its identifier.
    pub open spec fn model(&self) -> SessionModel {
        SessionModel {
            network_id: self.network_id,
            label: self.network_label@,
            start: self.start_ns as int,
            end: self.end_ns as int,
            members: self.event_indices@,
            closed: self.closed,
        }
    }

    /// The instants are in range and the duration matches them.
    pub open spec fn well_formed(&self) -> bool {
        &&& in_time_range(self.start_ns as int)
        &&& in_time_range(self.end_ns as int)
        &&& self.duration_ns == self.end_ns - self.start_ns
    }
}

impl Keyed for TimelineSession {
    open spec fn key_spec(&self) -> int {
        self.start_ns as int
    }

    fn sort_key(&self) -> (k: i128) {
        self.start_ns
    }
}

/// The models of a sequence of sessions.
pub open spec fn models(ss: Seq<TimelineSession>) -> Seq<SessionModel> {
    ss.map_values(|s: TimelineSession| s.model())
}

/// The start of a session model, the key sessions are sorted by.
pub open spec fn model_start(m: SessionModel) -> int {
    m.start
}

/// Event `e` continues session `m`: same network, the session not ended
/// by a disconnection, and it comes no earlier than the session's end and
/// at most `timeout` after it.
pub open spec fn continues(m: SessionModel, e: TimedEvent, timeout: int) -> bool {
    m.network_id == e.network_id && !m.closed && 0 <= e.timestamp_ns - m.end <= timeout
}

/// The last session of `ss` that `e` continues, or -1 when there is none.
pub open spec fn last_continued(ss: Seq<SessionModel>, e: TimedEvent, timeout: int) -> int
    decreases ss.len(),
{
    if ss.len() == 0 {
        -1
    } else if continues(ss.last(), e, timeout) {
        ss.len() - 1
    } else {
        last_continued(ss.drop_last(), e, timeout)
    }
}

/// The sessions after event `e`, at position `idx`, is taken in: it extends
/// the last session it continues, or opens a new one.
pub open spec fn absorb(ss: Seq<SessionModel>, e: TimedEvent, idx: usize, timeout: int) -> Seq<
    SessionModel,
> {
    let k = last_continued(ss, e, timeout);
    if k >= 0 {
        ss.update(
            k,
            SessionModel {
                network_id: ss[k].network_id,
                label: ss[k].label,
                start: ss[k].start,
                end: e.timestamp_ns as int,
                members: ss[k].members.push(idx),
                closed: closes(e.event_type),
            },
        )
    } else {
        ss.push(
            SessionModel {
                network_id: e.network_id,
                label: e.network_label@,
                start: e.timestamp_ns as int,
                end: e.timestamp_ns as int,
                members: seq![idx],
                closed: closes(e.event_type),
            },
        )
    }
}

/// The sessions that taking in `es` one by one produces, in order of opening.
pub open spec fn grouped(es: Seq<TimedEvent>, timeout: int) -> Seq<SessionModel>
    decreases es.len(),
{
    if es.len() == 0 {
        Seq::empty()
    } else {
        absorb(grouped(es.drop_last(), timeout), es.last(), (es.len() - 1) as usize, timeout)
    }
}

/// The sessions of `es`, ordered by start; sessions that start together
/// keep their order of opening.
pub open spec fn sessions_of(es: Seq<TimedEvent>, timeout: int) -> Seq<SessionModel> {
    stable_sorted_by(grouped(es, timeout), |m: SessionModel| model_start(m))
}

/// Every event's instant is in range.
pub open spec fn events_in_range(es: Seq<TimedEvent>) -> bool {
    forall|k: int| 0 <= k < es.len() ==> in_time_range(#[trigger] es[k].timestamp_ns as int)
}

/// Whether an event of kind `t` ends the session it joins.
pub fn event_closes(t: ConnectionEventType) -> (b: bool)
    ensures
        b == closes(t),
{
    match t {
        ConnectionEventType::Disconnected | ConnectionEventType::HotspotStopped => true,
        _ => false,
    }
}

/// What a gap is, for specifications.
#[verifier::ext_equal]
pub struct GapModel {
    pub start: int,
    pub end: int,
    pub duration: int,
    pub explanation: Seq<char>,
}

/// A stretch with no activity between two consecutive sessions.
#[derive(Debug)]
pub struct TimelineGap {
    /// The end of the earlier session.
    pub start_ns: i128,
    /// The start of the later session.
    pub end_ns: i128,
    /// `end_ns - start_ns`.
    pub duration_ns: i128,
    /// Human-readable explanation.
    pub explanation: String,
}

impl TimelineGap {
    /// The gap as a value.
    pub open spec fn model(&self) -> GapModel {
        GapModel {
            start: self.start_ns as int,
            end: self.end_ns as int,
            duration: self.duration_ns as int,
            explanation: self.explanation@,
        }
    }
}

/// The explanation of a gap of `minutes` whole minutes.
pub open spec fn gap_text(minutes: int) -> Seq<char> {
    "No network activity observed for "@ + signed_decimal(minutes)
        + " minutes between sessions."@
}

/// The gap between sessions `a` and `b`.
pub open spec fn gap_between(a: TimelineSession, b: TimelineSession) -> GapModel {
    let d = b.start_ns - a.end_ns;
    GapModel {
        start: a.end_ns as int,
        end: b.start_ns as int,
        duration: d,
        explanation: gap_text(whole_minutes(d)),
    }
}

/// The gaps longer than `timeout` between consecutive sessions among the
/// first `k` of `ss`.
pub open spec fn gaps_upto(ss: Seq<TimelineSession>, k: int, timeout: int) -> Seq<GapModel>
    decreases k,
{
    if k <= 1 {
        Seq::empty()
    } else {
        let r = gaps_upto(ss, k - 1, timeout);
        if ss[k - 1].start_ns - ss[k - 2].end_ns > timeout {
            r.push(gap_between(ss[k - 2], ss[k - 1]))
        } else {
            r
        }
    }
}

/// What an overlap is, for specifications.
#[verifier::ext_equal]
pub struct OverlapModel {
    pub session_a: SessionId,
    pub session_b: SessionId,
    pub label_a: Seq<char>,
    pub label_b: Seq<char>,
    pub start: int,
    pub end: int,
    pub explanation: Seq<char>,
}

/// Two sessions on different networks that share a stretch of time.
#[derive(Debug)]
pub struct TimelineOverlap {
    /// The earlier session in timeline order.
    pub session_a: SessionId,
    /// The later session in timeline order.
    pub session_b: SessionId,
    /// The label of the first session's network.
    pub network_a_label: String,
    /// The label of the second session's network.
    pub network_b_label: String,
    /// The later of the two starts.
    pub overlap_start_ns: i128,
    /// The earlier of the two ends.
    pub overlap_end_ns: i128,
    /// Human-readable explanation.
    pub explanation: String,
}

impl TimelineOverlap {
    /// The overlap as a value.
    pub open spec fn model(&self) -> OverlapModel {
        OverlapModel {
            session_a: self.session_a,
            session_b: self.session_b,
            label_a: self.network_a_label@,
            label_b: self.network_b_label@,
            start: self.overlap_start_ns as int,
            end: self.overlap_end_ns as int,
            explanation: self.explanation@,
        }
    }
}

/// The explanation of an overlap of `secs` whole seconds.
pub open spec fn overlap_text(label_a: Seq<char>, label_b: Seq<char>, secs: int) -> Seq<char> {
    "Device appears connected to both \""@ + label_a + "\" and \""@ + label_b
        + "\" simultaneously for "@ + signed_decimal(secs)
        + " seconds. This may indicate a hotspot+client dual-mode scenario, a log timing artifact, or data inconsistency."@
}

/// The larger of two integers.
pub open spec fn max_int(a: int, b: int) -> int {
    if a >= b {
        a
    } else {
        b
    }
}

/// The smaller of two integers.
pub open spec fn min_int(a: int, b: int) -> int {
    if a <= b {
        a
    } else {
        b
    }
}

/// Sessions `a` and `b` overlap: different networks and a shared stretch of
/// positive length.
pub open spec fn overlapping(a: TimelineSession, b: TimelineSession) -> bool {
    a.network_id != b.network_id && max_int(a.start_ns as int, b.start_ns as int) < min_int(
        a.end_ns as int,
        b.end_ns as int,
    )
}

/// The overlap of sessions `a` and `b`.
pub open spec fn overlap_between(a: TimelineSession, b: TimelineSession) -> OverlapModel {
    let s = max_int(a.start_ns as int, b.start_ns as int);
    let e = min_int(a.end_ns as int, b.end_ns as int);
    OverlapModel {
        session_a: a.id,
        session_b: b.id,
        label_a: a.network_label@,
        label_b: b.network_label@,
        start: s,
        end: e,
        explanation: overlap_text(a.network_label@, b.network_label@, whole_seconds(e - s)),
    }
}

/// The overlaps of session `i` with sessions `i + 1` up to `j - 1`.
pub open spec fn overlaps_row(ss: Seq<TimelineSession>, i: int, j: int) -> Seq<OverlapModel>
    decreases j - i,
{
    if j <= i + 1 {
        Seq::empty()
    } else {
        let r = overlaps_row(ss, i, j - 1);
        if overlapping(ss[i], ss[j - 1]) {
            r.push(overlap_between(ss[i], ss[j - 1]))
        } else {
            r
        }
    }
}

/// The overlaps of each of the first `i` sessions with every later one,
/// pair by pair in order.
pub open spec fn overlaps_upto(ss: Seq<TimelineSession>, i: int) -> Seq<OverlapModel>
    decreases i,
{
    if i <= 0 {
        Seq::empty()
    } else {
        overlaps_upto(ss, i - 1) + overlaps_row(ss, i - 1, ss.len() as int)
    }
}

/// The unified timeline of an investigation.
#[derive(Debug)]
pub struct Timeline {
    /// The sessions, ordered by start.
    pub sessions: Vec<TimelineSession>,
    /// The gaps between consecutive sessions.
    pub gaps: Vec<TimelineGap>,
    /// The overlaps between sessions.
    pub overlaps: Vec<TimelineOverlap>,
    /// The number of events the timeline was built from.
    pub total_events: usize,
    /// The instant of the first event given.
    pub earliest_ns: Option<i128>,
    /// The instant of the last event given.
    pub latest_ns: Option<i128>,
    /// When the timeline was built, in milliseconds since the epoch.
    pub built_at_ms: i64,
}

/// Builds timelines with a session timeout.
#[derive(Debug, Clone, Copy)]
pub struct TimelineBuilder {
    /// The longest quiet stretch that still continues a session, in
    /// nanoseconds.
    pub session_timeout_ns: i128,
}

impl TimelineBuilder {
    /// A builder with the default timeout of 30 minutes.
    pub fn new() -> (b: TimelineBuilder)
        ensures
            b.session_timeout_ns == DEFAULT_SESSION_TIMEOUT_MINS * NANOS_PER_MIN,
    {
        TimelineBuilder { session_timeout_ns: DEFAULT_SESSION_TIMEOUT_MINS as i128 * NANOS_PER_MIN }
    }

    /// A builder with a timeout of `mins` minutes.
    pub fn with_timeout_mins(mins: i64) -> (b: TimelineBuilder)
        requires
            -MAX_TIMEOUT_MINS <= mins <= MAX_TIMEOUT_MINS,
        ensures
            b.session_timeout_ns == mins * NANOS_PER_MIN,
    {
        TimelineBuilder { session_timeout_ns: mins as i128 * NANOS_PER_MIN }
    }

    /// The timeout is one a builder can have.
    pub open spec fn well_formed(&self) -> bool {
        -MAX_TIMEOUT_MINS * NANOS_PER_MIN <= self.session_timeout_ns <= MAX_TIMEOUT_MINS
            * NANOS_PER_MIN
    }

    /// Builds the timeline of `events`. Sessions are ordered by start; the
    /// gaps and overlaps are computed over that order.
    pub fn build(&self, events: Vec<TimedEvent>) -> (t: Timeline)
        requires
            self.well_formed(),
            events_in_range(events@),
        ensures
            models(t.sessions@) == sessions_of(events@, self.session_timeout_ns as int),
            forall|i: int| 0 <= i < t.sessions@.len() ==> (#[trigger] t.sessions@[i]).well_formed(),
            t.gaps@.map_values(|g: TimelineGap| g.model()) == gaps_upto(
                t.sessions@,
                t.sessions@.len() as int,
                self.session_timeout_ns as int,
            ),
            t.overlaps@.map_values(|o: TimelineOverlap| o.model()) == overlaps_upto(
                t.sessions@,
                t.sessions@.len() as int,
            ),
            forall|a: int, b: int|
                0 <= a < b < t.sessions@.len() && #[trigger] share_time(t.sessions@[a], t.sessions@[b])
                    ==> has_report(
                    t.overlaps@.map_values(|o: TimelineOverlap| o.model()),
                    t.sessions@[a],
                    t.sessions@[b],
                ),
            forall|k: int|
                0 <= k < t.overlaps@.len() ==> reports_some_pair(
                    t.sessions@,
                    t.sessions@.len() as int,
                    (#[trigger] t.overlaps@[k]).model(),
                ),
            t.total_events == events@.len(),
            t.earliest_ns == (if events@.len() == 0 {
                None
            } else {
                Some(events@[0].timestamp_ns)
            }),
            t.latest_ns == (if events@.len() == 0 {
                None
            } else {
                Some(events@.last().timestamp_ns)
            }),
    {
        let total_events = events.len();
        let earliest_ns = if total_events == 0 {
            None
        } else {
            Some(events[0].timestamp_ns)
        };
        let latest_ns = if total_events == 0 {
            None
        } else {
            Some(events[total_events - 1].timestamp_ns)
        };
        let sessions = self.build_sessions(&events);
        let gaps = self.detect_gaps(&sessions);
        let overlaps = self.detect_overlaps(&sessions);
        Timeline {
            sessions,
            gaps,
            overlaps,
            total_events,
            earliest_ns,
            latest_ns,
            built_at_ms: crate::types::utc_now_millis(),
        }
    }

    /// Groups `events` into sessions and orders them by start.
    pub fn build_sessions(&self, events: &Vec<TimedEvent>) -> (ss: Vec<TimelineSession>)
        requires
            self.well_formed(),
            events_in_range(events@),
        ensures
            models(ss@) == sessions_of(events@, self.session_timeout_ns as int),
            forall|i: int| 0 <= i < ss@.len() ==> (#[trigger] ss@[i]).well_formed(),
    {
        let ghost timeout = self.session_timeout_ns as int;
        let mut sessions: Vec<TimelineSession> = Vec::new();
        let n = events.len();
        let mut k: usize = 0;
        while k < n
            invariant
                k <= n,
                n == events@.len(),
                timeout == self.session_timeout_ns as int,
                self.well_formed(),
                events_in_range(events@),
                models(sessions@) == grouped(events@.subrange(0, k as int), timeout),
                forall|i: int| 0 <= i < sessions@.len() ==> (#[trigger] sessions@[i]).well_formed(),
            decreases n - k,
        {
            let event = &events[k];
            proof {
                let sub = events@.subrange(0, k as int + 1);
                assert(sub.drop_last() =~= events@.subrange(0, k as int));
                assert(sub.last() == events@[k as int]);
                assert(in_time_range(events@[k as int].timestamp_ns as int));
            }
            let merged = self.try_extend_session(&mut sessions, event, k);
            if !merged {
                let ghost before = sessions@;
                let mut indices: Vec<usize> = Vec::new();
                indices.push(k);
                let session = TimelineSession {
                    id: SessionId::new(),
                    network_id: event.network_id,
                    network_label: event.network_label.clone(),
                    start_ns: event.timestamp_ns,
                    end_ns: event.timestamp_ns,
                    duration_ns: 0,
                    event_indices: indices,
                    closed: event_closes(event.event_type),
                };
                sessions.push(session);
                proof {
                    assert(indices@ =~= seq![k]);
                    assert(models(sessions@) =~= models(before).push(session.model()));
                }
            }
            k = k + 1;
        }
        proof {
            assert(events@.subrange(0, n as int) =~= events@);
        }
        let ghost raw = sessions@;
        sort_stable(&mut sessions);
        proof {
            broadcast use vstd::seq_lib::group_to_multiset_ensures;
            let ka = |t: TimelineSession| t.key_spec();
            let kb = |m: SessionModel| model_start(m);
            let f = |s: TimelineSession| s.model();
            assert forall|a: TimelineSession| #[trigger] kb(f(a)) == ka(a) by {}
            lemma_stable_sorted_map(raw, f, ka, kb);
            assert(raw.map_values(f) =~= models(raw));
            assert(sessions@.map_values(f) =~= models(sessions@));
            lemma_stable_sorted_props(raw, ka);
            assert forall|i: int| 0 <= i < sessions@.len() implies (#[trigger] sessions@[i]).well_formed() by {
                assert(sessions@.to_multiset().count(sessions@[i]) > 0);
                assert(raw.to_multiset().count(sessions@[i]) > 0);
                assert(raw.contains(sessions@[i]));
                let m = choose|m: int| 0 <= m < raw.len() && raw[m] == sessions@[i];
                assert(raw[m].well_formed());
            }
        }
        sessions
    }

    /// Extends the last session that `event`, at position `idx`, continues;
    /// returns whether there was one.
    pub fn try_extend_session(
        &self,
        sessions: &mut Vec<TimelineSession>,
        event: &TimedEvent,
        idx: usize,
    ) -> (merged: bool)
        requires
            in_time_range(event.timestamp_ns as int),
            forall|i: int| 0 <= i < old(sessions)@.len() ==> (#[trigger] old(sessions)@[i]).well_formed(),
        ensures
            merged == (last_continued(models(old(sessions)@), *event, self.session_timeout_ns as int) >= 0),
            merged ==> models(final(sessions)@) == absorb(
                models(old(sessions)@),
                *event,
                idx,
                self.session_timeout_ns as int,
            ),
            !merged ==> final(sessions)@ == old(sessions)@,
            forall|i: int| 0 <= i < final(sessions)@.len() ==> (#[trigger] final(sessions)@[i]).well_formed(),
    {
        let ghost timeout = self.session_timeout_ns as int;
        let ghost ms = models(sessions@);
        let mut k: usize = sessions.len();
        while k > 0
            invariant
                k <= sessions@.len(),
                sessions@ == old(sessions)@,
                ms == models(old(sessions)@),
                timeout == self.session_timeout_ns as int,
                in_time_range(event.timestamp_ns as int),
                forall|i: int| 0 <= i < sessions@.len() ==> (#[trigger] sessions@[i]).well_formed(),
                forall|m: int| k <= m < ms.len() ==> !continues(#[trigger] ms[m], *event, timeout),
            decreases k,
        {
            let s = &sessions[k - 1];
            assert(ms[k - 1] == sessions@[k - 1].model());
            let gap = event.timestamp_ns - s.end_ns;
            if s.network_id == event.network_id && !s.closed && 0 <= gap && gap
                <= self.session_timeout_ns {
                proof {
                    lemma_last_continued(ms, *event, timeout, k - 1);
                }
                let ghost before = sessions@;
                let mut target = sessions.remove(k - 1);
                target.end_ns = event.timestamp_ns;
                target.duration_ns = event.timestamp_ns - target.start_ns;
                target.event_indices.push(idx);
                target.closed = event_closes(event.event_type);
                sessions.insert(k - 1, target);
                proof {
                    assert(sessions@ =~= before.update(k - 1, target));
                    assert(models(sessions@) =~= absorb(ms, *event, idx, timeout));
                }
                return true;
            }
            k = k - 1;
        }
        proof {
            lemma_last_continued(ms, *event, timeout, -1);
        }
        false
    }

    /// The gaps longer than the timeout between consecutive sessions.
    pub fn detect_gaps(&self, sessions: &Vec<TimelineSession>) -> (gaps: Vec<TimelineGap>)
        requires
            forall|i: int| 0 <= i < sessions@.len() ==> (#[trigger] sessions@[i]).well_formed(),
        ensures
            gaps@.map_values(|g: TimelineGap| g.model()) == gaps_upto(
                sessions@,
                sessions@.len() as int,
                self.session_timeout_ns as int,
            ),
    {
        let mut gaps: Vec<TimelineGap> = Vec::new();
        let n = sessions.len();
        let mut k: usize = 1;
        if n == 0 {
            return gaps;
        }
        while k < n
            invariant
                1 <= k <= n,
                n == sessions@.len(),
                forall|i: int| 0 <= i < sessions@.len() ==> (#[trigger] sessions@[i]).well_formed(),
                gaps@.map_values(|g: TimelineGap| g.model()) == gaps_upto(
                    sessions@,
                    k as int,
                    self.session_timeout_ns as int,
                ),
            decreases n - k,
        {
            let prev = &sessions[k - 1];
            let next = &sessions[k];
            assert(prev.well_formed() && next.well_formed());
            let d = next.start_ns - prev.end_ns;
            let ghost before = gaps@;
            if d > self.session_timeout_ns {
                let minutes = whole_minutes_of(d);
                let mut explanation = owned("No network activity observed for ");
                let digits = signed_decimal_string(minutes);
                append(&mut explanation, digits.as_str());
                append(&mut explanation, " minutes between sessions.");
                let gap = TimelineGap {
                    start_ns: prev.end_ns,
                    end_ns: next.start_ns,
                    duration_ns: d,
                    explanation,
                };
                gaps.push(gap);
                proof {
                    assert(gap.model() == gap_between(sessions@[k - 1], sessions@[k as int]));
                    assert(gaps@.map_values(|g: TimelineGap| g.model()) =~= before.map_values(
                        |g: TimelineGap| g.model(),
                    ).push(gap.model()));
                }
            }
            k = k + 1;
        }
        gaps
    }

    /// The overlaps between sessions on different networks, pair by pair.
    pub fn detect_overlaps(&self, sessions: &Vec<TimelineSession>) -> (overlaps: Vec<
        TimelineOverlap,
    >)
        requires
            forall|i: int| 0 <= i < sessions@.len() ==> (#[trigger] sessions@[i]).well_formed(),
        ensures
            overlaps@.map_values(|o: TimelineOverlap| o.model()) == overlaps_upto(
                sessions@,
                sessions@.len() as int,
            ),
            forall|a: int, b: int|
                0 <= a < b < sessions@.len() && #[trigger] share_time(sessions@[a], sessions@[b])
                    ==> has_report(
                    overlaps@.map_values(|o: TimelineOverlap| o.model()),
                    sessions@[a],
                    sessions@[b],
                ),
            forall|k: int|
                0 <= k < overlaps@.len() ==> reports_some_pair(
                    sessions@,
                    sessions@.len() as int,
                    (#[trigger] overlaps@[k]).model(),
                ),
    {
        proof {
            law_overlaps_cover_every_pair(sessions@);
        }
        let mut overlaps: Vec<TimelineOverlap> = Vec::new();
        let n = sessions.len();
        let mut i: usize = 0;
        while i < n
            invariant
                i <= n,
                n == sessions@.len(),
                forall|m: int| 0 <= m < sessions@.len() ==> (#[trigger] sessions@[m]).well_formed(),
                overlaps@.map_values(|o: TimelineOverlap| o.model()) == overlaps_upto(
                    sessions@,
                    i as int,
                ),
            decreases n - i,
        {
            let ghost row_start = overlaps@.map_values(|o: TimelineOverlap| o.model());
            let mut j: usize = i + 1;
            while j < n
                invariant
                    i < n,
                    i + 1 <= j <= n,
                    n == sessions@.len(),
                    forall|m: int| 0 <= m < sessions@.len() ==> (#[trigger] sessions@[m]).well_formed(),
                    row_start == overlaps_upto(sessions@, i as int),
                    overlaps@.map_values(|o: TimelineOverlap| o.model()) == row_start
                        + overlaps_row(sessions@, i as int, j as int),
                decreases n - j,
            {
                let a = &sessions[i];
                let b = &sessions[j];
                assert(a.well_formed() && b.well_formed());
                let ghost before = overlaps@;
                if a.network_id != b.network_id {
                    let s = if a.start_ns >= b.start_ns {
                        a.start_ns
                    } else {
                        b.start_ns
                    };
                    let e = if a.end_ns <= b.end_ns {
                        a.end_ns
                    } else {
                        b.end_ns
                    };
                    if s < e {
                        let secs = whole_seconds_of(e - s);
                        let explanation = overlap_explanation(
                            a.network_label.as_str(),
                            b.network_label.as_str(),
                            secs,
                        );
                        let o = TimelineOverlap {
                            session_a: a.id,
                            session_b: b.id,
                            network_a_label: a.network_label.clone(),
                            network_b_label: b.network_label.clone(),
                            overlap_start_ns: s,
                            overlap_end_ns: e,
                            explanation,
                        };
                        overlaps.push(o);
                        proof {
                            assert(overlapping(sessions@[i as int], sessions@[j as int]));
                            assert(o.model() == overlap_between(sessions@[i as int], sessions@[j as int]));
                            assert(overlaps@.map_values(|o: TimelineOverlap| o.model()) =~= before.map_values(
                                |o: TimelineOverlap| o.model(),
                            ).push(o.model()));
                        }
                    }
                }
                proof {
                    let r = overlaps_row(sessions@, i as int, j as int);
                    if overlapping(sessions@[i as int], sessions@[j as int]) {
                        let x = overlap_between(sessions@[i as int], sessions@[j as int]);
                        assert((row_start + r).push(x) =~= row_start + r.push(x));
                    }
                }
                j = j + 1;
            }
            proof {
                assert(overlaps_upto(sessions@, i as int + 1) == overlaps_upto(sessions@, i as int)
                    + overlaps_row(sessions@, i as int, n as int));
            }
            i = i + 1;
        }
        proof {
            assert forall|k: int| 0 <= k < overlaps@.len() implies reports_some_pair(
                sessions@,
                sessions@.len() as int,
                (#[trigger] overlaps@[k]).model(),
            ) by {
                assert(overlaps@.map_values(|o: TimelineOverlap| o.model())[k] == overlaps@[k].model());
            }
        }
        overlaps
    }
}

/// The number of event positions held by the sessions `ss`.
pub open spec fn members_total(ss: Seq<SessionModel>) -> int
    decreases ss.len(),
{
    if ss.len() == 0 {
        0
    } else {
        members_total(ss.drop_last()) + ss.last().members.len()
    }
}

/// Some session of `ss` holds event position `k`.
pub open spec fn holds_event(ss: Seq<SessionModel>, k: int) -> bool {
    exists|i: int, j: int|
        0 <= i < ss.len() && 0 <= j < ss[i].members.len() && ss[i].members[j] == k
}

/// Every position a session of `ss` holds is an event of `es` on the
/// session's network.
pub open spec fn on_own_network(ss: Seq<SessionModel>, es: Seq<TimedEvent>) -> bool {
    forall|i: int, j: int|
        0 <= i < ss.len() && 0 <= j < ss[i].members.len() ==> {
            let m = #[trigger] ss[i].members[j];
            &&& m < es.len()
            &&& es[m as int].network_id == ss[i].network_id
        }
}

proof fn lemma_members_total_update(ss: Seq<SessionModel>, k: int, m: SessionModel)
    requires
        0 <= k < ss.len(),
    ensures
        members_total(ss.update(k, m)) == members_total(ss) + m.members.len()
            - ss[k].members.len(),
    decreases ss.len(),
{
    if k == ss.len() - 1 {
        assert(ss.update(k, m).drop_last() =~= ss.drop_last());
    } else {
        lemma_members_total_update(ss.drop_last(), k, m);
        assert(ss.update(k, m).drop_last() =~= ss.drop_last().update(k, m));
    }
}

proof fn lemma_members_total_insert(ss: Seq<SessionModel>, x: SessionModel, key: spec_fn(SessionModel) -> int)
    ensures
        members_total(crate::sort::insert_by(ss, x, key)) == members_total(ss) + x.members.len(),
    decreases ss.len(),
{
    if ss.len() == 0 {
        assert(seq![x].drop_last() =~= Seq::<SessionModel>::empty());
    } else if key(ss.last()) <= key(x) {
        assert(ss.push(x).drop_last() =~= ss);
    } else {
        lemma_members_total_insert(ss.drop_last(), x, key);
        let r = crate::sort::insert_by(ss.drop_last(), x, key);
        assert(r.push(ss.last()).drop_last() =~= r);
    }
}

proof fn lemma_members_total_sorted(ss: Seq<SessionModel>, key: spec_fn(SessionModel) -> int)
    ensures
        members_total(stable_sorted_by(ss, key)) == members_total(ss),
    decreases ss.len(),
{
    if ss.len() > 0 {
        lemma_members_total_sorted(ss.drop_last(), key);
        lemma_members_total_insert(stable_sorted_by(ss.drop_last(), key), ss.last(), key);
    }
}

proof fn lemma_last_continued_range(ss: Seq<SessionModel>, e: TimedEvent, timeout: int)
    ensures
        -1 <= last_continued(ss, e, timeout) < ss.len(),
        last_continued(ss, e, timeout) >= 0 ==> continues(
            ss[last_continued(ss, e, timeout)],
            e,
            timeout,
        ),
    decreases ss.len(),
{
    if ss.len() > 0 && !continues(ss.last(), e, timeout) {
        lemma_last_continued_range(ss.drop_last(), e, timeout);
        let k = last_continued(ss.drop_last(), e, timeout);
        if k >= 0 {
            assert(ss.drop_last()[k] == ss[k]);
        }
    }
}

proof fn lemma_grouped_props(es: Seq<TimedEvent>, timeout: int)
    requires
        es.len() <= usize::MAX,
    ensures
        members_total(grouped(es, timeout)) == es.len(),
        forall|k: int| 0 <= k < es.len() ==> holds_event(grouped(es, timeout), k),
        on_own_network(grouped(es, timeout), es),
    decreases es.len(),
{
    if es.len() > 0 {
        let t = es.drop_last();
        let e = es.last();
        let n = es.len() - 1;
        lemma_grouped_props(t, timeout);
        let ss = grouped(t, timeout);
        let r = grouped(es, timeout);
        lemma_last_continued_range(ss, e, timeout);
        let k = last_continued(ss, e, timeout);
        if k >= 0 {
            let m = SessionModel {
                network_id: ss[k].network_id,
                label: ss[k].label,
                start: ss[k].start,
                end: e.timestamp_ns as int,
                members: ss[k].members.push(n as usize),
                closed: closes(e.event_type),
            };
            assert(r == ss.update(k, m));
            lemma_members_total_update(ss, k, m);
            assert forall|q: int| 0 <= q < es.len() implies holds_event(r, q) by {
                if q == n {
                    assert(r[k].members[r[k].members.len() - 1] == q);
                } else {
                    assert(holds_event(ss, q));
                    let (i, j) = choose|i: int, j: int|
                        0 <= i < ss.len() && 0 <= j < ss[i].members.len() && ss[i].members[j] == q;
                    assert(r[i].members[j] == q);
                }
            }
            assert forall|i: int, j: int|
                0 <= i < r.len() && 0 <= j < r[i].members.len() implies {
                let m = #[trigger] r[i].members[j];
                &&& m < es.len()
                &&& es[m as int].network_id == r[i].network_id
            } by {
                if i != k || j < ss[k].members.len() {
                    assert(r[i].members[j] == ss[i].members[j]);
                    assert(t[ss[i].members[j] as int] == es[ss[i].members[j] as int]);
                }
            }
        } else {
            let m = SessionModel {
                network_id: e.network_id,
                label: e.network_label@,
                start: e.timestamp_ns as int,
                end: e.timestamp_ns as int,
                members: seq![n as usize],
                closed: closes(e.event_type),
            };
            assert(r == ss.push(m));
            assert(r.drop_last() =~= ss);
            assert forall|q: int| 0 <= q < es.len() implies holds_event(r, q) by {
                if q == n {
                    assert(r[ss.len() as int].members[0] == q);
                } else {
                    assert(holds_event(ss, q));
                    let (i, j) = choose|i: int, j: int|
                        0 <= i < ss.len() && 0 <= j < ss[i].members.len() && ss[i].members[j] == q;
                    assert(r[i].members[j] == q);
                }
            }
            assert forall|i: int, j: int|
                0 <= i < r.len() && 0 <= j < r[i].members.len() implies {
                let m = #[trigger] r[i].members[j];
                &&& m < es.len()
                &&& es[m as int].network_id == r[i].network_id
            } by {
                if i < ss.len() {
                    assert(r[i] == ss[i]);
                    assert(t[ss[i].members[j] as int] == es[ss[i].members[j] as int]);
                }
            }
        }
    }
}

/// The sessions of a timeline are in order of start.
pub proof fn law_sessions_in_start_order(es: Seq<TimedEvent>, timeout: int)
    ensures
        ascending_by(sessions_of(es, timeout), |m: SessionModel| model_start(m)),
{
    lemma_stable_sorted_props(grouped(es, timeout), |m: SessionModel| model_start(m));
}

/// The sessions of a timeline partition its events: every event is held by
/// a session, the sessions together hold as many positions as there are
/// events, so each event is held exactly once, and a session holds only
/// events on its own network.
pub proof fn law_sessions_partition_events(es: Seq<TimedEvent>, timeout: int)
    requires
        es.len() <= usize::MAX,
    ensures
        members_total(sessions_of(es, timeout)) == es.len(),
        forall|k: int| 0 <= k < es.len() ==> holds_event(sessions_of(es, timeout), k),
        on_own_network(sessions_of(es, timeout), es),
{
    broadcast use vstd::seq_lib::group_to_multiset_ensures;
    let key = |m: SessionModel| model_start(m);
    let g = grouped(es, timeout);
    let s = sessions_of(es, timeout);
    lemma_grouped_props(es, timeout);
    lemma_stable_sorted_props(g, key);
    lemma_members_total_sorted(g, key);
    assert forall|k: int| 0 <= k < es.len() implies holds_event(s, k) by {
        assert(holds_event(g, k));
        let (i, j) = choose|i: int, j: int|
            0 <= i < g.len() && 0 <= j < g[i].members.len() && g[i].members[j] == k;
        assert(g.contains(g[i]));
        assert(g.to_multiset().count(g[i]) > 0);
        assert(s.to_multiset().count(g[i]) > 0);
        assert(s.contains(g[i]));
        let p = choose|p: int| 0 <= p < s.len() && s[p] == g[i];
        assert(s[p].members[j] == k);
    }
    assert forall|i: int, j: int|
        0 <= i < s.len() && 0 <= j < s[i].members.len() implies {
        let m = #[trigger] s[i].members[j];
        &&& m < es.len()
        &&& es[m as int].network_id == s[i].network_id
    } by {
        assert(s.contains(s[i]));
        assert(s.to_multiset().count(s[i]) > 0);
        assert(g.to_multiset().count(s[i]) > 0);
        assert(g.contains(s[i]));
        let p = choose|p: int| 0 <= p < g.len() && g[p] == s[i];
        assert(g[p].members[j] == s[i].members[j]);
    }
}

/// A disconnection ends a session: the session that takes in a
/// disconnection or the hotspot stopping (the one it continues, or a new
/// one) holds it last, is closed, and no later event continues it, so the
/// next event on that network opens a new session.
pub proof fn law_disconnection_ends_session(
    ss: Seq<SessionModel>,
    e: TimedEvent,
    idx: usize,
    next: TimedEvent,
    timeout: int,
)
    requires
        closes(e.event_type),
    ensures
        ({
            let r = absorb(ss, e, idx, timeout);
            let j = last_continued(ss, e, timeout);
            let k = if j >= 0 { j } else { ss.len() as int };
            &&& 0 <= k < r.len()
            &&& r[k].members.last() == idx
            &&& r[k].closed
            &&& !continues(r[k], next, timeout)
        }),
{
    lemma_last_continued_range(ss, e, timeout);
}

/// `last_continued` is the `k` past which no session is continued.
pub proof fn lemma_last_continued(ss: Seq<SessionModel>, e: TimedEvent, timeout: int, k: int)
    requires
        -1 <= k < ss.len(),
        k >= 0 ==> continues(ss[k], e, timeout),
        forall|m: int| k < m < ss.len() ==> !continues(#[trigger] ss[m], e, timeout),
    ensures
        last_continued(ss, e, timeout) == k,
    decreases ss.len(),
{
    if ss.len() == 0 {
    } else if k == ss.len() - 1 {
    } else {
        assert(!continues(ss[ss.len() - 1], e, timeout));
        let t = ss.drop_last();
        assert forall|m: int| k < m < t.len() implies !continues(#[trigger] t[m], e, timeout) by {
            assert(t[m] == ss[m]);
        }
        if k >= 0 {
            assert(t[k] == ss[k]);
        }
        lemma_last_continued(t, e, timeout, k);
    }
}

/// The whole seconds in `d` nanoseconds, rounded toward zero.
fn whole_seconds_of(d: i128) -> (r: i128)
    requires
        -2 * TIME_LIMIT_NS <= d <= 2 * TIME_LIMIT_NS,
    ensures
        r == whole_seconds(d as int),
        -0x1_0000_0000_0000_0000 < r < 0x1_0000_0000_0000_0000,
{
    if d >= 0 {
        d / NANOS_PER_SEC
    } else {
        0 - ((0 - d) / NANOS_PER_SEC)
    }
}

/// The whole minutes in `d` nanoseconds, rounded toward zero.
fn whole_minutes_of(d: i128) -> (r: i128)
    requires
        -2 * TIME_LIMIT_NS <= d <= 2 * TIME_LIMIT_NS,
    ensures
        r == whole_minutes(d as int),
        -0x1_0000_0000_0000_0000 < r < 0x1_0000_0000_0000_0000,
{
    let s = whole_seconds_of(d);
    if s >= 0 {
        s / 60
    } else {
        0 - ((0 - s) / 60)
    }
}

/// The explanation of an overlap between two labelled networks.
fn overlap_explanation(label_a: &str, label_b: &str, secs: i128) -> (r: String)
    requires
        -0x1_0000_0000_0000_0000 < secs < 0x1_0000_0000_0000_0000,
    ensures
        r@ == overlap_text(label_a@, label_b@, secs as int),
{
    let mut r = owned("Device appears connected to both \"");
    append(&mut r, label_a);
    append(&mut r, "\" and \"");
    append(&mut r, label_b);
    append(&mut r, "\" simultaneously for ");
    let digits = signed_decimal_string(secs);
    append(&mut r, digits.as_str());
    append(
        &mut r,
        " seconds. This may indicate a hotspot+client dual-mode scenario, a log timing artifact, or data inconsistency.",
    );
    r
}

impl Default for TimelineBuilder {
    /// A builder with the default timeout, as `new` makes it.
    fn default() -> (b: TimelineBuilder)
        ensures
            b.session_timeout_ns == DEFAULT_SESSION_TIMEOUT_MINS * NANOS_PER_MIN,
    {
        TimelineBuilder::new()
    }
}

/// Sessions `a` and `b` share a stretch of time of positive length on
/// different networks: each starts before either of them ends.
pub open spec fn share_time(a: TimelineSession, b: TimelineSession) -> bool {
    &&& a.network_id != b.network_id
    &&& a.start_ns < a.end_ns
    &&& a.start_ns < b.end_ns
    &&& b.start_ns < a.end_ns
    &&& b.start_ns < b.end_ns
}

/// `o` reports sessions `a` and `b`, in that order, over the stretch from
/// the later start to the earlier end.
pub open spec fn reports_pair(o: OverlapModel, a: TimelineSession, b: TimelineSession) -> bool {
    &&& o.session_a == a.id
    &&& o.session_b == b.id
    &&& o.label_a == a.network_label@
    &&& o.label_b == b.network_label@
    &&& o.start == (if a.start_ns >= b.start_ns { a.start_ns as int } else { b.start_ns as int })
    &&& o.end == (if a.end_ns <= b.end_ns { a.end_ns as int } else { b.end_ns as int })
}

/// `o` reports session `i` of `ss` with one of sessions `i + 1` up to
/// `j - 1` that it shares time with.
pub open spec fn reports_row_pair(ss: Seq<TimelineSession>, i: int, j: int, o: OverlapModel) -> bool {
    exists|b: int| i < b < j && #[trigger] share_time(ss[i], ss[b]) && reports_pair(o, ss[i], ss[b])
}

/// `o` reports a pair `a < b` of `ss`, with `a` below `m`, that shares time.
pub open spec fn reports_some_pair(ss: Seq<TimelineSession>, m: int, o: OverlapModel) -> bool {
    exists|a: int, b: int|
        0 <= a < m && a < b < ss.len() && #[trigger] share_time(ss[a], ss[b]) && reports_pair(
            o,
            ss[a],
            ss[b],
        )
}

/// `os` holds a report of sessions `a` and `b`.
pub open spec fn has_report(os: Seq<OverlapModel>, a: TimelineSession, b: TimelineSession) -> bool {
    exists|k: int| 0 <= k < os.len() && #[trigger] reports_pair(os[k], a, b)
}

proof fn lemma_overlaps_row(ss: Seq<TimelineSession>, i: int, j: int)
    requires
        0 <= i < ss.len(),
        j <= ss.len(),
    ensures
        forall|b: int|
            i < b < j && #[trigger] share_time(ss[i], ss[b]) ==> has_report(
                overlaps_row(ss, i, j),
                ss[i],
                ss[b],
            ),
        forall|k: int|
            0 <= k < overlaps_row(ss, i, j).len() ==> reports_row_pair(
                ss,
                i,
                j,
                #[trigger] overlaps_row(ss, i, j)[k],
            ),
    decreases j - i,
{
    if j > i + 1 {
        lemma_overlaps_row(ss, i, j - 1);
        let r = overlaps_row(ss, i, j - 1);
        let all = overlaps_row(ss, i, j);
        assert forall|b: int| i < b < j && #[trigger] share_time(ss[i], ss[b]) implies has_report(
            all,
            ss[i],
            ss[b],
        ) by {
            if b < j - 1 {
                assert(has_report(r, ss[i], ss[b]));
                let k = choose|k: int| 0 <= k < r.len() && #[trigger] reports_pair(r[k], ss[i], ss[b]);
                assert(all[k] == r[k]);
                assert(reports_pair(all[k], ss[i], ss[b]));
            } else {
                assert(overlapping(ss[i], ss[j - 1]));
                assert(all[all.len() - 1] == overlap_between(ss[i], ss[j - 1]));
                assert(reports_pair(all[all.len() - 1], ss[i], ss[b]));
            }
        }
        assert forall|k: int| 0 <= k < all.len() implies reports_row_pair(ss, i, j, #[trigger] all[k]) by {
            if k < r.len() {
                assert(all[k] == r[k]);
                assert(reports_row_pair(ss, i, j - 1, r[k]));
                let b = choose|b: int|
                    i < b < j - 1 && #[trigger] share_time(ss[i], ss[b]) && reports_pair(r[k], ss[i], ss[b]);
                assert(share_time(ss[i], ss[b]) && reports_pair(all[k], ss[i], ss[b]));
            } else {
                assert(overlapping(ss[i], ss[j - 1]));
                assert(all[k] == overlap_between(ss[i], ss[j - 1]));
                assert(share_time(ss[i], ss[j - 1]) && reports_pair(all[k], ss[i], ss[j - 1]));
            }
        }
    } else {
        assert(overlaps_row(ss, i, j).len() == 0);
    }
}

proof fn lemma_overlaps_upto(ss: Seq<TimelineSession>, m: int)
    requires
        0 <= m <= ss.len(),
    ensures
        forall|a: int, b: int|
            0 <= a < m && a < b < ss.len() && #[trigger] share_time(ss[a], ss[b]) ==> has_report(
                overlaps_upto(ss, m),
                ss[a],
                ss[b],
            ),
        forall|k: int|
            0 <= k < overlaps_upto(ss, m).len() ==> reports_some_pair(
                ss,
                m,
                #[trigger] overlaps_upto(ss, m)[k],
            ),
    decreases m,
{
    if m > 0 {
        lemma_overlaps_upto(ss, m - 1);
        lemma_overlaps_row(ss, m - 1, ss.len() as int);
        let p = overlaps_upto(ss, m - 1);
        let r = overlaps_row(ss, m - 1, ss.len() as int);
        let all = overlaps_upto(ss, m);
        assert(all == p + r);
        assert forall|a: int, b: int|
            0 <= a < m && a < b < ss.len() && #[trigger] share_time(ss[a], ss[b]) implies has_report(
            all,
            ss[a],
            ss[b],
        ) by {
            if a < m - 1 {
                assert(has_report(p, ss[a], ss[b]));
                let k = choose|k: int| 0 <= k < p.len() && #[trigger] reports_pair(p[k], ss[a], ss[b]);
                assert(all[k] == p[k]);
                assert(reports_pair(all[k], ss[a], ss[b]));
            } else {
                assert(has_report(r, ss[a], ss[b]));
                let k = choose|k: int| 0 <= k < r.len() && #[trigger] reports_pair(r[k], ss[a], ss[b]);
                assert(all[p.len() + k] == r[k]);
                assert(reports_pair(all[p.len() + k], ss[a], ss[b]));
            }
        }
        assert forall|k: int| 0 <= k < all.len() implies reports_some_pair(ss, m, #[trigger] all[k]) by {
            if k < p.len() {
                assert(all[k] == p[k]);
                assert(reports_some_pair(ss, m - 1, p[k]));
                let (a, b) = choose|a: int, b: int|
                    0 <= a < m - 1 && a < b < ss.len() && #[trigger] share_time(ss[a], ss[b])
                        && reports_pair(p[k], ss[a], ss[b]);
                assert(share_time(ss[a], ss[b]) && reports_pair(all[k], ss[a], ss[b]));
            } else {
                let kk = k - p.len();
                assert(all[k] == r[kk]);
                assert(reports_row_pair(ss, m - 1, ss.len() as int, r[kk]));
                let b = choose|b: int|
                    m - 1 < b < ss.len() && #[trigger] share_time(ss[m - 1], ss[b]) && reports_pair(
                        r[kk],
                        ss[m - 1],
                        ss[b],
                    );
                assert(share_time(ss[m - 1], ss[b]) && reports_pair(all[k], ss[m - 1], ss[b]));
            }
        }
    }
}

/// Overlap detection compares every pair of sessions: for any two sessions
/// `a` before `b` on different networks whose stretches share time (each
/// starts before either ends), the overlaps report that pair over the later
/// start to the earlier end; and every overlap reported is such a pair.
pub proof fn law_overlaps_cover_every_pair(ss: Seq<TimelineSession>)
    ensures
        forall|a: int, b: int|
            0 <= a < b < ss.len() && #[trigger] share_time(ss[a], ss[b]) ==> has_report(
                overlaps_upto(ss, ss.len() as int),
                ss[a],
                ss[b],
            ),
        forall|k: int|
            0 <= k < overlaps_upto(ss, ss.len() as int).len() ==> reports_some_pair(
                ss,
                ss.len() as int,
                #[trigger] overlaps_upto(ss, ss.len() as int)[k],
            ),
{
    lemma_overlaps_upto(ss, ss.len() as int);
}

} // verus!
