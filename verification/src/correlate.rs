//! The vocabulary of timeline correlation: anomaly severities and
//! categories, connection event types, and the analysers.

use vstd::prelude::*;
use crate::text::{append, has_prefix, owned, str_starts_with};
use crate::timeline::{
    in_time_range, whole_seconds, TimedEvent, Timeline, TimelineGap, TimelineOverlap,
    TimelineSession, NANOS_PER_SEC,
};
use crate::types::{is_v4_uuid, random_uuid, utc_now_millis, NetworkRole};

verus! {

/// The severity of a detected anomaly, least severe first.
#[derive(Debug, Clone, Copy, PartialEq, Eq, PartialOrd, Ord, Hash, Structural)]
pub enum AnomalySeverity {
    /// May be normal behaviour.
    Info,
    /// Unusual, with plausible explanations.
    Warning,
    /// May indicate tampering, corruption or significant error.
    Critical,
}

impl AnomalySeverity {
    /// The display label: `INFO`, `WARNING` or `CRITICAL`.
    pub fn display_text(&self) -> (s: String)
        ensures
            s@ == match *self {
                AnomalySeverity::Info => "INFO"@,
                AnomalySeverity::Warning => "WARNING"@,
                AnomalySeverity::Critical => "CRITICAL"@,
            },
    {
        match self {
            AnomalySeverity::Info => owned("INFO"),
            AnomalySeverity::Warning => owned("WARNING"),
            AnomalySeverity::Critical => owned("CRITICAL"),
        }
    }
}

/// The category of a detected anomaly.
#[derive(Debug, Clone, Copy, PartialEq, Eq, Structural)]
pub enum AnomalyCategory {
    /// Events in an impossible temporal order.
    TemporalOrderViolation,
    /// Connected to incompatible networks at once.
    SimultaneousConnection,
    /// A very long gap in activity.
    ExtendedActivityGap,
    /// A connection event of very low confidence.
    LowConfidenceEvent,
    /// A very short session that may be spurious.
    MicroSession,
    /// A connection to a suspicious network pattern.
    SuspiciousNetwork,
}

impl AnomalyCategory {
    /// The display label, such as `TEMPORAL_ORDER_VIOLATION`.
    pub fn display_text(&self) -> (s: String)
        ensures
            s@ == match *self {
                AnomalyCategory::TemporalOrderViolation => "TEMPORAL_ORDER_VIOLATION"@,
                AnomalyCategory::SimultaneousConnection => "SIMULTANEOUS_CONNECTION"@,
                AnomalyCategory::ExtendedActivityGap => "EXTENDED_ACTIVITY_GAP"@,
                AnomalyCategory::LowConfidenceEvent => "LOW_CONFIDENCE_EVENT"@,
                AnomalyCategory::MicroSession => "MICRO_SESSION"@,
                AnomalyCategory::SuspiciousNetwork => "SUSPICIOUS_NETWORK"@,
            },
    {
        match self {
            AnomalyCategory::TemporalOrderViolation => owned("TEMPORAL_ORDER_VIOLATION"),
            AnomalyCategory::SimultaneousConnection => owned("SIMULTANEOUS_CONNECTION"),
            AnomalyCategory::ExtendedActivityGap => owned("EXTENDED_ACTIVITY_GAP"),
            AnomalyCategory::LowConfidenceEvent => owned("LOW_CONFIDENCE_EVENT"),
            AnomalyCategory::MicroSession => owned("MICRO_SESSION"),
            AnomalyCategory::SuspiciousNetwork => owned("SUSPICIOUS_NETWORK"),
        }
    }
}

/// The kind of a reconstructed connection event.
#[derive(Debug, Clone, Copy, PartialEq, Eq, Structural)]
pub enum ConnectionEventType {
    /// Connected to a Wi-Fi network.
    Connected,
    /// Disconnected from a Wi-Fi network.
    Disconnected,
    /// A DHCP lease was acquired or renewed.
    DhcpLeaseAcquired,
    /// A DHCP lease expired.
    DhcpLeaseExpired,
    /// Moved between access points of one network.
    Handoff,
    /// The device's hotspot was turned on.
    HotspotStarted,
    /// The device's hotspot was turned off.
    HotspotStopped,
}

impl ConnectionEventType {
    /// The display label, such as `DHCP_LEASE_ACQUIRED`.
    pub fn display_text(&self) -> (s: String)
        ensures
            s@ == match *self {
                ConnectionEventType::Connected => "CONNECTED"@,
                ConnectionEventType::Disconnected => "DISCONNECTED"@,
                ConnectionEventType::DhcpLeaseAcquired => "DHCP_LEASE_ACQUIRED"@,
                ConnectionEventType::DhcpLeaseExpired => "DHCP_LEASE_EXPIRED"@,
                ConnectionEventType::Handoff => "HANDOFF"@,
                ConnectionEventType::HotspotStarted => "HOTSPOT_STARTED"@,
                ConnectionEventType::HotspotStopped => "HOTSPOT_STOPPED"@,
            },
    {
        match self {
            ConnectionEventType::Connected => owned("CONNECTED"),
            ConnectionEventType::Disconnected => owned("DISCONNECTED"),
            ConnectionEventType::DhcpLeaseAcquired => owned("DHCP_LEASE_ACQUIRED"),
            ConnectionEventType::DhcpLeaseExpired => owned("DHCP_LEASE_EXPIRED"),
            ConnectionEventType::Handoff => owned("HANDOFF"),
            ConnectionEventType::HotspotStarted => owned("HOTSPOT_STARTED"),
            ConnectionEventType::HotspotStopped => owned("HOTSPOT_STOPPED"),
        }
    }
}


/// The classifier of the device's network role. It holds no state.
#[derive(Debug, Clone, Copy)]
pub struct RoleClassifier;

/// A piece of evidence for a network role, with its weight in basis points.
#[derive(Debug, Clone)]
pub struct RoleSignal {
    /// What the signal is.
    pub description: String,
    /// The role it supports.
    pub supports: NetworkRole,
    /// Its weight in basis points (hundredths of a percent).
    pub weight_bp: u32,
    /// Where it came from.
    pub source: String,
}

/// The Android default hotspot address range.
pub open spec fn hotspot_ip(ip: Seq<char>) -> bool {
    has_prefix(ip, "192.168.43."@)
}

impl RoleClassifier {
    /// A network entry in `wpa_supplicant.conf`: a strong client signal.
    pub fn signal_wpa_supplicant_entry(source: &str) -> (r: RoleSignal)
        ensures
            r.description@ == "Network entry found in wpa_supplicant.conf (client-mode config)"@,
            r.supports == NetworkRole::DeviceAsClient,
            r.weight_bp == 9000,
            r.source@ == source@,
    {
        RoleSignal {
            description: owned("Network entry found in wpa_supplicant.conf (client-mode config)"),
            supports: NetworkRole::DeviceAsClient,
            weight_bp: 9000,
            source: owned(source),
        }
    }

    /// A network entry in `WifiConfigStore.xml`: a strong client signal.
    pub fn signal_wifi_config_store_entry(source: &str) -> (r: RoleSignal)
        ensures
            r.description@ == "Network entry found in WifiConfigStore.xml (client-mode config)"@,
            r.supports == NetworkRole::DeviceAsClient,
            r.weight_bp == 9000,
            r.source@ == source@,
    {
        RoleSignal {
            description: owned("Network entry found in WifiConfigStore.xml (client-mode config)"),
            supports: NetworkRole::DeviceAsClient,
            weight_bp: 9000,
            source: owned(source),
        }
    }

    /// A DHCP lease received: a strong client signal.
    pub fn signal_dhcp_lease_received(source: &str) -> (r: RoleSignal)
        ensures
            r.description@ == "DHCP lease received (device obtained IP from external DHCP server)"@,
            r.supports == NetworkRole::DeviceAsClient,
            r.weight_bp == 9500,
            r.source@ == source@,
    {
        RoleSignal {
            description: owned("DHCP lease received (device obtained IP from external DHCP server)"),
            supports: NetworkRole::DeviceAsClient,
            weight_bp: 9500,
            source: owned(source),
        }
    }

    /// A hostapd configuration: a strong hotspot signal.
    pub fn signal_hostapd_config(source: &str) -> (r: RoleSignal)
        ensures
            r.description@ == "hostapd configuration detected (device was running as AP)"@,
            r.supports == NetworkRole::DeviceAsHotspot,
            r.weight_bp == 9500,
            r.source@ == source@,
    {
        RoleSignal {
            description: owned("hostapd configuration detected (device was running as AP)"),
            supports: NetworkRole::DeviceAsHotspot,
            weight_bp: 9500,
            source: owned(source),
        }
    }

    /// Tethering was active: a strong hotspot signal.
    pub fn signal_tethering_active(source: &str) -> (r: RoleSignal)
        ensures
            r.description@ == "Tethering/mobile hotspot setting was active"@,
            r.supports == NetworkRole::DeviceAsHotspot,
            r.weight_bp == 9000,
            r.source@ == source@,
    {
        RoleSignal {
            description: owned("Tethering/mobile hotspot setting was active"),
            supports: NetworkRole::DeviceAsHotspot,
            weight_bp: 9000,
            source: owned(source),
        }
    }

    /// Whether an address lies in the Android default hotspot range
    /// (`192.168.43.x`): a hotspot signal if so, a weak client signal if
    /// not.
    pub fn signal_hotspot_ip_range(ip: &str, source: &str) -> (r: RoleSignal)
        ensures
            r.description@ == "IP address "@ + ip@ + (if hotspot_ip(ip@) {
                " is in"@
            } else {
                " is NOT in"@
            }) + " Android default hotspot range (192.168.43.x)"@,
            r.supports == (if hotspot_ip(ip@) {
                NetworkRole::DeviceAsHotspot
            } else {
                NetworkRole::DeviceAsClient
            }),
            r.weight_bp == (if hotspot_ip(ip@) {
                8000u32
            } else {
                3000u32
            }),
            r.source@ == source@,
    {
        let is_hotspot_ip = str_starts_with(ip, "192.168.43.");
        let mut description = owned("IP address ");
        append(&mut description, ip);
        if is_hotspot_ip {
            append(&mut description, " is in");
        } else {
            append(&mut description, " is NOT in");
        }
        append(&mut description, " Android default hotspot range (192.168.43.x)");
        proof {
            let tail: Seq<char> = if hotspot_ip(ip@) { " is in"@ } else { " is NOT in"@ };
            assert(description@ =~= "IP address "@ + ip@ + tail + " Android default hotspot range (192.168.43.x)"@);
        }
        RoleSignal {
            description,
            supports: if is_hotspot_ip {
                NetworkRole::DeviceAsHotspot
            } else {
                NetworkRole::DeviceAsClient
            },
            weight_bp: if is_hotspot_ip {
                8000
            } else {
                3000
            },
            source: owned(source),
        }
    }
}

/// Overlaps longer than this many whole seconds are warnings.
pub const OVERLAP_WARNING_SECS: i128 = 300;

/// Gaps longer than this many hours are anomalies.
pub const EXTENDED_GAP_HOURS: i128 = 24;

/// Sessions shorter than this many whole seconds may be spurious.
pub const MICRO_SESSION_MAX_SECS: i128 = 10;

/// The recommendation for a temporal order violation.
pub const TEMPORAL_ORDER_ADVICE: &'static str = "Verify the acquisition timestamps and check for clock manipulation on the device.";

/// The recommendation for a simultaneous connection.
pub const OVERLAP_ADVICE: &'static str = "Check if one network was a hotspot and the other a client connection, which is a valid dual-mode scenario. Otherwise, investigate log timing artifacts.";

/// The recommendation for an extended activity gap.
pub const GAP_ADVICE: &'static str = "The device may have been powered off, in airplane mode, using cellular data only, or evidence may have been deleted.";

/// The recommendation for a low-confidence event.
pub const LOW_CONFIDENCE_ADVICE: &'static str = "Consider whether this event should be included in the forensic report or flagged as unverified.";

/// The recommendation for a micro-session.
pub const MICRO_SESSION_ADVICE: &'static str = "Review whether this represents a genuine connection or a transient association attempt.";

/// A unique anomaly identifier (a UUID value).
#[derive(Debug, Clone, Copy, PartialEq, Eq, Hash, Structural)]
pub struct AnomalyId(pub u128);

impl AnomalyId {
    /// A fresh random (version 4) identifier.
    pub fn new() -> (id: AnomalyId)
        ensures
            is_v4_uuid(id.0),
    {
        AnomalyId(random_uuid())
    }
}

/// What an anomaly is about, by position in the timeline.
#[derive(Debug, Clone, Copy, PartialEq, Eq, Structural)]
pub enum AnomalySubject {
    /// Events `first` and `second` (positions in the session's event list)
    /// of session `session`.
    EventPair { session: usize, first: usize, second: usize },
    /// An overlap, by position.
    Overlap(usize),
    /// A gap, by position.
    Gap(usize),
    /// Event `position` of session `session`.
    Event { session: usize, position: usize },
    /// A session, by position.
    Session(usize),
}

/// A detected anomaly. Its description, which quotes instants and
/// confidences, is rendered by the caller from the subject.
#[derive(Debug)]
pub struct Anomaly {
    /// Unique identifier.
    pub id: AnomalyId,
    /// Category.
    pub category: AnomalyCategory,
    /// Severity.
    pub severity: AnomalySeverity,
    /// What it is about.
    pub subject: AnomalySubject,
    /// The recommendation for the examiner.
    pub recommendation: String,
    /// When it was detected, in milliseconds since the epoch.
    pub detected_at_ms: i64,
}

/// What an anomaly says, for specifications.
pub struct AnomalyModel {
    pub category: AnomalyCategory,
    pub severity: AnomalySeverity,
    pub subject: AnomalySubject,
    pub recommendation: Seq<char>,
}

impl Anomaly {
    /// The anomaly without its identifier and instant.
    pub open spec fn model(&self) -> AnomalyModel {
        AnomalyModel {
            category: self.category,
            severity: self.severity,
            subject: self.subject,
            recommendation: self.recommendation@,
        }
    }
}

/// The models of a sequence of anomalies.
pub open spec fn anomaly_models(s: Seq<Anomaly>) -> Seq<AnomalyModel> {
    s.map_values(|a: Anomaly| a.model())
}

/// The anomaly report of a timeline.
#[derive(Debug)]
pub struct AnomalyReport {
    /// The anomalies, check by check.
    pub anomalies: Vec<Anomaly>,
    /// The number of critical anomalies.
    pub critical_count: usize,
    /// The number of warnings.
    pub warning_count: usize,
    /// The number of informational anomalies.
    pub info_count: usize,
    /// When the report was generated, in milliseconds since the epoch.
    pub generated_at_ms: i64,
}

/// An anomaly model.
pub open spec fn finding(
    category: AnomalyCategory,
    severity: AnomalySeverity,
    subject: AnomalySubject,
    recommendation: Seq<char>,
) -> AnomalyModel {
    AnomalyModel { category, severity, subject, recommendation }
}

/// The temporal order violations among the first `p` events of session `s`.
pub open spec fn order_row(ss: Seq<TimelineSession>, es: Seq<TimedEvent>, s: int, p: int) -> Seq<
    AnomalyModel,
>
    decreases p,
{
    if p <= 1 {
        Seq::empty()
    } else {
        let r = order_row(ss, es, s, p - 1);
        let m = ss[s].event_indices@;
        if es[m[p - 2] as int].timestamp_ns > es[m[p - 1] as int].timestamp_ns {
            r.push(
                finding(
                    AnomalyCategory::TemporalOrderViolation,
                    AnomalySeverity::Critical,
                    AnomalySubject::EventPair {
                        session: s as usize,
                        first: (p - 2) as usize,
                        second: (p - 1) as usize,
                    },
                    TEMPORAL_ORDER_ADVICE@,
                ),
            )
        } else {
            r
        }
    }
}

/// The temporal order violations in the first `s` sessions.
pub open spec fn order_findings(ss: Seq<TimelineSession>, es: Seq<TimedEvent>, s: int) -> Seq<
    AnomalyModel,
>
    decreases s,
{
    if s <= 0 {
        Seq::empty()
    } else {
        order_findings(ss, es, s - 1) + order_row(
            ss,
            es,
            s - 1,
            ss[s - 1].event_indices@.len() as int,
        )
    }
}

/// The severity of an overlap of `secs` whole seconds.
pub open spec fn overlap_severity(secs: int) -> AnomalySeverity {
    if secs > OVERLAP_WARNING_SECS {
        AnomalySeverity::Warning
    } else {
        AnomalySeverity::Info
    }
}

/// The findings for the first `k` overlaps: each is a simultaneous
/// connection.
pub open spec fn overlap_findings(os: Seq<TimelineOverlap>, k: int) -> Seq<AnomalyModel>
    decreases k,
{
    if k <= 0 {
        Seq::empty()
    } else {
        overlap_findings(os, k - 1).push(
            finding(
                AnomalyCategory::SimultaneousConnection,
                overlap_severity(whole_seconds(os[k - 1].overlap_end_ns - os[k - 1].overlap_start_ns)),
                AnomalySubject::Overlap((k - 1) as usize),
                OVERLAP_ADVICE@,
            ),
        )
    }
}

/// The findings for the first `k` gaps: those longer than a day.
pub open spec fn gap_findings(gs: Seq<TimelineGap>, k: int) -> Seq<AnomalyModel>
    decreases k,
{
    if k <= 0 {
        Seq::empty()
    } else {
        let r = gap_findings(gs, k - 1);
        if gs[k - 1].duration_ns > EXTENDED_GAP_HOURS * 3600 * NANOS_PER_SEC {
            r.push(
                finding(
                    AnomalyCategory::ExtendedActivityGap,
                    AnomalySeverity::Warning,
                    AnomalySubject::Gap((k - 1) as usize),
                    GAP_ADVICE@,
                ),
            )
        } else {
            r
        }
    }
}

/// The low-confidence events among the first `p` events of session `s`.
pub open spec fn low_row(ss: Seq<TimelineSession>, low: Seq<bool>, s: int, p: int) -> Seq<AnomalyModel>
    decreases p,
{
    if p <= 0 {
        Seq::empty()
    } else {
        let r = low_row(ss, low, s, p - 1);
        if low[ss[s].event_indices@[p - 1] as int] {
            r.push(
                finding(
                    AnomalyCategory::LowConfidenceEvent,
                    AnomalySeverity::Info,
                    AnomalySubject::Event { session: s as usize, position: (p - 1) as usize },
                    LOW_CONFIDENCE_ADVICE@,
                ),
            )
        } else {
            r
        }
    }
}

/// The low-confidence events in the first `s` sessions.
pub open spec fn low_findings(ss: Seq<TimelineSession>, low: Seq<bool>, s: int) -> Seq<AnomalyModel>
    decreases s,
{
    if s <= 0 {
        Seq::empty()
    } else {
        low_findings(ss, low, s - 1) + low_row(ss, low, s - 1, ss[s - 1].event_indices@.len() as int)
    }
}

/// Session `x` is a micro-session: it lasts between one and nine whole
/// seconds and has at most one event.
pub open spec fn is_micro_session(x: TimelineSession) -> bool {
    &&& whole_seconds(x.duration_ns as int) > 0
    &&& whole_seconds(x.duration_ns as int) < MICRO_SESSION_MAX_SECS
    &&& x.event_indices@.len() <= 1
}

/// The micro-sessions among the first `s` sessions.
pub open spec fn micro_findings(ss: Seq<TimelineSession>, s: int) -> Seq<AnomalyModel>
    decreases s,
{
    if s <= 0 {
        Seq::empty()
    } else {
        let r = micro_findings(ss, s - 1);
        if is_micro_session(ss[s - 1]) {
            r.push(
                finding(
                    AnomalyCategory::MicroSession,
                    AnomalySeverity::Info,
                    AnomalySubject::Session((s - 1) as usize),
                    MICRO_SESSION_ADVICE@,
                ),
            )
        } else {
            r
        }
    }
}

/// Every finding of the analysis of `t`, check by check.
pub open spec fn all_findings(t: Timeline, es: Seq<TimedEvent>, low: Seq<bool>) -> Seq<AnomalyModel> {
    order_findings(t.sessions@, es, t.sessions@.len() as int) + overlap_findings(
        t.overlaps@,
        t.overlaps@.len() as int,
    ) + gap_findings(t.gaps@, t.gaps@.len() as int) + low_findings(
        t.sessions@,
        low,
        t.sessions@.len() as int,
    ) + micro_findings(t.sessions@, t.sessions@.len() as int)
}

/// The number of findings of severity `sev` in `s`.
pub open spec fn count_severity(s: Seq<AnomalyModel>, sev: AnomalySeverity) -> int
    decreases s.len(),
{
    if s.len() == 0 {
        0
    } else {
        count_severity(s.drop_last(), sev) + (if s.last().severity == sev {
            1int
        } else {
            0int
        })
    }
}

/// The timeline can be analysed against `es` and `low`: every event
/// position of a session names an event and a confidence flag, and every
/// instant is in range.
pub open spec fn analysable(t: Timeline, es: Seq<TimedEvent>, low: Seq<bool>) -> bool {
    &&& forall|i: int, j: int|
        0 <= i < t.sessions@.len() && 0 <= j < t.sessions@[i].event_indices@.len() ==> {
            let m = #[trigger] t.sessions@[i].event_indices@[j];
            &&& m < es.len()
            &&& m < low.len()
        }
    &&& forall|k: int| 0 <= k < es.len() ==> in_time_range(#[trigger] es[k].timestamp_ns as int)
    &&& forall|i: int| 0 <= i < t.sessions@.len() ==> (#[trigger] t.sessions@[i]).well_formed()
    &&& forall|k: int|
        0 <= k < t.overlaps@.len() ==> in_time_range(
            (#[trigger] t.overlaps@[k]).overlap_start_ns as int,
        ) && in_time_range(t.overlaps@[k].overlap_end_ns as int)
}

/// The timeline anomaly analyser. It holds no state.
#[derive(Debug, Clone, Copy)]
pub struct AnomalyDetector;

impl AnomalyDetector {
    /// Runs every check on timeline `t`, whose sessions refer to `events`;
    /// `low_confidence[k]` says whether event `k` has low confidence. The
    /// checks run in this order: temporal order within sessions, overlaps,
    /// gaps, low-confidence events, micro-sessions.
    pub fn analyze(t: &Timeline, events: &Vec<TimedEvent>, low_confidence: &Vec<bool>) -> (r:
        AnomalyReport)
        requires
            analysable(*t, events@, low_confidence@),
        ensures
            anomaly_models(r.anomalies@) == all_findings(*t, events@, low_confidence@),
            r.critical_count == count_severity(
                anomaly_models(r.anomalies@),
                AnomalySeverity::Critical,
            ),
            r.warning_count == count_severity(
                anomaly_models(r.anomalies@),
                AnomalySeverity::Warning,
            ),
            r.info_count == count_severity(anomaly_models(r.anomalies@), AnomalySeverity::Info),
            forall|s: int, p: int|
                0 <= s < t.sessions@.len() && 0 <= p < t.sessions@[s].event_indices@.len() ==> (
                flags_event(anomaly_models(r.anomalies@), s, p)
                    <==> #[trigger] low_confidence@[t.sessions@[s].event_indices@[p] as int]),
            forall|k: int|
                0 <= k < r.anomalies@.len() ==> names_low_event(
                    t.sessions@,
                    low_confidence@,
                    #[trigger] anomaly_models(r.anomalies@)[k],
                ),
    {
        proof {
            law_low_confidence_follows_event_flag(*t, events@, low_confidence@);
        }
        let mut anomalies: Vec<Anomaly> = Vec::new();
        Self::check_temporal_order(&t.sessions, events, &mut anomalies);
        let ghost a1 = anomaly_models(anomalies@);
        Self::check_overlaps(&t.overlaps, &mut anomalies);
        let ghost a2 = anomaly_models(anomalies@);
        Self::check_gaps(&t.gaps, &mut anomalies);
        let ghost a3 = anomaly_models(anomalies@);
        Self::check_low_confidence_events(&t.sessions, low_confidence, &mut anomalies);
        Self::check_micro_sessions(&t.sessions, &mut anomalies);
        proof {
            assert(anomaly_models(Seq::<Anomaly>::empty()) =~= Seq::<AnomalyModel>::empty());
            assert(Seq::<AnomalyModel>::empty() + order_findings(
                t.sessions@,
                events@,
                t.sessions@.len() as int,
            ) =~= order_findings(t.sessions@, events@, t.sessions@.len() as int));
        }
        let critical_count = count_of(&anomalies, AnomalySeverity::Critical);
        let warning_count = count_of(&anomalies, AnomalySeverity::Warning);
        let info_count = count_of(&anomalies, AnomalySeverity::Info);
        proof {
            let all = all_findings(*t, events@, low_confidence@);
            assert forall|k: int| 0 <= k < anomalies@.len() implies names_low_event(
                t.sessions@,
                low_confidence@,
                #[trigger] anomaly_models(anomalies@)[k],
            ) by {
                assert(anomaly_models(anomalies@)[k] == all[k]);
            }
        }
        AnomalyReport {
            anomalies,
            critical_count,
            warning_count,
            info_count,
            generated_at_ms: utc_now_millis(),
        }
    }

    /// Appends a critical anomaly for every pair of consecutive events of a
    /// session whose instants go backwards.
    pub fn check_temporal_order(
        sessions: &Vec<TimelineSession>,
        events: &Vec<TimedEvent>,
        anomalies: &mut Vec<Anomaly>,
    )
        requires
            forall|i: int, j: int|
                0 <= i < sessions@.len() && 0 <= j < sessions@[i].event_indices@.len()
                    ==> #[trigger] sessions@[i].event_indices@[j] < events@.len(),
        ensures
            anomaly_models(final(anomalies)@) == anomaly_models(old(anomalies)@) + order_findings(
                sessions@,
                events@,
                sessions@.len() as int,
            ),
    {
        let ghost start = anomaly_models(anomalies@);
        let mut s: usize = 0;
        while s < sessions.len()
            invariant
                s <= sessions@.len(),
                forall|i: int, j: int|
                    0 <= i < sessions@.len() && 0 <= j < sessions@[i].event_indices@.len()
                        ==> #[trigger] sessions@[i].event_indices@[j] < events@.len(),
                start == anomaly_models(old(anomalies)@),
                anomaly_models(anomalies@) == start + order_findings(sessions@, events@, s as int),
            decreases sessions@.len() - s,
        {
            let session = &sessions[s];
            let ghost row_start = anomaly_models(anomalies@);
            let n = session.event_indices.len();
            let mut p: usize = 1;
            while p < n
                invariant
                    s < sessions@.len(),
                    *session == sessions@[s as int],
                    n == session.event_indices@.len(),
                    1 <= p,
                    p <= n || (n == 0 && p == 1),
                    row_start == start + order_findings(sessions@, events@, s as int),
                    forall|i: int, j: int|
                        0 <= i < sessions@.len() && 0 <= j < sessions@[i].event_indices@.len()
                            ==> #[trigger] sessions@[i].event_indices@[j] < events@.len(),
                    anomaly_models(anomalies@) == row_start + order_row(
                        sessions@,
                        events@,
                        s as int,
                        p as int,
                    ),
                decreases n - p,
            {
                let ia = session.event_indices[p - 1];
                let ib = session.event_indices[p];
                assert(sessions@[s as int].event_indices@[p - 1] < events@.len());
                assert(sessions@[s as int].event_indices@[p as int] < events@.len());
                let ghost before = anomaly_models(anomalies@);
                if events[ia].timestamp_ns > events[ib].timestamp_ns {
                    let a = Anomaly {
                        id: AnomalyId::new(),
                        category: AnomalyCategory::TemporalOrderViolation,
                        severity: AnomalySeverity::Critical,
                        subject: AnomalySubject::EventPair { session: s, first: p - 1, second: p },
                        recommendation: owned(TEMPORAL_ORDER_ADVICE),
                        detected_at_ms: utc_now_millis(),
                    };
                    anomalies.push(a);
                    proof {
                        assert(anomaly_models(anomalies@) =~= before.push(a.model()));
                        let r = order_row(sessions@, events@, s as int, p as int);
                        assert((row_start + r).push(a.model()) =~= row_start + r.push(a.model()));
                    }
                }
                p = p + 1;
            }
            proof {
                if n == 0 {
                    assert(order_row(sessions@, events@, s as int, 1) =~= Seq::<AnomalyModel>::empty());
                    assert(order_row(sessions@, events@, s as int, 0) =~= Seq::<AnomalyModel>::empty());
                }
                assert(anomaly_models(anomalies@) == row_start + order_row(
                    sessions@,
                    events@,
                    s as int,
                    n as int,
                ));
                assert(order_findings(sessions@, events@, s as int + 1) == order_findings(
                    sessions@,
                    events@,
                    s as int,
                ) + order_row(sessions@, events@, s as int, n as int));
                assert(start + order_findings(sessions@, events@, s as int + 1) =~= (start
                    + order_findings(sessions@, events@, s as int)) + order_row(
                    sessions@,
                    events@,
                    s as int,
                    n as int,
                ));
            }
            s = s + 1;
        }
    }

    /// Appends an anomaly for every overlap: a warning when it lasts more
    /// than five minutes, else informational.
    pub fn check_overlaps(overlaps: &Vec<TimelineOverlap>, anomalies: &mut Vec<Anomaly>)
        requires
            forall|k: int|
                0 <= k < overlaps@.len() ==> in_time_range(
                    (#[trigger] overlaps@[k]).overlap_start_ns as int,
                ) && in_time_range(overlaps@[k].overlap_end_ns as int),
        ensures
            anomaly_models(final(anomalies)@) == anomaly_models(old(anomalies)@) + overlap_findings(
                overlaps@,
                overlaps@.len() as int,
            ),
    {
        let ghost start = anomaly_models(anomalies@);
        let mut k: usize = 0;
        while k < overlaps.len()
            invariant
                k <= overlaps@.len(),
                forall|q: int|
                    0 <= q < overlaps@.len() ==> in_time_range(
                        (#[trigger] overlaps@[q]).overlap_start_ns as int,
                    ) && in_time_range(overlaps@[q].overlap_end_ns as int),
                start == anomaly_models(old(anomalies)@),
                anomaly_models(anomalies@) == start + overlap_findings(overlaps@, k as int),
            decreases overlaps@.len() - k,
        {
            let o = &overlaps[k];
            assert(in_time_range(overlaps@[k as int].overlap_start_ns as int));
            let d = o.overlap_end_ns - o.overlap_start_ns;
            let secs = if d >= 0 {
                d / NANOS_PER_SEC
            } else {
                0 - ((0 - d) / NANOS_PER_SEC)
            };
            let severity = if secs > OVERLAP_WARNING_SECS {
                AnomalySeverity::Warning
            } else {
                AnomalySeverity::Info
            };
            let ghost before = anomaly_models(anomalies@);
            let a = Anomaly {
                id: AnomalyId::new(),
                category: AnomalyCategory::SimultaneousConnection,
                severity,
                subject: AnomalySubject::Overlap(k),
                recommendation: owned(OVERLAP_ADVICE),
                detected_at_ms: utc_now_millis(),
            };
            anomalies.push(a);
            proof {
                assert(anomaly_models(anomalies@) =~= before.push(a.model()));
                let r = overlap_findings(overlaps@, k as int);
                assert((start + r).push(a.model()) =~= start + r.push(a.model()));
            }
            k = k + 1;
        }
    }

    /// Appends a warning for every gap longer than a day.
    pub fn check_gaps(gaps: &Vec<TimelineGap>, anomalies: &mut Vec<Anomaly>)
        ensures
            anomaly_models(final(anomalies)@) == anomaly_models(old(anomalies)@) + gap_findings(
                gaps@,
                gaps@.len() as int,
            ),
    {
        let ghost start = anomaly_models(anomalies@);
        let mut k: usize = 0;
        while k < gaps.len()
            invariant
                k <= gaps@.len(),
                start == anomaly_models(old(anomalies)@),
                anomaly_models(anomalies@) == start + gap_findings(gaps@, k as int),
            decreases gaps@.len() - k,
        {
            let ghost before = anomaly_models(anomalies@);
            if gaps[k].duration_ns > EXTENDED_GAP_HOURS * 3600 * NANOS_PER_SEC {
                let a = Anomaly {
                    id: AnomalyId::new(),
                    category: AnomalyCategory::ExtendedActivityGap,
                    severity: AnomalySeverity::Warning,
                    subject: AnomalySubject::Gap(k),
                    recommendation: owned(GAP_ADVICE),
                    detected_at_ms: utc_now_millis(),
                };
                anomalies.push(a);
                proof {
                    assert(anomaly_models(anomalies@) =~= before.push(a.model()));
                    let r = gap_findings(gaps@, k as int);
                    assert((start + r).push(a.model()) =~= start + r.push(a.model()));
                }
            }
            k = k + 1;
        }
    }

    /// Appends an informational anomaly for every event flagged as of low
    /// confidence, session by session.
    pub fn check_low_confidence_events(
        sessions: &Vec<TimelineSession>,
        low_confidence: &Vec<bool>,
        anomalies: &mut Vec<Anomaly>,
    )
        requires
            forall|i: int, j: int|
                0 <= i < sessions@.len() && 0 <= j < sessions@[i].event_indices@.len()
                    ==> #[trigger] sessions@[i].event_indices@[j] < low_confidence@.len(),
        ensures
            anomaly_models(final(anomalies)@) == anomaly_models(old(anomalies)@) + low_findings(
                sessions@,
                low_confidence@,
                sessions@.len() as int,
            ),
    {
        let ghost start = anomaly_models(anomalies@);
        let mut s: usize = 0;
        while s < sessions.len()
            invariant
                s <= sessions@.len(),
                forall|i: int, j: int|
                    0 <= i < sessions@.len() && 0 <= j < sessions@[i].event_indices@.len()
                        ==> #[trigger] sessions@[i].event_indices@[j] < low_confidence@.len(),
                start == anomaly_models(old(anomalies)@),
                anomaly_models(anomalies@) == start + low_findings(
                    sessions@,
                    low_confidence@,
                    s as int,
                ),
            decreases sessions@.len() - s,
        {
            let session = &sessions[s];
            let ghost row_start = anomaly_models(anomalies@);
            let n = session.event_indices.len();
            let mut p: usize = 0;
            while p < n
                invariant
                    s < sessions@.len(),
                    *session == sessions@[s as int],
                    n == session.event_indices@.len(),
                    p <= n,
                    forall|i: int, j: int|
                        0 <= i < sessions@.len() && 0 <= j < sessions@[i].event_indices@.len()
                            ==> #[trigger] sessions@[i].event_indices@[j] < low_confidence@.len(),
                    anomaly_models(anomalies@) == row_start + low_row(
                        sessions@,
                        low_confidence@,
                        s as int,
                        p as int,
                    ),
                decreases n - p,
            {
                let idx = session.event_indices[p];
                assert(sessions@[s as int].event_indices@[p as int] < low_confidence@.len());
                let ghost before = anomaly_models(anomalies@);
                if low_confidence[idx] {
                    let a = Anomaly {
                        id: AnomalyId::new(),
                        category: AnomalyCategory::LowConfidenceEvent,
                        severity: AnomalySeverity::Info,
                        subject: AnomalySubject::Event { session: s, position: p },
                        recommendation: owned(LOW_CONFIDENCE_ADVICE),
                        detected_at_ms: utc_now_millis(),
                    };
                    anomalies.push(a);
                    proof {
                        assert(anomaly_models(anomalies@) =~= before.push(a.model()));
                        let r = low_row(sessions@, low_confidence@, s as int, p as int);
                        assert((row_start + r).push(a.model()) =~= row_start + r.push(a.model()));
                    }
                }
                p = p + 1;
            }
            proof {
                assert(start + low_findings(sessions@, low_confidence@, s as int + 1) =~= (start
                    + low_findings(sessions@, low_confidence@, s as int)) + low_row(
                    sessions@,
                    low_confidence@,
                    s as int,
                    n as int,
                ));
            }
            s = s + 1;
        }
    }

    /// Appends an informational anomaly for every micro-session.
    pub fn check_micro_sessions(sessions: &Vec<TimelineSession>, anomalies: &mut Vec<Anomaly>)
        requires
            forall|i: int| 0 <= i < sessions@.len() ==> (#[trigger] sessions@[i]).well_formed(),
        ensures
            anomaly_models(final(anomalies)@) == anomaly_models(old(anomalies)@) + micro_findings(
                sessions@,
                sessions@.len() as int,
            ),
    {
        let ghost start = anomaly_models(anomalies@);
        let mut k: usize = 0;
        while k < sessions.len()
            invariant
                k <= sessions@.len(),
                forall|i: int| 0 <= i < sessions@.len() ==> (#[trigger] sessions@[i]).well_formed(),
                start == anomaly_models(old(anomalies)@),
                anomaly_models(anomalies@) == start + micro_findings(sessions@, k as int),
            decreases sessions@.len() - k,
        {
            let session = &sessions[k];
            assert(sessions@[k as int].well_formed());
            let d = session.duration_ns;
            let secs = if d >= 0 {
                d / NANOS_PER_SEC
            } else {
                0 - ((0 - d) / NANOS_PER_SEC)
            };
            let ghost before = anomaly_models(anomalies@);
            if secs > 0 && secs < MICRO_SESSION_MAX_SECS && session.event_indices.len() <= 1 {
                let a = Anomaly {
                    id: AnomalyId::new(),
                    category: AnomalyCategory::MicroSession,
                    severity: AnomalySeverity::Info,
                    subject: AnomalySubject::Session(k),
                    recommendation: owned(MICRO_SESSION_ADVICE),
                    detected_at_ms: utc_now_millis(),
                };
                anomalies.push(a);
                proof {
                    assert(anomaly_models(anomalies@) =~= before.push(a.model()));
                    let r = micro_findings(sessions@, k as int);
                    assert((start + r).push(a.model()) =~= start + r.push(a.model()));
                }
            }
            k = k + 1;
        }
    }
}

/// The number of anomalies of severity `sev`.
fn count_of(anomalies: &Vec<Anomaly>, sev: AnomalySeverity) -> (n: usize)
    ensures
        n == count_severity(anomaly_models(anomalies@), sev),
{
    let mut n: usize = 0;
    let mut k: usize = 0;
    while k < anomalies.len()
        invariant
            k <= anomalies@.len(),
            n == count_severity(anomaly_models(anomalies@.subrange(0, k as int)), sev),
            n <= k,
        decreases anomalies@.len() - k,
    {
        proof {
            assert(anomaly_models(anomalies@.subrange(0, k as int + 1)).drop_last()
                =~= anomaly_models(anomalies@.subrange(0, k as int)));
        }
        if anomalies[k].severity == sev {
            n = n + 1;
        }
        k = k + 1;
    }
    proof {
        assert(anomalies@.subrange(0, k as int) =~= anomalies@);
    }
    n
}

/// The three severity counts of a report add up to its number of
/// anomalies.
pub proof fn law_severity_counts_sum(s: Seq<AnomalyModel>)
    ensures
        count_severity(s, AnomalySeverity::Critical) + count_severity(s, AnomalySeverity::Warning)
            + count_severity(s, AnomalySeverity::Info) == s.len(),
    decreases s.len(),
{
    if s.len() > 0 {
        law_severity_counts_sum(s.drop_last());
    }
}

/// No finding of `os` is a low-confidence event.
pub open spec fn no_low_events(os: Seq<AnomalyModel>) -> bool {
    forall|k: int| 0 <= k < os.len() ==> (#[trigger] os[k]).category != AnomalyCategory::LowConfidenceEvent
}

/// `os` flags event `p` of session `s` as of low confidence.
pub open spec fn flags_event(os: Seq<AnomalyModel>, s: int, p: int) -> bool {
    exists|k: int|
        0 <= k < os.len() && (#[trigger] os[k]).category == AnomalyCategory::LowConfidenceEvent
            && os[k].subject == AnomalySubject::Event { session: s as usize, position: p as usize }
}

/// A low-confidence finding `o` names an event of a session of `ss` whose
/// own event carries the low-confidence flag.
pub open spec fn names_low_event(ss: Seq<TimelineSession>, low: Seq<bool>, o: AnomalyModel) -> bool {
    o.category == AnomalyCategory::LowConfidenceEvent ==> exists|s: int, p: int|
        0 <= s < ss.len() && 0 <= p < ss[s].event_indices@.len() && o.subject
            == (AnomalySubject::Event { session: s as usize, position: p as usize }) && #[trigger] low[ss[s].event_indices@[p] as int]
}

proof fn lemma_order_row_no_low(ss: Seq<TimelineSession>, es: Seq<TimedEvent>, s: int, p: int)
    ensures
        no_low_events(order_row(ss, es, s, p)),
    decreases p,
{
    if p > 1 {
        lemma_order_row_no_low(ss, es, s, p - 1);
    }
}

proof fn lemma_order_no_low(ss: Seq<TimelineSession>, es: Seq<TimedEvent>, m: int)
    ensures
        no_low_events(order_findings(ss, es, m)),
    decreases m,
{
    if m > 0 {
        lemma_order_no_low(ss, es, m - 1);
        lemma_order_row_no_low(ss, es, m - 1, ss[m - 1].event_indices@.len() as int);
        let a = order_findings(ss, es, m - 1);
        let b = order_row(ss, es, m - 1, ss[m - 1].event_indices@.len() as int);
        assert forall|k: int| 0 <= k < (a + b).len() implies (#[trigger] (a + b)[k]).category
            != AnomalyCategory::LowConfidenceEvent by {
            if k < a.len() {
                assert((a + b)[k] == a[k]);
            } else {
                assert((a + b)[k] == b[k - a.len()]);
            }
        }
    }
}

proof fn lemma_overlap_no_low(os: Seq<TimelineOverlap>, k: int)
    ensures
        no_low_events(overlap_findings(os, k)),
    decreases k,
{
    if k > 0 {
        lemma_overlap_no_low(os, k - 1);
    }
}

proof fn lemma_gap_no_low(gs: Seq<TimelineGap>, k: int)
    ensures
        no_low_events(gap_findings(gs, k)),
    decreases k,
{
    if k > 0 {
        lemma_gap_no_low(gs, k - 1);
    }
}

proof fn lemma_micro_no_low(ss: Seq<TimelineSession>, k: int)
    ensures
        no_low_events(micro_findings(ss, k)),
    decreases k,
{
    if k > 0 {
        lemma_micro_no_low(ss, k - 1);
    }
}

proof fn lemma_low_row(ss: Seq<TimelineSession>, low: Seq<bool>, s: int, p: int)
    requires
        0 <= s < ss.len(),
        0 <= p <= ss[s].event_indices@.len(),
        ss.len() <= usize::MAX,
        ss[s].event_indices@.len() <= usize::MAX,
    ensures
        forall|q: int|
            0 <= q < p ==> (flags_event(low_row(ss, low, s, p), s, q) <==> #[trigger] low[ss[s].event_indices@[q] as int]),
        forall|k: int|
            0 <= k < low_row(ss, low, s, p).len() ==> (#[trigger] low_row(ss, low, s, p)[k]).category
                == AnomalyCategory::LowConfidenceEvent && exists|q: int|
                0 <= q < p && low_row(ss, low, s, p)[k].subject == (AnomalySubject::Event {
                    session: s as usize,
                    position: q as usize,
                }) && #[trigger] low[ss[s].event_indices@[q] as int],
    decreases p,
{
    if p > 0 {
        lemma_low_row(ss, low, s, p - 1);
        let r = low_row(ss, low, s, p - 1);
        let all = low_row(ss, low, s, p);
        let m = ss[s].event_indices@;
        assert forall|k: int| 0 <= k < all.len() implies (#[trigger] all[k]).category
            == AnomalyCategory::LowConfidenceEvent && exists|q: int|
            0 <= q < p && all[k].subject == AnomalySubject::Event {
                session: s as usize,
                position: q as usize,
            } && #[trigger] low[m[q] as int] by {
            if k < r.len() {
                assert(all[k] == r[k]);
            } else {
                assert(low[m[p - 1] as int]);
            }
        }
        assert forall|q: int| 0 <= q < p implies (flags_event(all, s, q) <==> #[trigger] low[m[q] as int]) by {
            if flags_event(all, s, q) {
                let k = choose|k: int|
                    0 <= k < all.len() && (#[trigger] all[k]).category == AnomalyCategory::LowConfidenceEvent
                        && all[k].subject == AnomalySubject::Event { session: s as usize, position: q as usize };
                let q2 = choose|q2: int|
                    0 <= q2 < p && all[k].subject == AnomalySubject::Event {
                        session: s as usize,
                        position: q2 as usize,
                    } && #[trigger] low[m[q2] as int];
                assert(q2 as usize == q as usize);
                assert(q2 == q);
            }
            if low[m[q] as int] {
                if q < p - 1 {
                    assert(flags_event(r, s, q));
                    let k = choose|k: int|
                        0 <= k < r.len() && (#[trigger] r[k]).category == AnomalyCategory::LowConfidenceEvent
                            && r[k].subject == AnomalySubject::Event { session: s as usize, position: q as usize };
                    if low[m[p - 1] as int] {
                        assert(all[k] == r[k]);
                    }
                    assert(all[k] == r[k]);
                } else {
                    assert(all[all.len() - 1].subject == AnomalySubject::Event {
                        session: s as usize,
                        position: q as usize,
                    });
                }
            }
        }
    }
}

proof fn lemma_low_findings(ss: Seq<TimelineSession>, low: Seq<bool>, m: int)
    requires
        0 <= m <= ss.len(),
        ss.len() <= usize::MAX,
        forall|i: int, j: int|
            0 <= i < ss.len() && 0 <= j < ss[i].event_indices@.len() ==> #[trigger] ss[i].event_indices@[j]
                < low.len(),
        forall|i: int| 0 <= i < ss.len() ==> (#[trigger] ss[i]).event_indices@.len() <= usize::MAX,
    ensures
        forall|s: int, p: int|
            0 <= s < m && 0 <= p < ss[s].event_indices@.len() ==> (flags_event(low_findings(ss, low, m), s, p)
                <==> #[trigger] low[ss[s].event_indices@[p] as int]),
        forall|k: int|
            0 <= k < low_findings(ss, low, m).len() ==> (#[trigger] low_findings(ss, low, m)[k]).category
                == AnomalyCategory::LowConfidenceEvent && exists|s: int, p: int|
                0 <= s < m && 0 <= p < ss[s].event_indices@.len() && low_findings(ss, low, m)[k].subject
                    == (AnomalySubject::Event { session: s as usize, position: p as usize })
                    && #[trigger] low[ss[s].event_indices@[p] as int],
    decreases m,
{
    if m > 0 {
        lemma_low_findings(ss, low, m - 1);
        let len = ss[m - 1].event_indices@.len() as int;
        lemma_low_row(ss, low, m - 1, len);
        let pre = low_findings(ss, low, m - 1);
        let r = low_row(ss, low, m - 1, len);
        let all = low_findings(ss, low, m);
        assert(all == pre + r);
        assert forall|k: int| 0 <= k < all.len() implies (#[trigger] all[k]).category
            == AnomalyCategory::LowConfidenceEvent && exists|s: int, p: int|
            0 <= s < m && 0 <= p < ss[s].event_indices@.len() && all[k].subject == (AnomalySubject::Event {
                session: s as usize,
                position: p as usize,
            }) && #[trigger] low[ss[s].event_indices@[p] as int] by {
            if k < pre.len() {
                assert(all[k] == pre[k]);
            } else {
                assert(all[k] == r[k - pre.len()]);
                let q = choose|q: int|
                    0 <= q < len && r[k - pre.len()].subject == (AnomalySubject::Event {
                        session: (m - 1) as usize,
                        position: q as usize,
                    }) && #[trigger] low[ss[m - 1].event_indices@[q] as int];
                assert(low[ss[m - 1].event_indices@[q] as int]);
            }
        }
        assert forall|s: int, p: int| 0 <= s < m && 0 <= p < ss[s].event_indices@.len() implies (flags_event(
            all,
            s,
            p,
        ) <==> #[trigger] low[ss[s].event_indices@[p] as int]) by {
            if flags_event(all, s, p) {
                let k = choose|k: int|
                    0 <= k < all.len() && (#[trigger] all[k]).category == AnomalyCategory::LowConfidenceEvent
                        && all[k].subject == (AnomalySubject::Event { session: s as usize, position: p as usize });
                if k < pre.len() {
                    assert(all[k] == pre[k]);
                    let (s2, p2) = choose|s2: int, p2: int|
                        0 <= s2 < m - 1 && 0 <= p2 < ss[s2].event_indices@.len() && pre[k].subject
                            == (AnomalySubject::Event { session: s2 as usize, position: p2 as usize })
                            && #[trigger] low[ss[s2].event_indices@[p2] as int];
                    assert(s2 == s && p2 == p);
                    assert(flags_event(pre, s, p));
                } else {
                    let kk = k - pre.len();
                    assert(all[k] == r[kk]);
                    let q = choose|q: int|
                        0 <= q < len && r[kk].subject == (AnomalySubject::Event {
                            session: (m - 1) as usize,
                            position: q as usize,
                        }) && #[trigger] low[ss[m - 1].event_indices@[q] as int];
                    assert(s == m - 1 && q == p);
                }
            }
            if low[ss[s].event_indices@[p] as int] {
                if s < m - 1 {
                    assert(flags_event(pre, s, p));
                    let k = choose|k: int|
                        0 <= k < pre.len() && (#[trigger] pre[k]).category == AnomalyCategory::LowConfidenceEvent
                            && pre[k].subject == (AnomalySubject::Event { session: s as usize, position: p as usize });
                    assert(all[k] == pre[k]);
                } else {
                    assert(flags_event(r, s, p));
                    let k = choose|k: int|
                        0 <= k < r.len() && (#[trigger] r[k]).category == AnomalyCategory::LowConfidenceEvent
                            && r[k].subject == (AnomalySubject::Event { session: s as usize, position: p as usize });
                    assert(all[pre.len() + k] == r[k]);
                }
            }
        }
    }
}

proof fn lemma_flags_concat(a: Seq<AnomalyModel>, l: Seq<AnomalyModel>, mi: Seq<AnomalyModel>)
    requires
        no_low_events(a),
        no_low_events(mi),
    ensures
        forall|s: int, p: int| #[trigger] flags_event(a + l + mi, s, p) <==> flags_event(l, s, p),
        forall|k: int|
            a.len() <= k < a.len() + l.len() ==> (a + l + mi)[k] == #[trigger] l[k - a.len()],
        forall|k: int|
            0 <= k < (a + l + mi).len() && (#[trigger] (a + l + mi)[k]).category
                == AnomalyCategory::LowConfidenceEvent ==> a.len() <= k < a.len() + l.len(),
{
    let all = a + l + mi;
    assert forall|k: int|
        0 <= k < all.len() && (#[trigger] all[k]).category == AnomalyCategory::LowConfidenceEvent implies a.len()
        <= k < a.len() + l.len() by {
        if k < a.len() {
            assert(all[k] == a[k]);
        } else if k >= a.len() + l.len() {
            assert(all[k] == mi[k - a.len() - l.len()]);
        }
    }
    assert forall|s: int, p: int| #[trigger] flags_event(all, s, p) <==> flags_event(l, s, p) by {
        if flags_event(all, s, p) {
            let k = choose|k: int|
                0 <= k < all.len() && (#[trigger] all[k]).category == AnomalyCategory::LowConfidenceEvent
                    && all[k].subject == (AnomalySubject::Event { session: s as usize, position: p as usize });
            assert(a.len() <= k < a.len() + l.len());
            assert(all[k] == l[k - a.len()]);
        }
        if flags_event(l, s, p) {
            let k = choose|k: int|
                0 <= k < l.len() && (#[trigger] l[k]).category == AnomalyCategory::LowConfidenceEvent
                    && l[k].subject == (AnomalySubject::Event { session: s as usize, position: p as usize });
            assert(all[a.len() + k] == l[k]);
        }
    }
}

/// Low-confidence detection looks each event up by its own index: in the
/// analysis of `t`, event `p` of session `s` is flagged as of low confidence
/// exactly when the flag of the event it names (`event_indices[p]`) is set,
/// and every low-confidence finding names such an event.
pub proof fn law_low_confidence_follows_event_flag(t: Timeline, es: Seq<TimedEvent>, low: Seq<bool>)
    requires
        analysable(t, es, low),
    ensures
        forall|s: int, p: int|
            0 <= s < t.sessions@.len() && 0 <= p < t.sessions@[s].event_indices@.len() ==> (
            flags_event(all_findings(t, es, low), s, p) <==> #[trigger] low[t.sessions@[s].event_indices@[p] as int]),
        forall|k: int|
            0 <= k < all_findings(t, es, low).len() ==> names_low_event(
                t.sessions@,
                low,
                #[trigger] all_findings(t, es, low)[k],
            ),
{
    let ss = t.sessions@;
    let n = ss.len() as int;
    assert(ss.len() <= usize::MAX) by {
        assert(t.sessions.len() == ss.len());
    }
    assert forall|i: int| 0 <= i < ss.len() implies (#[trigger] ss[i]).event_indices@.len() <= usize::MAX by {
        assert(ss[i].event_indices.len() == ss[i].event_indices@.len());
    }
    assert forall|i: int, j: int|
        0 <= i < ss.len() && 0 <= j < ss[i].event_indices@.len() implies #[trigger] ss[i].event_indices@[j]
        < low.len() by {
        let m = ss[i].event_indices@[j];
    }
    lemma_low_findings(ss, low, n);
    lemma_order_no_low(ss, es, n);
    lemma_overlap_no_low(t.overlaps@, t.overlaps@.len() as int);
    lemma_gap_no_low(t.gaps@, t.gaps@.len() as int);
    lemma_micro_no_low(ss, n);
    let o = order_findings(ss, es, n);
    let v = overlap_findings(t.overlaps@, t.overlaps@.len() as int);
    let g = gap_findings(t.gaps@, t.gaps@.len() as int);
    let a = o + v + g;
    let l = low_findings(ss, low, n);
    let mi = micro_findings(ss, n);
    assert(no_low_events(a)) by {
        assert forall|k: int| 0 <= k < a.len() implies (#[trigger] a[k]).category
            != AnomalyCategory::LowConfidenceEvent by {
            if k < o.len() {
                assert(a[k] == o[k]);
            } else if k < o.len() + v.len() {
                assert(a[k] == v[k - o.len()]);
            } else {
                assert(a[k] == g[k - o.len() - v.len()]);
            }
        }
    }
    lemma_flags_concat(a, l, mi);
    assert(all_findings(t, es, low) == a + l + mi);
}

} // verus!
