use oracle::correlate::{
    AnomalyCategory, AnomalyDetector, AnomalySeverity, AnomalySubject, ConnectionEventType,
    RoleClassifier,
};
use oracle::events::{EventEvidence, EventReconstructor};
use oracle::identity::{compute_confidence_bp, NetworkClaim, NetworkIdentityResolver};
use oracle::config::OracleConfig;
use oracle::pipeline::{ConflictKind, ForensicPipeline, NetworkFields, RecordFields};
use oracle::sort::sort_stable;
use oracle::timeline::{
    SessionId, TimedEvent, Timeline, TimelineBuilder, TimelineGap, TimelineOverlap,
    TimelineSession,
};
use oracle::types::{
    ArtifactId, ExaminerIdentity, InvestigationId, NetworkRole, RecordId, SecurityProtocol,
};

const SEC: i128 = 1_000_000_000;
const MIN: i128 = 60 * SEC;
const HOUR: i128 = 60 * MIN;
// 2024-01-01T00:00:00Z
const T0: i128 = 1_704_067_200 * SEC;

fn kev(kind: ConnectionEventType, net: u128, label: &str, ts: i128) -> TimedEvent {
    TimedEvent { event_type: kind, network_id: net, network_label: label.to_string(), timestamp_ns: ts }
}

fn ev(net: u128, label: &str, ts: i128) -> TimedEvent {
    kev(ConnectionEventType::Connected, net, label, ts)
}

fn empty_timeline() -> Timeline {
    Timeline {
        sessions: Vec::new(),
        gaps: Vec::new(),
        overlaps: Vec::new(),
        total_events: 0,
        earliest_ns: None,
        latest_ns: None,
        built_at_ms: 0,
    }
}

// ── timeline ────────────────────────────────────────────────────────────────

#[test]
fn test_empty_timeline() {
    let builder = TimelineBuilder::new();
    let timeline = builder.build(Vec::new());
    assert!(timeline.sessions.is_empty());
    assert_eq!(timeline.total_events, 0);
}

#[test]
fn test_single_session() {
    let builder = TimelineBuilder::new();
    let events = vec![
        kev(ConnectionEventType::Connected, 1, "Home", T0),
        kev(ConnectionEventType::DhcpLeaseAcquired, 1, "Home", T0 + 5 * SEC),
        kev(ConnectionEventType::Disconnected, 1, "Home", T0 + 10 * MIN),
    ];
    let timeline = builder.build(events);
    assert_eq!(timeline.sessions.len(), 1);
    assert_eq!(timeline.sessions[0].event_indices.len(), 3);
    assert_eq!(timeline.total_events, 3);
}

#[test]
fn test_two_sessions_with_gap() {
    let builder = TimelineBuilder::new();
    let events = vec![
        kev(ConnectionEventType::Connected, 1, "Home", T0),
        kev(ConnectionEventType::Disconnected, 1, "Home", T0 + 10 * MIN),
        kev(ConnectionEventType::Connected, 1, "Home", T0 + 2 * HOUR),
    ];
    let timeline = builder.build(events);
    assert_eq!(timeline.sessions.len(), 2);
    assert_eq!(timeline.gaps.len(), 1, "should detect the 2-hour gap");
}

#[test]
fn test_disconnection_ends_session_within_timeout() {
    let builder = TimelineBuilder::new();
    let events = vec![
        kev(ConnectionEventType::Connected, 1, "Home", T0),
        kev(ConnectionEventType::Disconnected, 1, "Home", T0 + 10 * MIN),
        kev(ConnectionEventType::Connected, 1, "Home", T0 + 20 * MIN),
    ];
    let timeline = builder.build(events);
    assert_eq!(timeline.sessions.len(), 2);
    assert_eq!(timeline.sessions[0].event_indices, vec![0, 1]);
    assert!(timeline.sessions[0].closed);
    assert_eq!(timeline.sessions[1].event_indices, vec![2]);
    assert!(!timeline.sessions[1].closed);
    assert!(timeline.gaps.is_empty());
}

#[test]
fn test_hotspot_stop_ends_session() {
    let builder = TimelineBuilder::new();
    let events = vec![
        kev(ConnectionEventType::HotspotStarted, 3, "Tether", T0),
        kev(ConnectionEventType::HotspotStopped, 3, "Tether", T0 + MIN),
        kev(ConnectionEventType::HotspotStarted, 3, "Tether", T0 + 2 * MIN),
    ];
    let timeline = builder.build(events);
    assert_eq!(timeline.sessions.len(), 2);
}

#[test]
fn test_overlap_detection() {
    let builder = TimelineBuilder::new();
    let events = vec![
        kev(ConnectionEventType::Connected, 1, "NetA", T0),
        kev(ConnectionEventType::Connected, 2, "NetB", T0 + 5 * MIN),
        kev(ConnectionEventType::Disconnected, 1, "NetA", T0 + 10 * MIN),
        kev(ConnectionEventType::Disconnected, 2, "NetB", T0 + 15 * MIN),
    ];
    let timeline = builder.build(events);
    assert!(!timeline.overlaps.is_empty(), "should detect the overlap");
}

#[test]
fn test_chronological_session_order() {
    let builder = TimelineBuilder::new();
    let events = vec![ev(1, "Later", T0 + 5 * HOUR), ev(2, "Earlier", T0)];
    let timeline = builder.build(events);
    assert!(timeline.sessions[0].start_ns <= timeline.sessions[1].start_ns);
    assert_eq!(timeline.sessions[0].network_label, "Earlier");
    assert_eq!(timeline.sessions[0].event_indices, vec![1]);
}

#[test]
fn test_gap_explanation_and_bounds() {
    let builder = TimelineBuilder::new();
    let events = vec![ev(1, "Home", T0), ev(1, "Home", T0 + 10 * MIN), ev(1, "Home", T0 + 2 * HOUR)];
    let timeline = builder.build(events);
    let gap = &timeline.gaps[0];
    assert_eq!(gap.start_ns, T0 + 10 * MIN);
    assert_eq!(gap.end_ns, T0 + 2 * HOUR);
    assert_eq!(gap.duration_ns, 110 * MIN);
    assert_eq!(gap.explanation, "No network activity observed for 110 minutes between sessions.");
    assert_eq!(timeline.earliest_ns, Some(T0));
    assert_eq!(timeline.latest_ns, Some(T0 + 2 * HOUR));
}

#[test]
fn test_overlap_window_and_explanation() {
    let builder = TimelineBuilder::new();
    let events = vec![
        kev(ConnectionEventType::Connected, 1, "NetA", T0),
        kev(ConnectionEventType::Connected, 2, "NetB", T0 + 5 * MIN),
        kev(ConnectionEventType::Disconnected, 1, "NetA", T0 + 10 * MIN),
        kev(ConnectionEventType::Disconnected, 2, "NetB", T0 + 15 * MIN),
    ];
    let timeline = builder.build(events);
    assert_eq!(timeline.overlaps.len(), 1);
    let o = &timeline.overlaps[0];
    assert_eq!(o.overlap_start_ns, T0 + 5 * MIN);
    assert_eq!(o.overlap_end_ns, T0 + 10 * MIN);
    assert_eq!(o.session_a, timeline.sessions[0].id);
    assert_eq!(o.session_b, timeline.sessions[1].id);
    assert_eq!(
        o.explanation,
        "Device appears connected to both \"NetA\" and \"NetB\" simultaneously for 300 seconds. \
         This may indicate a hotspot+client dual-mode scenario, a log timing artifact, or data inconsistency."
    );
}

#[test]
fn test_same_network_sessions_do_not_overlap() {
    let builder = TimelineBuilder::with_timeout_mins(1);
    let events = vec![ev(1, "Home", T0), ev(1, "Home", T0 + 5 * MIN)];
    let timeline = builder.build(events);
    assert_eq!(timeline.sessions.len(), 2);
    assert!(timeline.overlaps.is_empty());
    assert_eq!(timeline.gaps.len(), 1);
}

#[test]
fn test_session_partition_and_durations() {
    let builder = TimelineBuilder::new();
    let events = vec![
        ev(1, "A", T0),
        ev(2, "B", T0 + MIN),
        ev(1, "A", T0 + 2 * MIN),
        ev(2, "B", T0 + 3 * MIN),
        ev(1, "A", T0 + 3 * HOUR),
    ];
    let timeline = builder.build(events);
    let mut seen: Vec<usize> = Vec::new();
    for s in &timeline.sessions {
        assert_eq!(s.duration_ns, s.end_ns - s.start_ns);
        seen.extend(s.event_indices.iter().copied());
    }
    seen.sort();
    assert_eq!(seen, vec![0, 1, 2, 3, 4]);
    assert_eq!(timeline.sessions.len(), 3);
    assert_eq!(timeline.sessions[0].event_indices, vec![0, 2]);
    assert_eq!(timeline.sessions[1].event_indices, vec![1, 3]);
    assert_eq!(timeline.sessions[2].event_indices, vec![4]);
}

#[test]
fn test_event_before_session_end_opens_new_session() {
    let builder = TimelineBuilder::new();
    let events = vec![ev(1, "Home", T0 + 10 * MIN), ev(1, "Home", T0)];
    let timeline = builder.build(events);
    assert_eq!(timeline.sessions.len(), 2);
    assert_eq!(timeline.sessions[0].start_ns, T0);
}

#[test]
fn test_timeout_boundary_is_inclusive() {
    let builder = TimelineBuilder::new();
    let events = vec![ev(1, "Home", T0), ev(1, "Home", T0 + 30 * MIN)];
    let timeline = builder.build(events);
    assert_eq!(timeline.sessions.len(), 1);
    let events = vec![ev(1, "Home", T0), ev(1, "Home", T0 + 30 * MIN + 1)];
    let timeline = builder.build(events);
    assert_eq!(timeline.sessions.len(), 2);
}

#[test]
fn test_session_ids_are_distinct() {
    assert_ne!(SessionId::new(), SessionId::new());
}

// ── stable sort ─────────────────────────────────────────────────────────────

fn session(net: u128, start: i128) -> TimelineSession {
    TimelineSession {
        id: SessionId::new(),
        network_id: net,
        network_label: String::new(),
        start_ns: start,
        end_ns: start,
        duration_ns: 0,
        event_indices: Vec::new(),
        closed: false,
    }
}

#[test]
fn test_sort_stable_keeps_equal_keys_in_order() {
    let mut v = vec![session(0, 3), session(1, 1), session(2, 3), session(3, 2), session(4, 1)];
    sort_stable(&mut v);
    let order: Vec<u128> = v.iter().map(|s| s.network_id).collect();
    assert_eq!(order, vec![1, 4, 3, 0, 2]);
}

// ── event reconstruction ────────────────────────────────────────────────────

fn evidence(ts: i128) -> EventEvidence {
    EventEvidence {
        artifact_id: ArtifactId::new(),
        record_id: RecordId::new(),
        description: "test evidence".to_string(),
        timestamp_ns: ts,
    }
}

#[test]
fn test_single_event() {
    let mut recon = EventReconstructor::new();
    recon.record_evidence(
        ConnectionEventType::Connected,
        7,
        "HomeNet",
        SecurityProtocol::Wpa2Psk,
        NetworkRole::DeviceAsClient,
        evidence(T0),
        Some("192.168.1.100".to_string()),
    );
    let events = recon.finalize();
    assert_eq!(events.len(), 1);
    assert_eq!(events[0].event_type, ConnectionEventType::Connected);
    assert_eq!(events[0].ip_address.as_deref(), Some("192.168.1.100"));
}

#[test]
fn test_corroborating_evidence_merges() {
    let mut recon = EventReconstructor::new();
    recon.record_evidence(
        ConnectionEventType::Connected,
        7,
        "HomeNet",
        SecurityProtocol::Wpa2Psk,
        NetworkRole::DeviceAsClient,
        evidence(T0),
        None,
    );
    recon.record_evidence(
        ConnectionEventType::Connected,
        7,
        "HomeNet",
        SecurityProtocol::Wpa2Psk,
        NetworkRole::DeviceAsClient,
        evidence(T0 + 30 * SEC),
        None,
    );
    let events = recon.finalize();
    assert_eq!(events.len(), 1, "should merge into one event");
    assert_eq!(events[0].corroboration_count, 2);
    assert_eq!(events[0].evidence_seq, vec![0, 1]);
}

#[test]
fn test_different_networks_separate_events() {
    let mut recon = EventReconstructor::new();
    recon.record_evidence(
        ConnectionEventType::Connected,
        1,
        "NetA",
        SecurityProtocol::Wpa2Psk,
        NetworkRole::DeviceAsClient,
        evidence(T0),
        None,
    );
    recon.record_evidence(
        ConnectionEventType::Connected,
        2,
        "NetB",
        SecurityProtocol::Open,
        NetworkRole::DeviceAsClient,
        evidence(T0),
        None,
    );
    let events = recon.finalize();
    assert_eq!(events.len(), 2);
}

#[test]
fn test_events_outside_window_not_merged() {
    let mut recon = EventReconstructor::new();
    recon.record_evidence(
        ConnectionEventType::Connected,
        7,
        "HomeNet",
        SecurityProtocol::Wpa2Psk,
        NetworkRole::DeviceAsClient,
        evidence(T0),
        None,
    );
    recon.record_evidence(
        ConnectionEventType::Connected,
        7,
        "HomeNet",
        SecurityProtocol::Wpa2Psk,
        NetworkRole::DeviceAsClient,
        evidence(T0 + 5 * MIN),
        None,
    );
    let events = recon.finalize();
    assert_eq!(events.len(), 2, "should be separate events");
}

#[test]
fn test_chronological_sort() {
    let mut recon = EventReconstructor::new();
    recon.record_evidence(
        ConnectionEventType::Disconnected,
        1,
        "NetA",
        SecurityProtocol::Wpa2Psk,
        NetworkRole::DeviceAsClient,
        evidence(T0 + HOUR),
        None,
    );
    recon.record_evidence(
        ConnectionEventType::Connected,
        2,
        "NetA",
        SecurityProtocol::Wpa2Psk,
        NetworkRole::DeviceAsClient,
        evidence(T0),
        None,
    );
    let events = recon.finalize();
    assert!(events[0].timestamp_ns <= events[1].timestamp_ns, "should be chronological");
}

#[test]
fn test_merge_window_boundaries_and_ip_adoption() {
    let mut recon = EventReconstructor::new();
    recon.record_evidence(
        ConnectionEventType::Connected,
        7,
        "HomeNet",
        SecurityProtocol::Wpa2Psk,
        NetworkRole::DeviceAsClient,
        evidence(T0),
        None,
    );
    // 120.9 s later: 120 whole seconds, still merged; the IP is adopted
    recon.record_evidence(
        ConnectionEventType::Connected,
        7,
        "HomeNet",
        SecurityProtocol::Wpa2Psk,
        NetworkRole::DeviceAsClient,
        evidence(T0 + 120 * SEC + 900_000_000),
        Some("10.0.0.2".to_string()),
    );
    // 121 s earlier than the event: not merged
    recon.record_evidence(
        ConnectionEventType::Connected,
        7,
        "HomeNet",
        SecurityProtocol::Wpa2Psk,
        NetworkRole::DeviceAsClient,
        evidence(T0 - 121 * SEC),
        None,
    );
    // another kind of event at the same instant: not merged
    recon.record_evidence(
        ConnectionEventType::Disconnected,
        7,
        "HomeNet",
        SecurityProtocol::Wpa2Psk,
        NetworkRole::DeviceAsClient,
        evidence(T0),
        None,
    );
    assert_eq!(recon.event_count(), 3);
    assert_eq!(recon.recorded_count(), 4);
    let events = recon.finalize();
    assert_eq!(events[0].timestamp_ns, T0 - 121 * SEC);
    assert_eq!(events[1].corroboration_count, 2);
    assert_eq!(events[1].ip_address.as_deref(), Some("10.0.0.2"));
    assert_eq!(events[1].evidence_seq, vec![0, 1]);
    assert_eq!(events[2].event_type, ConnectionEventType::Disconnected);
    assert_eq!(events[2].evidence_seq, vec![3]);
}

// ── network identity resolution ─────────────────────────────────────────────

fn claim(
    ssid: Option<&str>,
    bssid: Option<&str>,
    proto: Option<SecurityProtocol>,
    randomized: bool,
) -> NetworkClaim {
    NetworkClaim {
        artifact_id: ArtifactId::new(),
        record_id: RecordId::new(),
        source_description: "test".to_string(),
        ssid: ssid.map(|s| s.to_string()),
        bssid: bssid.map(|s| s.to_string()),
        security_protocol: proto,
        last_seen_ns: None,
        is_locally_administered: randomized,
    }
}

#[test]
fn test_two_claims_same_bssid_merged() {
    let mut resolver = NetworkIdentityResolver::new();
    resolver.ingest(claim(Some("HomeNet"), Some("AA:BB:CC:DD:EE:FF"), None, false));
    resolver.ingest(claim(
        Some("HomeNet"),
        Some("AA:BB:CC:DD:EE:FF"),
        Some(SecurityProtocol::Wpa2Psk),
        false,
    ));
    let networks = resolver.resolve();
    assert_eq!(networks.len(), 1);
    assert_eq!(networks[0].source_count, 2);
    assert_eq!(networks[0].canonical_bssid.as_deref(), Some("AA:BB:CC:DD:EE:FF"));
    assert_eq!(networks[0].security_protocol, SecurityProtocol::Wpa2Psk);
}

#[test]
fn test_two_claims_same_ssid_merged() {
    let mut resolver = NetworkIdentityResolver::new();
    resolver.ingest(claim(Some("HomeNet"), None, Some(SecurityProtocol::Wpa2Psk), false));
    resolver.ingest(claim(Some("HomeNet"), None, Some(SecurityProtocol::Wpa2Psk), false));
    let networks = resolver.resolve();
    assert_eq!(networks.len(), 1);
    assert_eq!(networks[0].source_count, 2);
}

#[test]
fn test_different_ssid_different_bssid_separate() {
    let mut resolver = NetworkIdentityResolver::new();
    resolver.ingest(claim(Some("NetworkA"), Some("AA:BB:CC:DD:EE:01"), None, false));
    resolver.ingest(claim(Some("NetworkB"), Some("AA:BB:CC:DD:EE:02"), None, false));
    let networks = resolver.resolve();
    assert_eq!(networks.len(), 2);
}

#[test]
fn test_randomized_mac_not_used_as_canonical_bssid() {
    let mut resolver = NetworkIdentityResolver::new();
    resolver.ingest(claim(Some("HomeNet"), Some("DA:A1:19:AB:CD:EF"), None, true));
    let networks = resolver.resolve();
    assert_eq!(networks.len(), 1);
    assert!(networks[0].canonical_bssid.is_none());
    assert!(networks[0].has_randomized_mac);
}

#[test]
fn test_confidence_increases_with_corroboration() {
    let mut resolver = NetworkIdentityResolver::new();
    let bssid = "AA:BB:CC:DD:EE:FF";
    resolver.ingest(claim(Some("Net"), Some(bssid), None, false));
    let c1 = resolver.current()[0].confidence_bp;
    resolver.ingest(claim(Some("Net"), Some(bssid), None, false));
    let c2 = resolver.current()[0].confidence_bp;
    resolver.ingest(claim(Some("Net"), Some(bssid), None, false));
    let c3 = resolver.current()[0].confidence_bp;
    assert!(c2 > c1, "confidence should increase with more sources");
    assert!(c3 > c2, "confidence should increase further");
}

#[test]
fn test_resolve_sorted_by_confidence() {
    let mut resolver = NetworkIdentityResolver::new();
    resolver.ingest(claim(Some("LowConf"), Some("11:22:33:44:55:66"), None, false));
    let bssid = "AA:BB:CC:DD:EE:FF";
    resolver.ingest(claim(Some("HighConf"), Some(bssid), None, false));
    resolver.ingest(claim(Some("HighConf"), Some(bssid), None, false));
    resolver.ingest(claim(Some("HighConf"), Some(bssid), None, false));
    let networks = resolver.resolve();
    assert_eq!(networks[0].canonical_ssid.as_deref(), Some("HighConf"));
}

#[test]
fn test_confidence_basis_points() {
    assert_eq!(compute_confidence_bp(1, false), 4000);
    assert_eq!(compute_confidence_bp(2, false), 6500);
    assert_eq!(compute_confidence_bp(3, false), 8000);
    assert_eq!(compute_confidence_bp(4, false), 9000);
    assert_eq!(compute_confidence_bp(9, false), 9500);
    assert_eq!(compute_confidence_bp(2, true), 5525);
    assert_eq!(compute_confidence_bp(5, true), 8075);
}

#[test]
fn test_ssid_match_needs_compatible_security() {
    let mut resolver = NetworkIdentityResolver::new();
    resolver.ingest(claim(Some("Cafe"), None, Some(SecurityProtocol::Open), false));
    resolver.ingest(claim(Some("Cafe"), None, Some(SecurityProtocol::Wpa2Psk), false));
    resolver.ingest(claim(Some("Cafe"), None, None, false));
    let current = resolver.current();
    assert_eq!(current.len(), 2);
    assert_eq!(current[0].source_count, 2);
}

#[test]
fn test_merge_updates_observations_and_window() {
    let mut resolver = NetworkIdentityResolver::new();
    let mut a = claim(Some("Home"), Some("AA:AA:AA:AA:AA:01"), None, false);
    a.last_seen_ns = Some(T0);
    resolver.ingest(a);
    let mut b = claim(Some("Home"), Some("AA:AA:AA:AA:AA:02"), Some(SecurityProtocol::Wpa3Sae), true);
    b.last_seen_ns = Some(T0 - HOUR);
    resolver.ingest(b);
    let mut c = claim(None, Some("AA:AA:AA:AA:AA:02"), None, false);
    c.last_seen_ns = Some(T0 + HOUR);
    resolver.ingest(c);
    let n = &resolver.current()[0];
    assert_eq!(resolver.current().len(), 1);
    assert_eq!(n.observed_ssids, vec!["Home".to_string()]);
    assert_eq!(
        n.observed_bssids,
        vec!["AA:AA:AA:AA:AA:01".to_string(), "AA:AA:AA:AA:AA:02".to_string()]
    );
    assert_eq!(n.canonical_bssid.as_deref(), Some("AA:AA:AA:AA:AA:01"));
    assert_eq!(n.security_protocol, SecurityProtocol::Wpa3Sae);
    assert!(n.has_randomized_mac);
    assert_eq!(n.first_seen_ns, Some(T0 - HOUR));
    assert_eq!(n.last_seen_ns, Some(T0 + HOUR));
    assert_eq!(n.source_count, 3);
    assert_eq!(n.confidence_bp, 6800);
}

// ── anomaly analysis ────────────────────────────────────────────────────────

#[test]
fn test_empty_timeline_no_anomalies() {
    let report = AnomalyDetector::analyze(&empty_timeline(), &Vec::new(), &Vec::new());
    assert!(report.anomalies.is_empty());
}

#[test]
fn test_overlap_detected_as_anomaly() {
    let mut timeline = empty_timeline();
    timeline.overlaps.push(TimelineOverlap {
        session_a: SessionId::new(),
        session_b: SessionId::new(),
        network_a_label: "NetA".to_string(),
        network_b_label: "NetB".to_string(),
        overlap_start_ns: T0,
        overlap_end_ns: T0 + 10 * MIN,
        explanation: "test".to_string(),
    });
    let report = AnomalyDetector::analyze(&timeline, &Vec::new(), &Vec::new());
    assert!(report
        .anomalies
        .iter()
        .any(|a| a.category == AnomalyCategory::SimultaneousConnection));
    assert_eq!(report.anomalies[0].severity, AnomalySeverity::Warning);
    assert_eq!(report.warning_count, 1);
}

#[test]
fn test_extended_gap_detected() {
    let mut timeline = empty_timeline();
    timeline.gaps.push(TimelineGap {
        start_ns: T0,
        end_ns: T0 + 48 * HOUR,
        duration_ns: 48 * HOUR,
        explanation: "test gap".to_string(),
    });
    let report = AnomalyDetector::analyze(&timeline, &Vec::new(), &Vec::new());
    assert!(report.anomalies.iter().any(|a| a.category == AnomalyCategory::ExtendedActivityGap));
}

#[test]
fn test_low_confidence_event_flagged() {
    let mut timeline = empty_timeline();
    timeline.sessions.push(TimelineSession {
        id: SessionId::new(),
        network_id: 9,
        network_label: "WeakNet".to_string(),
        start_ns: T0,
        end_ns: T0 + 5 * MIN,
        duration_ns: 5 * MIN,
        event_indices: vec![0],
        closed: false,
    });
    timeline.total_events = 1;
    let events = vec![ev(9, "WeakNet", T0)];
    let report = AnomalyDetector::analyze(&timeline, &events, &vec![true]);
    assert!(report.anomalies.iter().any(|a| a.category == AnomalyCategory::LowConfidenceEvent));
    assert_eq!(report.info_count, 1);
}

#[test]
fn test_short_overlap_is_informational_and_day_gap_is_not_extended() {
    let mut timeline = empty_timeline();
    timeline.overlaps.push(TimelineOverlap {
        session_a: SessionId::new(),
        session_b: SessionId::new(),
        network_a_label: "A".to_string(),
        network_b_label: "B".to_string(),
        overlap_start_ns: T0,
        overlap_end_ns: T0 + 300 * SEC + 999_999_999,
        explanation: String::new(),
    });
    timeline.gaps.push(TimelineGap {
        start_ns: T0,
        end_ns: T0 + 24 * HOUR,
        duration_ns: 24 * HOUR,
        explanation: String::new(),
    });
    let report = AnomalyDetector::analyze(&timeline, &Vec::new(), &Vec::new());
    assert_eq!(report.anomalies.len(), 1);
    assert_eq!(report.anomalies[0].severity, AnomalySeverity::Info);
    assert_eq!(report.anomalies[0].subject, AnomalySubject::Overlap(0));
    assert_eq!(report.info_count, 1);
}

#[test]
fn test_temporal_order_and_micro_session() {
    let mut timeline = empty_timeline();
    timeline.sessions.push(TimelineSession {
        id: SessionId::new(),
        network_id: 1,
        network_label: "A".to_string(),
        start_ns: T0,
        end_ns: T0 + MIN,
        duration_ns: MIN,
        event_indices: vec![0, 1],
        closed: false,
    });
    timeline.sessions.push(TimelineSession {
        id: SessionId::new(),
        network_id: 2,
        network_label: "B".to_string(),
        start_ns: T0,
        end_ns: T0 + 5 * SEC,
        duration_ns: 5 * SEC,
        event_indices: vec![2],
        closed: false,
    });
    let events = vec![ev(1, "A", T0 + MIN), ev(1, "A", T0), ev(2, "B", T0)];
    let report = AnomalyDetector::analyze(&timeline, &events, &vec![false, false, false]);
    assert_eq!(report.anomalies.len(), 2);
    assert_eq!(report.anomalies[0].category, AnomalyCategory::TemporalOrderViolation);
    assert_eq!(
        report.anomalies[0].subject,
        AnomalySubject::EventPair { session: 0, first: 0, second: 1 }
    );
    assert_eq!(
        report.anomalies[0].recommendation,
        "Verify the acquisition timestamps and check for clock manipulation on the device."
    );
    assert_eq!(report.anomalies[1].category, AnomalyCategory::MicroSession);
    assert_eq!(report.anomalies[1].subject, AnomalySubject::Session(1));
    assert_eq!(report.critical_count, 1);
    assert_eq!(report.info_count, 1);
    assert_eq!(report.warning_count, 0);
}

// ── attribution of normalised records to networks ───────────────────────────

fn pipeline() -> ForensicPipeline {
    ForensicPipeline::new(
        OracleConfig::default_config("/tmp/oracle-test"),
        InvestigationId::new(),
        "case".to_string(),
        ExaminerIdentity {
            name: "tester".to_string(),
            badge_id: "T-001".to_string(),
            organization: "lab".to_string(),
        },
    )
}

fn record(kind: &str) -> RecordFields {
    RecordFields {
        artifact_id: ArtifactId::new(),
        record_id: RecordId::new(),
        record_type: kind.to_string(),
        event_kind: None,
        state: None,
        ip_address: None,
        mac_address: None,
        timestamp_ns: T0,
    }
}

#[test]
fn test_match_network_and_dhcp_attribution() {
    let p = pipeline();
    let (_, label) = p.match_network(&Vec::new());
    assert_eq!(label, "WIFI");
    let mut resolver = NetworkIdentityResolver::new();
    resolver.ingest(claim(None, Some("AA:BB:CC:DD:EE:01"), None, true));
    resolver.ingest(claim(Some("Cafe"), Some("AA:BB:CC:DD:EE:02"), None, false));
    let networks = resolver.resolve();
    let (id, label) = p.match_network(&networks);
    let named = networks.iter().find(|n| n.canonical_ssid.is_some() || n.canonical_bssid.is_some()).unwrap();
    assert_eq!(id, named.id);
    assert_eq!(label, "Cafe");
    let (_, label) = ForensicPipeline::dhcp_network(&networks, "AA:BB:CC:DD:EE:01");
    assert_eq!(label, "AA:BB:CC:DD:EE:01");
    let (id, label) = ForensicPipeline::dhcp_network(&networks, "AA:BB:CC:DD:EE:02");
    assert_eq!(label, "Cafe");
    assert_eq!(id, named.id);
    let (_, label) = ForensicPipeline::dhcp_network(&networks, "11:11:11:11:11:11");
    assert_eq!(label, "11:11:11:11:11:11");
}

#[test]
fn test_reconstruct_event_from_records() {
    let p = pipeline();
    let networks = Vec::new();
    let mut recon = EventReconstructor::new();

    let mut r = record("connectivity_event");
    r.event_kind = Some("state_change".to_string());
    r.state = Some("CONNECTED".to_string());
    assert_eq!(p.reconstruct_event(&r, &networks, &mut recon), Some(ConnectionEventType::Connected));

    let mut r = record("connectivity_event");
    r.event_kind = Some("scan".to_string());
    assert_eq!(p.reconstruct_event(&r, &networks, &mut recon), None);

    let mut r = record("dhcp_lease");
    r.ip_address = Some("192.168.1.7".to_string());
    r.mac_address = Some("AA:BB:CC:DD:EE:FF".to_string());
    assert_eq!(
        p.reconstruct_event(&r, &networks, &mut recon),
        Some(ConnectionEventType::DhcpLeaseAcquired)
    );
    assert_eq!(p.reconstruct_event(&record("wifi_network"), &networks, &mut recon), None);

    assert_eq!(recon.recorded_count(), 2);
    let events = recon.finalize();
    assert_eq!(events.len(), 2);
    assert_eq!(events[0].network_label, "WIFI");
    assert_eq!(events[0].evidence[0].description, "Connectivity log state change: WIFI CONNECTED");
    assert_eq!(events[1].network_label, "AA:BB:CC:DD:EE:FF");
    assert_eq!(events[1].ip_address.as_deref(), Some("192.168.1.7"));
    assert_eq!(events[1].evidence[0].description, "DHCP lease acquired: AA:BB:CC:DD:EE:FF");
}

#[test]
fn test_contradictions_for_a_session_label() {
    let overlap = |a: &str, b: &str, why: &str| TimelineOverlap {
        session_a: SessionId::new(),
        session_b: SessionId::new(),
        network_a_label: a.to_string(),
        network_b_label: b.to_string(),
        overlap_start_ns: T0,
        overlap_end_ns: T0 + MIN,
        explanation: why.to_string(),
    };
    let overlaps = vec![overlap("A", "B", "ab"), overlap("C", "D", "cd"), overlap("B", "C", "bc")];
    assert!(ForensicPipeline::has_contradictions(&overlaps, &vec![], "B"));
    assert!(!ForensicPipeline::has_contradictions(&overlaps, &vec![], "E"));
    assert!(ForensicPipeline::has_contradictions(&overlaps, &vec!["E".to_string()], "E"));
    assert_eq!(
        ForensicPipeline::contradictions_for(&overlaps, "B"),
        vec!["ab".to_string(), "bc".to_string()]
    );
}

// ── network role signals ────────────────────────────────────────────────────

#[test]
fn test_hotspot_ip_range_detection() {
    let signal = RoleClassifier::signal_hotspot_ip_range("192.168.43.1", "dhcp");
    assert_eq!(signal.supports, NetworkRole::DeviceAsHotspot);
    let signal = RoleClassifier::signal_hotspot_ip_range("192.168.1.100", "dhcp");
    assert_eq!(signal.supports, NetworkRole::DeviceAsClient);
}

#[test]
fn test_role_signal_texts_and_weights() {
    let s = RoleClassifier::signal_hotspot_ip_range("192.168.43.7", "leases");
    assert_eq!(s.description, "IP address 192.168.43.7 is in Android default hotspot range (192.168.43.x)");
    assert_eq!(s.weight_bp, 8000);
    assert_eq!(s.source, "leases");
    let s = RoleClassifier::signal_hotspot_ip_range("10.0.0.2", "leases");
    assert_eq!(s.description, "IP address 10.0.0.2 is NOT in Android default hotspot range (192.168.43.x)");
    assert_eq!(s.weight_bp, 3000);
    assert_eq!(RoleClassifier::signal_wpa_supplicant_entry("w").weight_bp, 9000);
    assert_eq!(RoleClassifier::signal_wifi_config_store_entry("w").supports, NetworkRole::DeviceAsClient);
    assert_eq!(RoleClassifier::signal_dhcp_lease_received("d").weight_bp, 9500);
    assert_eq!(RoleClassifier::signal_hostapd_config("h").supports, NetworkRole::DeviceAsHotspot);
    assert_eq!(RoleClassifier::signal_tethering_active("t").weight_bp, 9000);
}

// ── findings and conflicts ──────────────────────────────────────────────────

#[test]
fn test_finding_facts_for_a_session() {
    let stored_art = ArtifactId::new();
    let mut recon = EventReconstructor::new();
    let mut ev = evidence(T0);
    ev.artifact_id = stored_art;
    ev.description = "first".to_string();
    recon.record_evidence(
        ConnectionEventType::Connected,
        7,
        "AA:BB:CC:DD:EE:FF",
        SecurityProtocol::Wpa2Psk,
        NetworkRole::DeviceAsClient,
        ev,
        None,
    );
    let mut ev2 = evidence(T0 + SEC);
    ev2.description = "second".to_string();
    recon.record_evidence(
        ConnectionEventType::Connected,
        7,
        "AA:BB:CC:DD:EE:FF",
        SecurityProtocol::Wpa2Psk,
        NetworkRole::DeviceAsClient,
        ev2,
        None,
    );
    let events = recon.finalize();
    let session = TimelineSession {
        id: SessionId::new(),
        network_id: 7,
        network_label: "Home".to_string(),
        start_ns: T0,
        end_ns: T0,
        duration_ns: 0,
        event_indices: vec![0],
        closed: false,
    };
    let stored = vec![(ArtifactId::new(), oracle::types::ArtifactClass::DhcpLeases), (stored_art, oracle::types::ArtifactClass::ConnectivityLogs)];
    let overlaps = vec![TimelineOverlap {
        session_a: SessionId::new(),
        session_b: SessionId::new(),
        network_a_label: "Home".to_string(),
        network_b_label: "Other".to_string(),
        overlap_start_ns: T0,
        overlap_end_ns: T0 + MIN,
        explanation: "overlap".to_string(),
    }];
    let f = ForensicPipeline::finding_facts(&session, &events, &stored, &overlaps, &vec![]);
    assert_eq!(f.primary_class, oracle::types::ArtifactClass::ConnectivityLogs);
    assert_eq!(f.corroboration_count, 1);
    assert_eq!(f.network_bssid.as_deref(), Some("AA:BB:CC:DD:EE:FF"));
    assert_eq!(f.security_protocol, Some(SecurityProtocol::Wpa2Psk));
    assert_eq!(f.corroborating_sources, vec!["first".to_string(), "second".to_string()]);
    assert_eq!(f.contradictions, vec!["overlap".to_string()]);
    assert!(f.has_contradictions);
    assert_eq!(
        f.reasoning,
        vec![
            "Primary evidence derived from ConnectivityLogs".to_string(),
            "Corroborated by 1 distinct events across the timeline.".to_string(),
            "Contradictory evidence detected; applying confidence penalty.".to_string(),
        ]
    );
}

#[test]
fn test_session_findings_one_per_session_in_order() {
    let mut recon = EventReconstructor::new();
    recon.record_evidence(
        ConnectionEventType::Connected,
        7,
        "Home",
        SecurityProtocol::Wpa2Psk,
        NetworkRole::DeviceAsClient,
        evidence(T0),
        None,
    );
    let events = recon.finalize();
    let mk = |label: &str, idx: Vec<usize>| TimelineSession {
        id: SessionId::new(),
        network_id: 7,
        network_label: label.to_string(),
        start_ns: T0,
        end_ns: T0,
        duration_ns: 0,
        event_indices: idx,
        closed: false,
    };
    let sessions = vec![mk("Home", vec![0]), mk("Cafe", vec![]), mk("Office", vec![0])];
    let conflict_labels = vec!["Office".to_string()];
    let r = ForensicPipeline::session_findings(&sessions, &events, &vec![], &vec![], &conflict_labels);
    assert_eq!(r.len(), 3);
    assert_eq!(r[0].finding_number, "F-001");
    assert_eq!(r[1].finding_number, "F-002");
    assert_eq!(r[2].finding_number, "F-003");
    assert_eq!(r[1].title, "Device associated with network \"Cafe\"");
    assert_eq!(r[0].facts.corroboration_count, 1);
    assert_eq!(r[1].facts.corroboration_count, 0);
    assert!(!r[0].facts.has_contradictions);
    assert!(r[2].facts.has_contradictions);
}

#[test]
fn test_detect_conflicts_pairs() {
    let rec = |b: Option<&str>, s: Option<&str>| NetworkFields {
        bssid: b.map(|x| x.to_string()),
        ssid: s.map(|x| x.to_string()),
    };
    let records = vec![
        rec(Some("B1"), Some("Home")),
        rec(Some("B1"), Some("Guest")),
        rec(Some("B2"), Some("Home")),
        rec(None, Some("Home")),
        rec(Some("B1"), Some("Home")),
    ];
    let checks = ForensicPipeline::detect_conflicts(&records);
    let got: Vec<(ConflictKind, usize, usize)> = checks.iter().map(|c| (c.kind, c.first, c.second)).collect();
    assert_eq!(
        got,
        vec![
            (ConflictKind::SsidForBssid, 0, 1),
            (ConflictKind::BssidForSsid, 0, 2),
            (ConflictKind::SsidForBssid, 1, 4),
            (ConflictKind::BssidForSsid, 2, 4),
        ]
    );
}

// ── role classification ─────────────────────────────────────────────────────

#[test]
fn test_strong_client_signals() {
    let signals = vec![
        RoleClassifier::signal_wpa_supplicant_entry("wpa_supplicant.conf"),
        RoleClassifier::signal_dhcp_lease_received("dhclient.leases"),
    ];
    let result = RoleClassifier::classify(&signals);
    assert_eq!(result.role, NetworkRole::DeviceAsClient);
    assert!(result.confidence_bp >= 6500);
}

#[test]
fn test_strong_hotspot_signals() {
    let signals = vec![
        RoleClassifier::signal_hostapd_config("hostapd.conf"),
        RoleClassifier::signal_tethering_active("settings.db"),
    ];
    let result = RoleClassifier::classify(&signals);
    assert_eq!(result.role, NetworkRole::DeviceAsHotspot);
    assert!(result.confidence_bp >= 6500);
}

#[test]
fn test_ambiguous_signals() {
    let signals = vec![
        RoleClassifier::signal_wpa_supplicant_entry("wpa_supplicant.conf"),
        RoleClassifier::signal_hostapd_config("hostapd.conf"),
    ];
    let result = RoleClassifier::classify(&signals);
    assert_eq!(result.role, NetworkRole::Ambiguous);
}

#[test]
fn test_no_signals() {
    let result = RoleClassifier::classify(&[]);
    assert_eq!(result.role, NetworkRole::Ambiguous);
    assert_eq!(result.confidence_bp, 0);
}

#[test]
fn test_classification_has_rationale() {
    let signals = vec![RoleClassifier::signal_dhcp_lease_received("dhclient.leases")];
    let result = RoleClassifier::classify(&signals);
    assert!(!result.rationale.is_empty());
    assert!(result.rationale.contains("CLIENT"));
}

#[test]
fn test_role_classification_exact_figures() {
    let client = RoleClassifier::classify(&[
        RoleClassifier::signal_wpa_supplicant_entry("w"),
        RoleClassifier::signal_dhcp_lease_received("d"),
    ]);
    assert_eq!(client.confidence_bp, 10000);
    assert_eq!(
        client.rationale,
        "Device classified as CLIENT with 100% weighted signal support. 2 signal(s) support client mode."
    );
    assert_eq!(client.signals.len(), 2);
    let mixed = RoleClassifier::classify(&[
        RoleClassifier::signal_wpa_supplicant_entry("w"),
        RoleClassifier::signal_hostapd_config("h"),
    ]);
    assert_eq!(mixed.confidence_bp, 5135);
    assert_eq!(
        mixed.rationale,
        "Insufficient signal separation \u{2014} client: 49%, hotspot: 51%. Examiner review required."
    );
    let hotspot = RoleClassifier::classify(&[
        RoleClassifier::signal_hostapd_config("h"),
        RoleClassifier::signal_hotspot_ip_range("192.168.1.9", "d"),
    ]);
    // 9500 against 3000: 76% of the vote.
    assert_eq!(hotspot.role, NetworkRole::DeviceAsHotspot);
    assert_eq!(hotspot.confidence_bp, 7600);
    assert_eq!(
        hotspot.rationale,
        "Device classified as HOTSPOT with 76% weighted signal support. 1 signal(s) support hotspot mode."
    );
    let mut zero = RoleClassifier::signal_tethering_active("t");
    zero.weight_bp = 0;
    let z = RoleClassifier::classify(&[zero]);
    assert_eq!(z.role, NetworkRole::Ambiguous);
    assert_eq!(z.confidence_bp, 0);
    assert_eq!(z.rationale, "All signals had zero weight.");
}

#[test]
fn test_role_percent_ties_round_to_even() {
    let mut a = RoleClassifier::signal_tethering_active("t");
    a.weight_bp = 7000;
    let mut b = RoleClassifier::signal_wpa_supplicant_entry("w");
    b.weight_bp = 1000;
    // 87.5% of the vote is written as 88%.
    let r = RoleClassifier::classify(&[a, b]);
    assert_eq!(r.role, NetworkRole::DeviceAsHotspot);
    assert_eq!(r.confidence_bp, 8750);
    assert!(r.rationale.starts_with("Device classified as HOTSPOT with 88% "));
}
