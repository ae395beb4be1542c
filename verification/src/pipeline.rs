//! The stages of the forensic pipeline, in the order they run.

use vstd::prelude::*;
use crate::config::OracleConfig;
use crate::correlate::ConnectionEventType;
use crate::events::{evidence_recorded, EventEvidence, EventReconstructor};
use crate::identity::{has_text, NetworkIdentityId, ResolvedNetwork};
use crate::text::{append, concat, decimal, owned, str_eq, trim, trimmed, uppercase, uppercase_of};
use crate::timeline::{in_time_range, TimelineOverlap};
use crate::types::{
    AcquisitionState, ArtifactClass, ArtifactId, EncryptionState, EncryptionZone, ExaminerDecision,
    ExaminerIdentity, InvestigationId, NetworkRole, RecordId, SecurityProtocol,
};

verus! {

/// A stage of the forensic pipeline.
#[derive(Debug, Clone, Copy, PartialEq, Eq, Structural)]
pub enum PipelineStage {
    /// Loggers and evidence store are initialised.
    StartupAndInit,
    /// The device is connected and its capabilities detected.
    DeviceConnection,
    /// Artifacts are discovered on the device.
    ArtifactDiscovery,
    /// Discovered artifacts are acquired.
    ArtifactAcquisition,
    /// Acquired artifacts are parsed.
    Parsing,
    /// Parsed records are normalised.
    Normalization,
    /// Normalised records are correlated.
    Correlation,
    /// Confidence scores are computed.
    ConfidenceScoring,
    /// Reports are generated.
    ReportGeneration,
    /// The audit chain is verified.
    AuditVerification,
}

/// The display label of a stage.
pub open spec fn stage_label(s: PipelineStage) -> Seq<char> {
    match s {
        PipelineStage::StartupAndInit => "Startup & Init"@,
        PipelineStage::DeviceConnection => "Device Connection"@,
        PipelineStage::ArtifactDiscovery => "Artifact Discovery"@,
        PipelineStage::ArtifactAcquisition => "Artifact Acquisition"@,
        PipelineStage::Parsing => "Parsing"@,
        PipelineStage::Normalization => "Normalization"@,
        PipelineStage::Correlation => "Correlation"@,
        PipelineStage::ConfidenceScoring => "Confidence Scoring"@,
        PipelineStage::ReportGeneration => "Report Generation"@,
        PipelineStage::AuditVerification => "Audit Verification"@,
    }
}

impl PipelineStage {
    /// The display label of this stage.
    pub fn display_text(&self) -> (s: String)
        ensures
            s@ == stage_label(*self),
    {
        match self {
            PipelineStage::StartupAndInit => owned("Startup & Init"),
            PipelineStage::DeviceConnection => owned("Device Connection"),
            PipelineStage::ArtifactDiscovery => owned("Artifact Discovery"),
            PipelineStage::ArtifactAcquisition => owned("Artifact Acquisition"),
            PipelineStage::Parsing => owned("Parsing"),
            PipelineStage::Normalization => owned("Normalization"),
            PipelineStage::Correlation => owned("Correlation"),
            PipelineStage::ConfidenceScoring => owned("Confidence Scoring"),
            PipelineStage::ReportGeneration => owned("Report Generation"),
            PipelineStage::AuditVerification => owned("Audit Verification"),
        }
    }
}

/// The security protocol a normalised label names: the display labels of
/// the known protocols; anything else names none.
pub open spec fn protocol_named(s: Seq<char>) -> Option<SecurityProtocol> {
    if s == "OPEN"@ {
        Some(SecurityProtocol::Open)
    } else if s == "WEP"@ {
        Some(SecurityProtocol::Wep)
    } else if s == "WPA-PSK"@ {
        Some(SecurityProtocol::WpaPsk)
    } else if s == "WPA2-PSK"@ {
        Some(SecurityProtocol::Wpa2Psk)
    } else if s == "WPA3-SAE"@ {
        Some(SecurityProtocol::Wpa3Sae)
    } else if s == "OWE"@ {
        Some(SecurityProtocol::Owe)
    } else if s == "EAP-TLS"@ {
        Some(SecurityProtocol::EapTls)
    } else if s == "EAP-PEAP"@ {
        Some(SecurityProtocol::EapPeap)
    } else {
        None
    }
}

/// The examiner's typed choice, trimmed and upper-cased, is `c`.
pub open spec fn choice_is(input: Seq<char>, c: Seq<char>) -> bool {
    uppercase_of(trimmed(input)) == c
}

/// The decision at the before-first-unlock prompt: without interaction it
/// follows the accept flag; otherwise `U` unlocks, `P` proceeds with a
/// partial acquisition, and anything else aborts.
pub open spec fn bfu_decision_of(interactive: bool, accept_bfu: bool, input: Seq<char>) -> ExaminerDecision {
    if !interactive {
        if accept_bfu {
            ExaminerDecision::ProceedPartial
        } else {
            ExaminerDecision::AbortInvestigation
        }
    } else if choice_is(input, "U"@) {
        ExaminerDecision::UnlockDevice
    } else if choice_is(input, "P"@) {
        ExaminerDecision::ProceedPartial
    } else {
        ExaminerDecision::AbortInvestigation
    }
}

/// The artifact classes shown at the before-first-unlock prompt, each with
/// its encryption zone.
pub open spec fn bfu_impact_rows() -> Seq<(ArtifactClass, EncryptionZone)> {
    seq![
        (ArtifactClass::WifiConfigStore, EncryptionZone::CredentialEncrypted),
        (ArtifactClass::WpaSupplicant, EncryptionZone::CredentialEncrypted),
        (ArtifactClass::DhcpLeases, EncryptionZone::DeviceEncrypted),
        (ArtifactClass::ConnectivityLogs, EncryptionZone::DeviceEncrypted),
        (ArtifactClass::HostapdLogs, EncryptionZone::CredentialEncrypted),
        (ArtifactClass::BatteryStats, EncryptionZone::DeviceEncrypted),
        (ArtifactClass::KernelLogs, EncryptionZone::DeviceEncrypted),
        (ArtifactClass::DnsCache, EncryptionZone::DeviceEncrypted),
        (ArtifactClass::NetworkPolicy, EncryptionZone::DeviceEncrypted),
        (ArtifactClass::BuildProp, EncryptionZone::DeviceEncrypted),
    ]
}

/// The status shown for a zone while the device is locked.
pub open spec fn bfu_status_of(zone: EncryptionZone) -> Seq<char> {
    match zone {
        EncryptionZone::CredentialEncrypted => "\u{1F512} LOCKED"@,
        _ => "\u{2713} ACCESSIBLE"@,
    }
}

/// The label a network is known by: its SSID, else its BSSID, else
/// `fallback`.
pub open spec fn network_label_of(n: ResolvedNetwork, fallback: Seq<char>) -> Seq<char> {
    match n.canonical_ssid {
        Some(s) => s@,
        None => match n.canonical_bssid {
            Some(b) => b@,
            None => fallback,
        },
    }
}

/// The position of the first network from `from` on that has a canonical
/// SSID or BSSID, or -1.
pub open spec fn first_named_from(ns: Seq<ResolvedNetwork>, from: int) -> int
    decreases ns.len() - from,
{
    if from < 0 || from >= ns.len() {
        -1
    } else if ns[from].canonical_ssid is Some || ns[from].canonical_bssid is Some {
        from
    } else {
        first_named_from(ns, from + 1)
    }
}

/// The position of the first network from `from` on that observed BSSID
/// `b`, or -1.
pub open spec fn first_with_bssid_from(ns: Seq<ResolvedNetwork>, b: Seq<char>, from: int) -> int
    decreases ns.len() - from,
{
    if from < 0 || from >= ns.len() {
        -1
    } else if has_text(ns[from].observed_bssids@, b) {
        from
    } else {
        first_with_bssid_from(ns, b, from + 1)
    }
}

/// The fields of a normalised record that event reconstruction reads.
#[derive(Debug)]
pub struct RecordFields {
    /// The artifact the record came from.
    pub artifact_id: ArtifactId,
    /// The record's identifier.
    pub record_id: RecordId,
    /// The record type, such as `connectivity_event` or `dhcp_lease`.
    pub record_type: String,
    /// The `event_kind` field, if it is a string.
    pub event_kind: Option<String>,
    /// The `state` field, if it is a string.
    pub state: Option<String>,
    /// The `ip_address` field, if it is a string.
    pub ip_address: Option<String>,
    /// The `mac_address` field, if it is a string.
    pub mac_address: Option<String>,
    /// The record's instant in nanoseconds, as `record_instant` reads its
    /// `timestamp` (the time of reconstruction when that does not parse).
    pub timestamp_ns: i128,
}

/// A string field, or the empty text when it is absent.
pub open spec fn text_or_empty(s: Option<String>) -> Seq<char> {
    match s {
        Some(t) => t@,
        None => Seq::empty(),
    }
}

/// What reconstruction makes of a record: the kind of event it evidences,
/// or none.
pub open spec fn evidenced_event(r: RecordFields) -> Option<ConnectionEventType> {
    if r.record_type@ == "connectivity_event"@ {
        if r.event_kind is Some && r.event_kind.unwrap()@ == "state_change"@ {
            if text_or_empty(r.state) == "CONNECTED"@ {
                Some(ConnectionEventType::Connected)
            } else {
                Some(ConnectionEventType::Disconnected)
            }
        } else {
            None
        }
    } else if r.record_type@ == "dhcp_lease"@ {
        Some(ConnectionEventType::DhcpLeaseAcquired)
    } else {
        None
    }
}

/// The description of the evidence a record gives.
pub open spec fn evidence_description(r: RecordFields) -> Seq<char> {
    if r.record_type@ == "connectivity_event"@ {
        "Connectivity log state change: WIFI "@ + text_or_empty(r.state)
    } else {
        "DHCP lease acquired: "@ + text_or_empty(r.mac_address)
    }
}

/// The network a record is attributed to, when it is a resolved one: for a
/// connectivity record the first network with a canonical SSID or BSSID,
/// for a DHCP lease the first that observed the lease's BSSID.
pub open spec fn attributed_position(r: RecordFields, ns: Seq<ResolvedNetwork>) -> int {
    if r.record_type@ == "connectivity_event"@ {
        first_named_from(ns, 0)
    } else {
        first_with_bssid_from(ns, text_or_empty(r.mac_address), 0)
    }
}

/// The label of the network a record is attributed to.
pub open spec fn attributed_label(r: RecordFields, ns: Seq<ResolvedNetwork>) -> Seq<char> {
    let fallback = if r.record_type@ == "connectivity_event"@ {
        "WIFI"@
    } else {
        text_or_empty(r.mac_address)
    };
    let k = attributed_position(r, ns);
    if k >= 0 {
        network_label_of(ns[k], fallback)
    } else {
        fallback
    }
}

/// The IP address a record's evidence carries: a DHCP lease's.
pub open spec fn attributed_ip(r: RecordFields) -> Option<Seq<char>> {
    if r.record_type@ == "connectivity_event"@ {
        None
    } else {
        match r.ip_address {
            Some(s) => Some(s@),
            None => None,
        }
    }
}

/// The IP address `ip` as text.
pub open spec fn ip_text(ip: Option<String>) -> Option<Seq<char>> {
    match ip {
        Some(s) => Some(s@),
        None => None,
    }
}

/// The kind of report the acquisition and findings call for.
#[derive(Debug, Clone, Copy, PartialEq, Eq, Structural)]
pub enum ReportKind {
    /// A complete forensic report.
    Complete,
    /// Too little evidence for findings.
    InsufficientEvidence,
}

/// The questions a report cannot answer when the named artifacts are
/// missing.
pub open spec fn unanswerable_of(missing: Seq<String>) -> Seq<Seq<char>> {
    let a: Seq<Seq<char>> = if exists|i: int| 0 <= i < missing.len() && crate::text::has_infix(
        (#[trigger] missing[i])@,
        "WifiConfigStore"@,
    ) {
        seq!["Cannot determine complete list of saved Wi-Fi networks"@]
    } else {
        Seq::empty()
    };
    let b: Seq<Seq<char>> = if exists|i: int| 0 <= i < missing.len() && crate::text::has_infix(
        (#[trigger] missing[i])@,
        "ConnectivityLogs"@,
    ) {
        a.push("Cannot determine precise connection/disconnection timestamps"@)
    } else {
        a
    };
    let c: Seq<Seq<char>> = if exists|i: int| 0 <= i < missing.len() && crate::text::has_infix(
        (#[trigger] missing[i])@,
        "DhcpLeases"@,
    ) {
        b.push("Cannot corroborate connections with DHCP lease evidence"@)
    } else {
        b
    };
    if c.len() == 0 {
        seq!["No specific unanswerable questions identified for this acquisition"@]
    } else {
        c
    }
}

/// `n` in decimal, padded with zeros to at least three digits.
pub open spec fn padded3(n: nat) -> Seq<char> {
    let d = decimal(n);
    if d.len() == 1 {
        "00"@ + d
    } else if d.len() == 2 {
        "0"@ + d
    } else {
        d
    }
}

/// Some overlap names the network labelled `label`.
pub open spec fn overlap_names(os: Seq<TimelineOverlap>, label: Seq<char>) -> bool {
    exists|i: int|
        0 <= i < os.len() && ((#[trigger] os[i]).network_a_label@ == label
            || os[i].network_b_label@ == label)
}

/// The main forensic pipeline: its configuration, investigation and
/// examiner, and how it takes examiner decisions.
#[derive(Debug)]
pub struct ForensicPipeline {
    config: OracleConfig,
    investigation_id: InvestigationId,
    case_name: String,
    examiner: ExaminerIdentity,
    interactive: bool,
    accept_bfu: bool,
}

impl ForensicPipeline {
    /// The investigation.
    pub closed spec fn investigation_spec(&self) -> InvestigationId {
        self.investigation_id
    }

    /// The case name.
    pub closed spec fn case_name_spec(&self) -> Seq<char> {
        self.case_name@
    }

    /// The examiner.
    pub closed spec fn examiner_spec(&self) -> ExaminerIdentity {
        self.examiner
    }

    /// The configuration.
    pub closed spec fn config_spec(&self) -> OracleConfig {
        self.config
    }

    /// The pipeline asks the examiner.
    pub closed spec fn interactive_spec(&self) -> bool {
        self.interactive
    }

    /// The pipeline accepts a locked device without asking.
    pub closed spec fn accept_bfu_spec(&self) -> bool {
        self.accept_bfu
    }

    /// A pipeline for an investigation; it starts interactive and does not
    /// accept a locked device by itself.
    pub fn new(
        config: OracleConfig,
        investigation_id: InvestigationId,
        case_name: String,
        examiner: ExaminerIdentity,
    ) -> (p: ForensicPipeline)
        ensures
            p.investigation_spec() == investigation_id,
            p.case_name_spec() == case_name@,
            p.examiner_spec() == examiner,
            p.config_spec() == config,
            p.interactive_spec(),
            !p.accept_bfu_spec(),
    {
        ForensicPipeline {
            config,
            investigation_id,
            case_name,
            examiner,
            interactive: true,
            accept_bfu: false,
        }
    }

    /// Sets whether the pipeline asks the examiner.
    pub fn set_interactive(&mut self, interactive: bool)
        ensures
            final(self).interactive_spec() == interactive,
            final(self).accept_bfu_spec() == old(self).accept_bfu_spec(),
            final(self).investigation_spec() == old(self).investigation_spec(),
            final(self).case_name_spec() == old(self).case_name_spec(),
            final(self).examiner_spec() == old(self).examiner_spec(),
            final(self).config_spec() == old(self).config_spec(),
    {
        self.interactive = interactive;
    }

    /// Sets whether a locked device is accepted without asking.
    pub fn set_accept_bfu(&mut self, accept: bool)
        ensures
            final(self).accept_bfu_spec() == accept,
            final(self).interactive_spec() == old(self).interactive_spec(),
            final(self).investigation_spec() == old(self).investigation_spec(),
            final(self).case_name_spec() == old(self).case_name_spec(),
            final(self).examiner_spec() == old(self).examiner_spec(),
            final(self).config_spec() == old(self).config_spec(),
    {
        self.accept_bfu = accept;
    }

    /// The investigation this pipeline runs.
    pub fn investigation_id(&self) -> (id: InvestigationId)
        ensures
            id == self.investigation_spec(),
    {
        self.investigation_id
    }

    /// The case name.
    pub fn case_name(&self) -> (s: &str)
        ensures
            s@ == self.case_name_spec(),
    {
        self.case_name.as_str()
    }

    /// The configuration.
    pub fn config(&self) -> (c: &OracleConfig)
        ensures
            *c == self.config_spec(),
    {
        &self.config
    }

    /// The examiner.
    pub fn examiner(&self) -> (x: &ExaminerIdentity)
        ensures
            *x == self.examiner_spec(),
    {
        &self.examiner
    }

    /// Whether the pipeline asks the examiner.
    pub fn is_interactive(&self) -> (b: bool)
        ensures
            b == self.interactive_spec(),
    {
        self.interactive
    }

    /// Whether a locked device is accepted without asking.
    pub fn accepts_bfu(&self) -> (b: bool)
        ensures
            b == self.accept_bfu_spec(),
    {
        self.accept_bfu
    }

    /// The security protocol a normalised label names.
    pub fn map_security_protocol_str(&self, s: &str) -> (r: Option<SecurityProtocol>)
        ensures
            r == protocol_named(s@),
    {
        if str_eq(s, "OPEN") {
            Some(SecurityProtocol::Open)
        } else if str_eq(s, "WEP") {
            Some(SecurityProtocol::Wep)
        } else if str_eq(s, "WPA-PSK") {
            Some(SecurityProtocol::WpaPsk)
        } else if str_eq(s, "WPA2-PSK") {
            Some(SecurityProtocol::Wpa2Psk)
        } else if str_eq(s, "WPA3-SAE") {
            Some(SecurityProtocol::Wpa3Sae)
        } else if str_eq(s, "OWE") {
            Some(SecurityProtocol::Owe)
        } else if str_eq(s, "EAP-TLS") {
            Some(SecurityProtocol::EapTls)
        } else if str_eq(s, "EAP-PEAP") {
            Some(SecurityProtocol::EapPeap)
        } else {
            None
        }
    }

    /// The decision at the before-first-unlock prompt, given what the
    /// examiner typed (read only when the pipeline is interactive).
    pub fn bfu_decision(&self, input: &str) -> (d: ExaminerDecision)
        ensures
            d == bfu_decision_of(self.interactive_spec(), self.accept_bfu_spec(), input@),
    {
        if !self.interactive {
            if self.accept_bfu {
                ExaminerDecision::ProceedPartial
            } else {
                ExaminerDecision::AbortInvestigation
            }
        } else {
            let choice = uppercase(trim(input));
            if str_eq(choice.as_str(), "U") {
                ExaminerDecision::UnlockDevice
            } else if str_eq(choice.as_str(), "P") {
                ExaminerDecision::ProceedPartial
            } else {
                ExaminerDecision::AbortInvestigation
            }
        }
    }

    /// Whether, with the device still locked after an unlock attempt, the
    /// examiner chose to proceed with a partial acquisition (`P`).
    pub fn bfu_retry_proceeds(input: &str) -> (b: bool)
        ensures
            b == choice_is(input@, "P"@),
    {
        let choice = uppercase(trim(input));
        str_eq(choice.as_str(), "P")
    }

    /// The artifact classes shown at the before-first-unlock prompt, with
    /// their encryption zones.
    pub fn bfu_impact_table() -> (rows: Vec<(ArtifactClass, EncryptionZone)>)
        ensures
            rows@ == bfu_impact_rows(),
    {
        let rows = vec![
            (ArtifactClass::WifiConfigStore, EncryptionZone::CredentialEncrypted),
            (ArtifactClass::WpaSupplicant, EncryptionZone::CredentialEncrypted),
            (ArtifactClass::DhcpLeases, EncryptionZone::DeviceEncrypted),
            (ArtifactClass::ConnectivityLogs, EncryptionZone::DeviceEncrypted),
            (ArtifactClass::HostapdLogs, EncryptionZone::CredentialEncrypted),
            (ArtifactClass::BatteryStats, EncryptionZone::DeviceEncrypted),
            (ArtifactClass::KernelLogs, EncryptionZone::DeviceEncrypted),
            (ArtifactClass::DnsCache, EncryptionZone::DeviceEncrypted),
            (ArtifactClass::NetworkPolicy, EncryptionZone::DeviceEncrypted),
            (ArtifactClass::BuildProp, EncryptionZone::DeviceEncrypted),
        ];
        assert(rows@ =~= bfu_impact_rows());
        rows
    }

    /// The status shown for an encryption zone while the device is locked.
    pub fn bfu_status(zone: EncryptionZone) -> (s: String)
        ensures
            s@ == bfu_status_of(zone),
    {
        match zone {
            EncryptionZone::CredentialEncrypted => owned("\u{1F512} LOCKED"),
            _ => owned("\u{2713} ACCESSIBLE"),
        }
    }

    /// The network a connectivity record is attributed to: the first
    /// resolved network with a canonical SSID or BSSID, labelled by it, or a
    /// fresh identity labelled `WIFI`.
    pub fn match_network(&self, resolved: &Vec<ResolvedNetwork>) -> (r: (NetworkIdentityId, String))
        ensures
            ({
                let k = first_named_from(resolved@, 0);
                k >= 0 ==> r.0 == resolved@[k].id && r.1@ == network_label_of(
                    resolved@[k],
                    "WIFI"@,
                )
            }),
            first_named_from(resolved@, 0) < 0 ==> r.1@ == "WIFI"@,
    {
        let n = resolved.len();
        let mut i: usize = 0;
        while i < n
            invariant
                i <= n,
                n == resolved@.len(),
                first_named_from(resolved@, 0) == first_named_from(resolved@, i as int),
            decreases n - i,
        {
            let net = &resolved[i];
            if net.canonical_ssid.is_some() || net.canonical_bssid.is_some() {
                return (net.id, label_or(net, "WIFI"));
            }
            i = i + 1;
        }
        (NetworkIdentityId::new(), owned("WIFI"))
    }

    /// The network a DHCP lease for BSSID `bssid` is attributed to: the
    /// first resolved network that observed the BSSID, labelled by its SSID
    /// or BSSID, or a fresh identity labelled by `bssid`.
    pub fn dhcp_network(resolved: &Vec<ResolvedNetwork>, bssid: &str) -> (r: (NetworkIdentityId, String))
        ensures
            ({
                let k = first_with_bssid_from(resolved@, bssid@, 0);
                k >= 0 ==> r.0 == resolved@[k].id && r.1@ == network_label_of(
                    resolved@[k],
                    bssid@,
                )
            }),
            first_with_bssid_from(resolved@, bssid@, 0) < 0 ==> r.1@ == bssid@,
    {
        let n = resolved.len();
        let mut i: usize = 0;
        while i < n
            invariant
                i <= n,
                n == resolved@.len(),
                first_with_bssid_from(resolved@, bssid@, 0) == first_with_bssid_from(
                    resolved@,
                    bssid@,
                    i as int,
                ),
            decreases n - i,
        {
            let net = &resolved[i];
            if crate::identity::contains_text(&net.observed_bssids, bssid) {
                return (net.id, label_or(net, bssid));
            }
            i = i + 1;
        }
        (NetworkIdentityId::new(), owned(bssid))
    }

    /// Records the evidence that normalised record `record` gives: a
    /// connectivity state change (connected or disconnected) attributed as
    /// `match_network` does, or a DHCP lease attributed as `dhcp_network`
    /// does, carrying the lease's IP address. Other records give none.
    /// Returns the kind of event evidenced.
    pub fn reconstruct_event(
        &self,
        record: &RecordFields,
        resolved: &Vec<ResolvedNetwork>,
        reconstructor: &mut EventReconstructor,
    ) -> (kind: Option<ConnectionEventType>)
        requires
            old(reconstructor).well_formed(),
            old(reconstructor).recorded_spec() < usize::MAX,
            in_time_range(record.timestamp_ns as int),
        ensures
            kind == evidenced_event(*record),
            final(reconstructor).well_formed(),
            match kind {
                Some(ty) => exists|nid: u128, ev: EventEvidence, ip: Option<String>|
                    #[trigger] evidence_recorded(
                        old(reconstructor).events_spec(),
                        final(reconstructor).events_spec(),
                        old(reconstructor).recorded_spec(),
                        ty,
                        nid,
                        attributed_label(*record, resolved@),
                        SecurityProtocol::Unknown,
                        NetworkRole::DeviceAsClient,
                        ev,
                        ip,
                    ) && ev.description@ == evidence_description(*record) && ev.timestamp_ns
                        == record.timestamp_ns && ev.artifact_id == record.artifact_id
                        && ev.record_id == record.record_id && ip_text(ip) == attributed_ip(*record)
                        && (attributed_position(*record, resolved@) >= 0 ==> nid
                        == resolved@[attributed_position(*record, resolved@)].id.0),
                None => true,
            },
            kind is None ==> final(reconstructor).events_spec() == old(reconstructor).events_spec()
                && final(reconstructor).recorded_spec() == old(reconstructor).recorded_spec(),
            kind is Some ==> final(reconstructor).recorded_spec() == old(reconstructor).recorded_spec()
                + 1,
    {
        if str_eq(record.record_type.as_str(), "connectivity_event") {
            let is_state_change = match &record.event_kind {
                Some(k) => str_eq(k.as_str(), "state_change"),
                None => false,
            };
            if !is_state_change {
                return None;
            }
            let state = match &record.state {
                Some(s) => owned(s.as_str()),
                None => String::new(),
            };
            let (network_id, network_label) = self.match_network(resolved);
            let ev_type = if str_eq(state.as_str(), "CONNECTED") {
                ConnectionEventType::Connected
            } else {
                ConnectionEventType::Disconnected
            };
            let evidence = EventEvidence {
                artifact_id: record.artifact_id,
                record_id: record.record_id,
                description: concat("Connectivity log state change: WIFI ", state.as_str()),
                timestamp_ns: record.timestamp_ns,
            };
            let ghost ev = evidence;
            let no_ip: Option<String> = None;
            reconstructor.record_evidence(
                ev_type,
                network_id.0,
                network_label.as_str(),
                SecurityProtocol::Unknown,
                NetworkRole::DeviceAsClient,
                evidence,
                no_ip,
            );
            proof {
                assert(evidence_recorded(
                    old(reconstructor).events_spec(),
                    reconstructor.events_spec(),
                    old(reconstructor).recorded_spec(),
                    ev_type,
                    network_id.0,
                    attributed_label(*record, resolved@),
                    SecurityProtocol::Unknown,
                    NetworkRole::DeviceAsClient,
                    ev,
                    no_ip,
                ));
            }
            Some(ev_type)
        } else if str_eq(record.record_type.as_str(), "dhcp_lease") {
            let ip = match &record.ip_address {
                Some(s) => Some(owned(s.as_str())),
                None => None,
            };
            let bssid = match &record.mac_address {
                Some(s) => owned(s.as_str()),
                None => String::new(),
            };
            let (network_id, network_label) = Self::dhcp_network(resolved, bssid.as_str());
            let evidence = EventEvidence {
                artifact_id: record.artifact_id,
                record_id: record.record_id,
                description: concat("DHCP lease acquired: ", bssid.as_str()),
                timestamp_ns: record.timestamp_ns,
            };
            let ghost ev = evidence;
            let ghost ipg = ip;
            reconstructor.record_evidence(
                ConnectionEventType::DhcpLeaseAcquired,
                network_id.0,
                network_label.as_str(),
                SecurityProtocol::Unknown,
                NetworkRole::DeviceAsClient,
                evidence,
                ip,
            );
            proof {
                assert(evidence_recorded(
                    old(reconstructor).events_spec(),
                    reconstructor.events_spec(),
                    old(reconstructor).recorded_spec(),
                    ConnectionEventType::DhcpLeaseAcquired,
                    network_id.0,
                    attributed_label(*record, resolved@),
                    SecurityProtocol::Unknown,
                    NetworkRole::DeviceAsClient,
                    ev,
                    ipg,
                ));
            }
            Some(ConnectionEventType::DhcpLeaseAcquired)
        } else {
            None
        }
    }

    /// The kind of report: insufficient evidence when acquisition failed or
    /// when artifacts were acquired but gave no findings, else complete.
    pub fn report_kind(acq_state: AcquisitionState, finding_count: usize, artifact_count: usize) -> (k: ReportKind)
        ensures
            k == (if acq_state == AcquisitionState::Failed || (finding_count == 0
                && artifact_count > 0) {
                ReportKind::InsufficientEvidence
            } else {
                ReportKind::Complete
            }),
    {
        if acq_state == AcquisitionState::Failed {
            ReportKind::InsufficientEvidence
        } else if finding_count == 0 && artifact_count > 0 {
            ReportKind::InsufficientEvidence
        } else {
            ReportKind::Complete
        }
    }

    /// The questions the report cannot answer, given the names of the
    /// artifacts that could not be acquired; never empty.
    pub fn unanswerable_questions(missing: &Vec<String>) -> (q: Vec<String>)
        ensures
            q@.map_values(|s: String| s@) == unanswerable_of(missing@),
            q@.len() >= 1,
    {
        let mut q: Vec<String> = Vec::new();
        if any_contains(missing, "WifiConfigStore") {
            q.push(owned("Cannot determine complete list of saved Wi-Fi networks"));
        }
        if any_contains(missing, "ConnectivityLogs") {
            q.push(owned("Cannot determine precise connection/disconnection timestamps"));
        }
        if any_contains(missing, "DhcpLeases") {
            q.push(owned("Cannot corroborate connections with DHCP lease evidence"));
        }
        if q.len() == 0 {
            q.push(owned("No specific unanswerable questions identified for this acquisition"));
        }
        proof {
            assert(q@.map_values(|s: String| s@) =~= unanswerable_of(missing@));
        }
        q
    }

    /// A finding's number: `F-` and the counter, zero-padded to three digits.
    pub fn finding_number(n: u64) -> (s: String)
        ensures
            s@ == "F-"@ + padded3(n as nat),
    {
        numbered("F-", n)
    }

    /// An evidence entry's number: `E-` and the counter, zero-padded to
    /// three digits.
    pub fn evidence_number(n: u64) -> (s: String)
        ensures
            s@ == "E-"@ + padded3(n as nat),
    {
        numbered("E-", n)
    }

    /// A finding's title.
    pub fn finding_title(label: &str) -> (s: String)
        ensures
            s@ == "Device associated with network \""@ + label@ + "\""@,
    {
        let mut s = owned("Device associated with network \"");
        append(&mut s, label);
        append(&mut s, "\"");
        s
    }

    /// Whether a session on the network labelled `label` is contradicted:
    /// an overlap names it, or a conflict names it (`conflict_labels` holds,
    /// for each conflict, the network labels it names).
    pub fn has_contradictions(
        overlaps: &Vec<TimelineOverlap>,
        conflict_labels: &Vec<String>,
        label: &str,
    ) -> (b: bool)
        ensures
            b == (overlap_names(overlaps@, label@) || has_text(conflict_labels@, label@)),
    {
        let mut i: usize = 0;
        while i < overlaps.len()
            invariant
                i <= overlaps@.len(),
                forall|j: int|
                    0 <= j < i ==> (#[trigger] overlaps@[j]).network_a_label@ != label@
                        && overlaps@[j].network_b_label@ != label@,
            decreases overlaps@.len() - i,
        {
            if str_eq(overlaps[i].network_a_label.as_str(), label) || str_eq(
                overlaps[i].network_b_label.as_str(),
                label,
            ) {
                return true;
            }
            i = i + 1;
        }
        crate::identity::contains_text(conflict_labels, label)
    }

    /// The explanations of the overlaps that name the network labelled
    /// `label`, in order.
    pub fn contradictions_for(overlaps: &Vec<TimelineOverlap>, label: &str) -> (r: Vec<String>)
        ensures
            r@.map_values(|s: String| s@) == overlap_explanations(overlaps@, label@, overlaps@.len() as int),
    {
        let mut r: Vec<String> = Vec::new();
        let mut i: usize = 0;
        while i < overlaps.len()
            invariant
                i <= overlaps@.len(),
                r@.map_values(|s: String| s@) == overlap_explanations(overlaps@, label@, i as int),
            decreases overlaps@.len() - i,
        {
            let o = &overlaps[i];
            let ghost before = r@;
            if str_eq(o.network_a_label.as_str(), label) || str_eq(o.network_b_label.as_str(), label) {
                r.push(owned(o.explanation.as_str()));
                proof {
                    assert(r@.map_values(|s: String| s@) =~= before.map_values(|s: String| s@).push(
                        o.explanation@,
                    ));
                }
            }
            i = i + 1;
        }
        r
    }
}

/// The explanations of the first `k` overlaps that name `label`.
pub open spec fn overlap_explanations(os: Seq<TimelineOverlap>, label: Seq<char>, k: int) -> Seq<
    Seq<char>,
>
    decreases k,
{
    if k <= 0 {
        Seq::empty()
    } else {
        let r = overlap_explanations(os, label, k - 1);
        if os[k - 1].network_a_label@ == label || os[k - 1].network_b_label@ == label {
            r.push(os[k - 1].explanation@)
        } else {
            r
        }
    }
}

/// The label of `n`: its SSID, else its BSSID, else `fallback`.
fn label_or(n: &ResolvedNetwork, fallback: &str) -> (s: String)
    ensures
        s@ == network_label_of(*n, fallback@),
{
    match &n.canonical_ssid {
        Some(x) => owned(x.as_str()),
        None => match &n.canonical_bssid {
            Some(b) => owned(b.as_str()),
            None => owned(fallback),
        },
    }
}

/// Some text of `v` contains `needle`.
fn any_contains(v: &Vec<String>, needle: &str) -> (b: bool)
    ensures
        b == exists|i: int| 0 <= i < v@.len() && crate::text::has_infix((#[trigger] v@[i])@, needle@),
{
    let mut i: usize = 0;
    while i < v.len()
        invariant
            i <= v@.len(),
            forall|j: int| 0 <= j < i ==> !crate::text::has_infix((#[trigger] v@[j])@, needle@),
        decreases v@.len() - i,
    {
        if crate::text::str_contains(v[i].as_str(), needle) {
            return true;
        }
        i = i + 1;
    }
    false
}

/// `prefix` followed by `n` zero-padded to three digits.
fn numbered(prefix: &str, n: u64) -> (s: String)
    ensures
        s@ == prefix@ + padded3(n as nat),
{
    let digits = crate::text::decimal_string(n);
    let mut s = owned(prefix);
    let len = crate::text::chars_of(digits.as_str()).len();
    proof {
        assert(decimal(n as nat).len() >= 1) by {
            reveal_with_fuel(decimal, 2);
        }
    }
    if len == 1 {
        append(&mut s, "00");
    } else if len == 2 {
        append(&mut s, "0");
    }
    append(&mut s, digits.as_str());
    proof {
        let d = decimal(n as nat);
        if d.len() == 1 {
            assert(s@ =~= prefix@ + ("00"@ + d));
        } else if d.len() == 2 {
            assert(s@ =~= prefix@ + ("0"@ + d));
        }
    }
    s
}

/// The facts of a finding about one timeline session that do not depend
/// on its score.
#[derive(Debug)]
pub struct FindingFacts {
    /// The class of the artifact behind the session's first evidence.
    pub primary_class: ArtifactClass,
    /// The number of the session's events.
    pub corroboration_count: usize,
    /// The first event's label, when it names the network otherwise than
    /// the session does (and is not the generic `WIFI`).
    pub network_bssid: Option<String>,
    /// The security protocol of the first event.
    pub security_protocol: Option<SecurityProtocol>,
    /// The descriptions of all the session's evidence, event by event.
    pub corroborating_sources: Vec<String>,
    /// The explanations of the overlaps that name the session's network.
    pub contradictions: Vec<String>,
    /// An overlap or a conflict names the session's network.
    pub has_contradictions: bool,
    /// The reasoning before the score: the primary evidence, the
    /// corroboration and, when contradicted, the penalty.
    pub reasoning: Vec<String>,
}

/// The class of the first stored artifact with identifier `id`, or the
/// WiFi configuration store when none is stored.
pub open spec fn stored_class(stored: Seq<(ArtifactId, ArtifactClass)>, id: ArtifactId) -> ArtifactClass
    decreases stored.len(),
{
    if stored.len() == 0 {
        ArtifactClass::WifiConfigStore
    } else if stored[0].0 == id {
        stored[0].1
    } else {
        stored_class(stored.drop_first(), id)
    }
}

/// The primary class of a session whose events are `members` of `es`.
pub open spec fn primary_class_of(
    members: Seq<usize>,
    es: Seq<crate::events::ConnectionEvent>,
    stored: Seq<(ArtifactId, ArtifactClass)>,
) -> ArtifactClass {
    if members.len() > 0 && es[members[0] as int].evidence@.len() > 0 {
        stored_class(stored, es[members[0] as int].evidence@[0].artifact_id)
    } else {
        ArtifactClass::WifiConfigStore
    }
}

/// The evidence descriptions of the first `k` events of `members`.
pub open spec fn sources_upto(members: Seq<usize>, es: Seq<crate::events::ConnectionEvent>, k: int) -> Seq<Seq<char>>
    decreases k,
{
    if k <= 0 {
        Seq::empty()
    } else {
        sources_upto(members, es, k - 1) + es[members[k - 1] as int].evidence@.map_values(
            |e: EventEvidence| e.description@,
        )
    }
}

/// The reasoning before the score.
pub open spec fn reasoning_of(class: ArtifactClass, count: nat, contradicted: bool) -> Seq<Seq<char>> {
    let base = seq![
        "Primary evidence derived from "@ + crate::types::artifact_class_name(class),
        "Corroborated by "@ + decimal(count) + " distinct events across the timeline."@,
    ];
    if contradicted {
        base.push("Contradictory evidence detected; applying confidence penalty."@)
    } else {
        base
    }
}

/// The kind of a possible conflict between two records.
#[derive(Debug, Clone, Copy, PartialEq, Eq, Structural)]
pub enum ConflictKind {
    /// One BSSID claimed with two SSIDs.
    SsidForBssid,
    /// One SSID claimed with two BSSIDs.
    BssidForSsid,
}

/// A pair of records to check for a conflict, by position.
#[derive(Debug, Clone, Copy, PartialEq, Eq, Structural)]
pub struct ConflictCheck {
    pub kind: ConflictKind,
    pub first: usize,
    pub second: usize,
}

/// The BSSID and SSID a normalised record gives, when they are strings.
#[derive(Debug, Clone)]
pub struct NetworkFields {
    pub bssid: Option<String>,
    pub ssid: Option<String>,
}

/// The conflict check of records `a` and `b`, if any: both give a BSSID and
/// an SSID, and they agree on one and not the other.
pub open spec fn conflict_of(a: NetworkFields, b: NetworkFields) -> Option<ConflictKind> {
    if a.bssid is Some && a.ssid is Some && b.bssid is Some && b.ssid is Some {
        if a.bssid.unwrap()@ == b.bssid.unwrap()@ && a.ssid.unwrap()@ != b.ssid.unwrap()@ {
            Some(ConflictKind::SsidForBssid)
        } else if a.ssid.unwrap()@ == b.ssid.unwrap()@ && a.bssid.unwrap()@ != b.bssid.unwrap()@ {
            Some(ConflictKind::BssidForSsid)
        } else {
            None
        }
    } else {
        None
    }
}

/// The checks for record `i` against records `i + 1` up to `j - 1`.
pub open spec fn conflict_row(rs: Seq<NetworkFields>, i: int, j: int) -> Seq<ConflictCheck>
    decreases j - i,
{
    if j <= i + 1 {
        Seq::empty()
    } else {
        let r = conflict_row(rs, i, j - 1);
        match conflict_of(rs[i], rs[j - 1]) {
            Some(k) => r.push(ConflictCheck { kind: k, first: i as usize, second: (j - 1) as usize }),
            None => r,
        }
    }
}

/// The checks for the first `i` records against every later one.
pub open spec fn conflicts_upto(rs: Seq<NetworkFields>, i: int) -> Seq<ConflictCheck>
    decreases i,
{
    if i <= 0 {
        Seq::empty()
    } else {
        conflicts_upto(rs, i - 1) + conflict_row(rs, i - 1, rs.len() as int)
    }
}

/// `f` is the facts of the finding about `session`, whose events are in
/// `events`, given the stored artifacts' classes, the timeline's overlaps
/// and the network labels the conflicts name.
pub open spec fn facts_fit(
    f: FindingFacts,
    session: crate::timeline::TimelineSession,
    events: Seq<crate::events::ConnectionEvent>,
    stored: Seq<(ArtifactId, ArtifactClass)>,
    overlaps: Seq<TimelineOverlap>,
    conflict_labels: Seq<String>,
) -> bool {
    let m = session.event_indices@;
    &&& f.primary_class == primary_class_of(m, events, stored)
    &&& f.corroboration_count == m.len()
    &&& f.network_bssid.is_some() == (m.len() > 0 && {
        let l = events[m[0] as int].network_label@;
        l != "WIFI"@ && l != session.network_label@
    })
    &&& f.network_bssid matches Some(b) ==> b@ == events[m[0] as int].network_label@
    &&& f.security_protocol == (if m.len() > 0 {
        Some(events[m[0] as int].security_protocol)
    } else {
        None
    })
    &&& f.corroborating_sources@.map_values(|s: String| s@) == sources_upto(m, events, m.len() as int)
    &&& f.contradictions@.map_values(|s: String| s@) == overlap_explanations(
        overlaps,
        session.network_label@,
        overlaps.len() as int,
    )
    &&& f.has_contradictions == (overlap_names(overlaps, session.network_label@) || has_text(
        conflict_labels,
        session.network_label@,
    ))
    &&& f.reasoning@.map_values(|s: String| s@) == reasoning_of(
        f.primary_class,
        m.len(),
        f.has_contradictions,
    )
}

/// A finding about one timeline session, before it is scored.
#[derive(Debug)]
pub struct SessionFinding {
    /// `F-001`, `F-002`, ... in session order.
    pub finding_number: String,
    /// `Device associated with network "<label>"`.
    pub title: String,
    /// The facts of the session's evidence.
    pub facts: FindingFacts,
}

/// Every event index of every session lies within `n` events.
pub open spec fn sessions_index_within(sessions: Seq<crate::timeline::TimelineSession>, n: nat) -> bool {
    forall|s: int, j: int|
        0 <= s < sessions.len() && 0 <= j < sessions[s].event_indices@.len() ==> #[trigger] sessions[s].event_indices@[j]
            < n
}

impl ForensicPipeline {
    /// The facts of the finding about session `session`, whose events are
    /// in `events`, given the stored artifacts' classes, the timeline's
    /// overlaps and the network labels the conflicts name.
    pub fn finding_facts(
        session: &crate::timeline::TimelineSession,
        events: &Vec<crate::events::ConnectionEvent>,
        stored: &Vec<(ArtifactId, ArtifactClass)>,
        overlaps: &Vec<TimelineOverlap>,
        conflict_labels: &Vec<String>,
    ) -> (f: FindingFacts)
        requires
            forall|j: int|
                0 <= j < session.event_indices@.len() ==> #[trigger] session.event_indices@[j]
                    < events@.len(),
        ensures
            facts_fit(f, *session, events@, stored@, overlaps@, conflict_labels@),
    {
        let m = &session.event_indices;
        let n = m.len();
        let label = session.network_label.as_str();
        let mut primary_class = ArtifactClass::WifiConfigStore;
        let mut network_bssid: Option<String> = None;
        let mut security_protocol: Option<SecurityProtocol> = None;
        if n > 0 {
            let first = &events[m[0]];
            assert(m@[0] < events@.len());
            if first.evidence.len() > 0 {
                primary_class = class_of_artifact(stored, first.evidence[0].artifact_id);
            }
            if !str_eq(first.network_label.as_str(), "WIFI") && !str_eq(first.network_label.as_str(), label) {
                network_bssid = Some(owned(first.network_label.as_str()));
            }
            security_protocol = Some(first.security_protocol);
        }
        let mut sources: Vec<String> = Vec::new();
        let mut k: usize = 0;
        while k < n
            invariant
                k <= n,
                n == m@.len(),
                *m == session.event_indices,
                forall|j: int| 0 <= j < m@.len() ==> #[trigger] m@[j] < events@.len(),
                sources@.map_values(|s: String| s@) == sources_upto(m@, events@, k as int),
            decreases n - k,
        {
            assert(m@[k as int] < events@.len());
            let ev = &events[m[k]];
            let ghost start = sources@.map_values(|s: String| s@);
            let mut q: usize = 0;
            while q < ev.evidence.len()
                invariant
                    q <= ev.evidence@.len(),
                    sources@.map_values(|s: String| s@) == start + ev.evidence@.subrange(0, q as int).map_values(
                        |e: EventEvidence| e.description@,
                    ),
                decreases ev.evidence@.len() - q,
            {
                let ghost before = sources@;
                sources.push(owned(ev.evidence[q].description.as_str()));
                proof {
                    assert(ev.evidence@.subrange(0, q as int + 1).map_values(|e: EventEvidence| e.description@)
                        =~= ev.evidence@.subrange(0, q as int).map_values(|e: EventEvidence| e.description@).push(
                        ev.evidence@[q as int].description@,
                    ));
                    assert(sources@.map_values(|s: String| s@) =~= before.map_values(|s: String| s@).push(
                        ev.evidence@[q as int].description@,
                    ));
                }
                q = q + 1;
            }
            proof {
                assert(ev.evidence@.subrange(0, ev.evidence@.len() as int) =~= ev.evidence@);
            }
            k = k + 1;
        }
        let contradictions = Self::contradictions_for(overlaps, label);
        let has_contradictions = Self::has_contradictions(overlaps, conflict_labels, label);
        let mut reasoning: Vec<String> = Vec::new();
        let class_name = primary_class.debug_name();
        reasoning.push(concat("Primary evidence derived from ", class_name.as_str()));
        let count = crate::text::decimal_string(n as u64);
        let mut line = owned("Corroborated by ");
        append(&mut line, count.as_str());
        append(&mut line, " distinct events across the timeline.");
        reasoning.push(line);
        if has_contradictions {
            reasoning.push(owned("Contradictory evidence detected; applying confidence penalty."));
        }
        proof {
            assert(reasoning@.map_values(|s: String| s@) =~= reasoning_of(primary_class, n as nat, has_contradictions));
        }
        FindingFacts {
            primary_class,
            corroboration_count: n,
            network_bssid,
            security_protocol,
            corroborating_sources: sources,
            contradictions,
            has_contradictions,
            reasoning,
        }
    }

    /// The unscored findings of a timeline: one per session, in session
    /// order, numbered from `F-001`, each titled with the session's network
    /// and holding the `finding_facts` of the session.
    pub fn session_findings(
        sessions: &Vec<crate::timeline::TimelineSession>,
        events: &Vec<crate::events::ConnectionEvent>,
        stored: &Vec<(ArtifactId, ArtifactClass)>,
        overlaps: &Vec<TimelineOverlap>,
        conflict_labels: &Vec<String>,
    ) -> (r: Vec<SessionFinding>)
        requires
            sessions@.len() < u64::MAX,
            sessions_index_within(sessions@, events@.len()),
        ensures
            r@.len() == sessions@.len(),
            forall|k: int|
                0 <= k < r@.len() ==> {
                    &&& (#[trigger] r@[k]).finding_number@ == "F-"@ + padded3((k + 1) as nat)
                    &&& r@[k].title@ == "Device associated with network \""@ + sessions@[k].network_label@
                        + "\""@
                    &&& facts_fit(r@[k].facts, sessions@[k], events@, stored@, overlaps@, conflict_labels@)
                },
    {
        let mut r: Vec<SessionFinding> = Vec::new();
        let mut i: usize = 0;
        while i < sessions.len()
            invariant
                i <= sessions@.len(),
                sessions@.len() < u64::MAX,
                sessions_index_within(sessions@, events@.len()),
                r@.len() == i,
                forall|k: int|
                    0 <= k < i ==> {
                        &&& (#[trigger] r@[k]).finding_number@ == "F-"@ + padded3((k + 1) as nat)
                        &&& r@[k].title@ == "Device associated with network \""@
                            + sessions@[k].network_label@ + "\""@
                        &&& facts_fit(
                            r@[k].facts,
                            sessions@[k],
                            events@,
                            stored@,
                            overlaps@,
                            conflict_labels@,
                        )
                    },
            decreases sessions@.len() - i,
        {
            let session = &sessions[i];
            proof {
                assert forall|j: int| 0 <= j < session.event_indices@.len() implies #[trigger] session.event_indices@[j]
                    < events@.len() by {
                    assert(sessions@[i as int].event_indices@[j] < events@.len());
                }
            }
            let facts = Self::finding_facts(session, events, stored, overlaps, conflict_labels);
            let finding = SessionFinding {
                finding_number: Self::finding_number((i + 1) as u64),
                title: Self::finding_title(session.network_label.as_str()),
                facts,
            };
            r.push(finding);
            i = i + 1;
        }
        r
    }

    /// The pairs of normalised records to check for conflicts, pair by pair
    /// in order: one BSSID with two SSIDs, or one SSID with two BSSIDs.
    pub fn detect_conflicts(records: &Vec<NetworkFields>) -> (r: Vec<ConflictCheck>)
        ensures
            r@ == conflicts_upto(records@, records@.len() as int),
    {
        let mut out: Vec<ConflictCheck> = Vec::new();
        let n = records.len();
        let mut i: usize = 0;
        while i < n
            invariant
                i <= n,
                n == records@.len(),
                out@ == conflicts_upto(records@, i as int),
            decreases n - i,
        {
            let ghost row_start = out@;
            let mut j: usize = i + 1;
            while j < n
                invariant
                    i < n,
                    i + 1 <= j <= n,
                    n == records@.len(),
                    row_start == conflicts_upto(records@, i as int),
                    out@ == row_start + conflict_row(records@, i as int, j as int),
                decreases n - j,
            {
                let k = conflict_between(&records[i], &records[j]);
                let ghost before = out@;
                match k {
                    Some(kind) => {
                        out.push(ConflictCheck { kind, first: i, second: j });
                    },
                    None => {},
                }
                proof {
                    let r = conflict_row(records@, i as int, j as int);
                    if k is Some {
                        let x = ConflictCheck { kind: k.unwrap(), first: i, second: j };
                        assert((row_start + r).push(x) =~= row_start + r.push(x));
                    }
                }
                j = j + 1;
            }
            proof {
                assert(conflicts_upto(records@, i as int + 1) == conflicts_upto(records@, i as int)
                    + conflict_row(records@, i as int, n as int));
            }
            i = i + 1;
        }
        out
    }
}

/// The class of the first stored artifact with identifier `id`.
fn class_of_artifact(stored: &Vec<(ArtifactId, ArtifactClass)>, id: ArtifactId) -> (c: ArtifactClass)
    ensures
        c == stored_class(stored@, id),
{
    let mut i: usize = 0;
    assert(stored@.subrange(0, stored@.len() as int) =~= stored@);
    while i < stored.len()
        invariant
            i <= stored@.len(),
            stored_class(stored@, id) == stored_class(stored@.subrange(i as int, stored@.len() as int), id),
        decreases stored@.len() - i,
    {
        let ghost rest = stored@.subrange(i as int, stored@.len() as int);
        assert(rest.drop_first() =~= stored@.subrange(i as int + 1, stored@.len() as int));
        if stored[i].0.0 == id.0 {
            return stored[i].1;
        }
        i = i + 1;
    }
    ArtifactClass::WifiConfigStore
}

/// The conflict check of two records, if any.
fn conflict_between(a: &NetworkFields, b: &NetworkFields) -> (k: Option<ConflictKind>)
    ensures
        k == conflict_of(*a, *b),
{
    match (&a.bssid, &a.ssid, &b.bssid, &b.ssid) {
        (Some(ba), Some(sa), Some(bb), Some(sb)) => {
            let same_b = str_eq(ba.as_str(), bb.as_str());
            let same_s = str_eq(sa.as_str(), sb.as_str());
            if same_b && !same_s {
                Some(ConflictKind::SsidForBssid)
            } else if same_s && !same_b {
                Some(ConflictKind::BssidForSsid)
            } else {
                None
            }
        },
        _ => None,
    }
}

/// What becomes of the investigation at the before-first-unlock prompt.
#[derive(Debug, Clone, Copy, PartialEq, Eq, Structural)]
pub enum BfuOutcome {
    /// Proceed with the profile detected before the prompt.
    ProceedWithDetected,
    /// Proceed with the profile detected again after the unlock attempt.
    ProceedWithRedetected,
    /// The examiner aborted the investigation.
    Abort,
    /// Detection after the unlock attempt failed.
    DetectionFailed,
}

/// How the prompt is resolved and what the audit log records of it: the
/// result and details (compact JSON) of the decision's entry, and whether
/// the run's own intent is closed as aborted.
#[derive(Debug)]
pub struct BfuResolution {
    pub outcome: BfuOutcome,
    pub decision_result: crate::types::AuditResult,
    pub decision_details: String,
    pub run_aborted: bool,
}

/// The variant name of an examiner decision.
pub open spec fn decision_name(d: ExaminerDecision) -> Seq<char> {
    match d {
        ExaminerDecision::UnlockDevice => "UnlockDevice"@,
        ExaminerDecision::ProceedPartial => "ProceedPartial"@,
        ExaminerDecision::AbortInvestigation => "AbortInvestigation"@,
    }
}

/// The resolution is the one described.
pub open spec fn resolved_as(
    r: BfuResolution,
    outcome: BfuOutcome,
    result: crate::types::AuditResult,
    details: Seq<char>,
    run_aborted: bool,
) -> bool {
    &&& r.outcome == outcome
    &&& r.decision_result == result
    &&& r.decision_details@ == details
    &&& r.run_aborted == run_aborted
}

/// The failure text of an aborted investigation.
pub open spec fn failure_text(r: crate::types::AuditResult) -> Option<Seq<char>> {
    match r {
        crate::types::AuditResult::Failure(s) => Some(s@),
        _ => None,
    }
}

impl ForensicPipeline {
    /// The operation recorded for the examiner's decision at the prompt.
    pub fn bfu_operation() -> (op: crate::types::AuditOperationType)
        ensures
            op matches crate::types::AuditOperationType::Custom(s) && s@ == "BfuExaminerDecision"@,
    {
        crate::types::AuditOperationType::Custom(owned("BfuExaminerDecision"))
    }

    /// The details recorded with the examiner's decision (compact JSON).
    pub fn bfu_intent_details(decision: ExaminerDecision) -> (s: String)
        ensures
            s@ == "{\"decision\":\""@ + decision_name(decision)
                + "\",\"encryption_state\":\"BeforeFirstUnlock\"}"@,
    {
        let name = match decision {
            ExaminerDecision::UnlockDevice => "UnlockDevice",
            ExaminerDecision::ProceedPartial => "ProceedPartial",
            ExaminerDecision::AbortInvestigation => "AbortInvestigation",
        };
        let mut s = owned("{\"decision\":\"");
        append(&mut s, name);
        append(&mut s, "\",\"encryption_state\":\"BeforeFirstUnlock\"}");
        s
    }

    /// The resolution of a decision that needs no further step: a partial
    /// acquisition proceeds with the detected profile; an abort is recorded
    /// as a failure and closes the run. An unlock attempt needs detecting
    /// again, so it has none yet.
    pub fn bfu_resolution_for(decision: ExaminerDecision) -> (r: Option<BfuResolution>)
        ensures
            decision == ExaminerDecision::UnlockDevice <==> r is None,
            decision == ExaminerDecision::ProceedPartial ==> (r matches Some(x) && resolved_as(
                x,
                BfuOutcome::ProceedWithDetected,
                crate::types::AuditResult::Success,
                "{\"action\":\"PARTIAL_BFU_ACKNOWLEDGED\"}"@,
                false,
            )),
            decision == ExaminerDecision::AbortInvestigation ==> (r matches Some(x) && x.outcome
                == BfuOutcome::Abort && failure_text(x.decision_result) == Some(
                "INVESTIGATION_ABORTED_BFU"@,
            ) && x.decision_details@ == "{}"@ && x.run_aborted),
    {
        match decision {
            ExaminerDecision::UnlockDevice => None,
            ExaminerDecision::ProceedPartial => Some(
                BfuResolution {
                    outcome: BfuOutcome::ProceedWithDetected,
                    decision_result: crate::types::AuditResult::Success,
                    decision_details: owned("{\"action\":\"PARTIAL_BFU_ACKNOWLEDGED\"}"),
                    run_aborted: false,
                },
            ),
            ExaminerDecision::AbortInvestigation => Some(
                BfuResolution {
                    outcome: BfuOutcome::Abort,
                    decision_result: crate::types::AuditResult::Failure(
                        owned("INVESTIGATION_ABORTED_BFU"),
                    ),
                    decision_details: owned("{}"),
                    run_aborted: true,
                },
            ),
        }
    }

    /// Whether detecting again after the unlock attempt found the device
    /// still locked, so that the examiner must choose between a partial
    /// acquisition and an abort.
    pub fn bfu_needs_retry_choice(redetected: &Result<EncryptionState, String>) -> (b: bool)
        ensures
            b == (*redetected == Ok::<EncryptionState, String>(EncryptionState::BeforeFirstUnlock)),
    {
        match redetected {
            Ok(EncryptionState::BeforeFirstUnlock) => true,
            _ => false,
        }
    }

    /// The resolution after the unlock attempt, given what detecting again
    /// found (the encryption state, or the error text) and, when the device
    /// is still locked, what the examiner typed: `P` proceeds with the new
    /// profile, anything else aborts; an unlocked device proceeds with the
    /// new profile; a failed detection is recorded with its error.
    pub fn bfu_resolution_after_unlock(
        redetected: &Result<EncryptionState, String>,
        retry_input: &str,
    ) -> (r: BfuResolution)
        ensures
            match *redetected {
                Err(e) => r.outcome == BfuOutcome::DetectionFailed && failure_text(r.decision_result)
                    == Some(e@) && r.decision_details@ == "{}"@ && !r.run_aborted,
                Ok(EncryptionState::BeforeFirstUnlock) => if choice_is(retry_input@, "P"@) {
                    resolved_as(
                        r,
                        BfuOutcome::ProceedWithRedetected,
                        crate::types::AuditResult::Success,
                        "{\"action\":\"PARTIAL_BFU_ACKNOWLEDGED_AFTER_RETRY\"}"@,
                        false,
                    )
                } else {
                    r.outcome == BfuOutcome::Abort && failure_text(r.decision_result) == Some(
                        "INVESTIGATION_ABORTED_BFU_AFTER_RETRY"@,
                    ) && r.decision_details@ == "{}"@ && r.run_aborted
                },
                Ok(state) => resolved_as(
                    r,
                    BfuOutcome::ProceedWithRedetected,
                    crate::types::AuditResult::Success,
                    "{\"action\":\"DEVICE_UNLOCKED\",\"new_encryption_state\":\""@
                        + crate::types::encryption_state_name(state) + "\"}"@,
                    false,
                ),
            },
    {
        match redetected {
            Err(e) => BfuResolution {
                outcome: BfuOutcome::DetectionFailed,
                decision_result: crate::types::AuditResult::Failure(owned(e.as_str())),
                decision_details: owned("{}"),
                run_aborted: false,
            },
            Ok(EncryptionState::BeforeFirstUnlock) => {
                if Self::bfu_retry_proceeds(retry_input) {
                    BfuResolution {
                        outcome: BfuOutcome::ProceedWithRedetected,
                        decision_result: crate::types::AuditResult::Success,
                        decision_details: owned(
                            "{\"action\":\"PARTIAL_BFU_ACKNOWLEDGED_AFTER_RETRY\"}",
                        ),
                        run_aborted: false,
                    }
                } else {
                    BfuResolution {
                        outcome: BfuOutcome::Abort,
                        decision_result: crate::types::AuditResult::Failure(
                            owned("INVESTIGATION_ABORTED_BFU_AFTER_RETRY"),
                        ),
                        decision_details: owned("{}"),
                        run_aborted: true,
                    }
                }
            },
            Ok(state) => {
                let name = state.debug_name();
                let mut d = owned("{\"action\":\"DEVICE_UNLOCKED\",\"new_encryption_state\":\"");
                append(&mut d, name.as_str());
                append(&mut d, "\"}");
                BfuResolution {
                    outcome: BfuOutcome::ProceedWithRedetected,
                    decision_result: crate::types::AuditResult::Success,
                    decision_details: d,
                    run_aborted: false,
                }
            },
        }
    }
}

} // verus!
