//! The texts of the signed report that do not depend on a score: the
//! evidence limitations, the investigation summary and the finding
//! descriptions; and the audit records of artifact state transitions.

use vstd::prelude::*;
use crate::ai::{join_first, joined, joined_first};
use crate::json::{json_quoted, json_string};
use crate::pipeline::{padded3, unanswerable_of, ForensicPipeline};
use crate::text::{append, chars_of, decimal, decimal_string, has_infix, owned, parse_u64, parsed_u64, str_contains};
use crate::timeline::NANOS_PER_SEC;
use crate::types::{
    artifact_class_name, ArtifactClass, AuditOperationType, DeviceIdentity, EncryptionState,
    InaccessibleArtifactClass,
};

verus! {

/// The description of what the before-first-unlock state took away.
pub open spec fn bfu_impact_text() -> Seq<char> {
    "Device was in Before First Unlock (BFU) state during acquisition. Credential Encrypted (CE) storage was inaccessible, including WifiConfigStore.xml and wpa_supplicant.conf. Only Device Encrypted (DE) artifacts were recoverable."@
}

/// The line of the limitations for a class that could not be reached.
pub open spec fn inaccessible_class_line(i: InaccessibleArtifactClass) -> Seq<char> {
    artifact_class_name(i.artifact_class) + ": "@ + i.reason@
}

/// The narrative of the evidence limitations: `acquired` of `expected`
/// artifacts were acquired, `percent` is the completeness already written
/// with one decimal, and `missing` names what could not be acquired.
pub open spec fn narrative_of(
    bfu: bool,
    acquired: nat,
    expected: nat,
    percent: Seq<char>,
    missing: Seq<Seq<char>>,
) -> Seq<char> {
    if bfu {
        "This investigation was conducted on a device in BFU state. "@ + decimal(acquired) + " of "@
            + decimal(expected) + " expected artifacts were acquired ("@ + percent
            + "% completeness). The following artifact classes were inaccessible: "@ + joined(missing)
            + ". Findings are based only on available evidence and may be incomplete."@
    } else if missing.len() > 0 {
        decimal(acquired) + " of "@ + decimal(expected) + " expected artifacts were acquired ("@
            + percent + "% completeness). The following artifact classes could not be acquired: "@
            + joined(missing) + ". This may limit the scope of findings."@
    } else {
        "All "@ + decimal(expected)
            + " expected artifacts were successfully acquired (100% completeness). No significant evidence limitations were identified."@
    }
}

/// The text chrono writes for the instant `secs` seconds after the Unix
/// epoch (UTC) under the format `%Y-%m-%d %H:%M:%S`.
pub uninterp spec fn utc_second_text(secs: i64) -> Seq<char>;

/// The largest number of seconds either side of the epoch that the
/// report's instants may lie at; chrono represents every instant within
/// (its years run from -262143 to 262142).
pub const INSTANT_LIMIT_SECS: i64 = 8_000_000_000_000;

/// Calls `chrono::DateTime::<Utc>::from_timestamp(secs, 0)` and formats the
/// instant with `%Y-%m-%d %H:%M:%S`. The crate returns `None` only for
/// seconds outside its range of dates, which spans more than
/// `INSTANT_LIMIT_SECS` either side of the epoch.
#[verifier::external_body]
fn utc_second_format(secs: i64) -> (r: Option<String>)
    ensures
        -INSTANT_LIMIT_SECS <= secs <= INSTANT_LIMIT_SECS ==> r is Some,
        r matches Some(t) ==> t@ == utc_second_text(secs),
{
    match chrono::DateTime::<chrono::Utc>::from_timestamp(secs, 0) {
        Some(t) => Some(t.format("%Y-%m-%d %H:%M:%S").to_string()),
        None => None,
    }
}

/// The instant `ns` nanoseconds after the epoch lies within the report's
/// range.
pub open spec fn reportable_instant(ns: int) -> bool {
    -(INSTANT_LIMIT_SECS as int) * (NANOS_PER_SEC as int) <= ns <= (INSTANT_LIMIT_SECS as int)
        * (NANOS_PER_SEC as int)
}

/// The report's text of the instant `ns` nanoseconds after the epoch: the
/// second that holds it, then ` UTC`.
pub open spec fn instant_text(ns: int) -> Seq<char> {
    utc_second_text((ns / (NANOS_PER_SEC as int)) as i64) + " UTC"@
}

/// The report's text of an instant: its second, as chrono writes it
/// under `%Y-%m-%d %H:%M:%S`, and ` UTC`.
pub fn instant_string(ns: i128) -> (r: String)
    requires
        reportable_instant(ns as int),
    ensures
        r@ == instant_text(ns as int),
{
    let secs: i128 = if ns >= 0 {
        ns / NANOS_PER_SEC
    } else {
        let up = (0 - ns) / NANOS_PER_SEC;
        if up * NANOS_PER_SEC == 0 - ns {
            0 - up
        } else {
            0 - up - 1
        }
    };
    assert(secs == ns as int / (NANOS_PER_SEC as int)) by (nonlinear_arith)
        requires
            secs == (if ns >= 0 {
                ns as int / 1_000_000_000
            } else if ((0 - ns) as int / 1_000_000_000) * 1_000_000_000 == 0 - ns {
                0 - ((0 - ns) as int / 1_000_000_000)
            } else {
                0 - ((0 - ns) as int / 1_000_000_000) - 1
            }),
            NANOS_PER_SEC == 1_000_000_000,
    ;
    assert(-INSTANT_LIMIT_SECS <= secs <= INSTANT_LIMIT_SECS) by (nonlinear_arith)
        requires
            secs == ns as int / 1_000_000_000,
            -8_000_000_000_000 * 1_000_000_000 <= ns <= 8_000_000_000_000 * 1_000_000_000,
    ;
    let s = secs as i64;
    match utc_second_format(s) {
        Some(t) => {
            let mut r = t;
            append(&mut r, " UTC");
            r
        },
        None => {
            proof {
                assert(false);
            }
            String::new()
        },
    }
}

/// `text`, or `N/A` when there is none.
pub open spec fn or_not_available(text: Option<Seq<char>>) -> Seq<char> {
    match text {
        Some(t) => t,
        None => "N/A"@,
    }
}

/// The investigation window: the first and the last instant, each as text
/// or `N/A`, joined by ` to `.
pub open spec fn window_of(earliest: Option<Seq<char>>, latest: Option<Seq<char>>) -> Seq<char> {
    or_not_available(earliest) + " to "@ + or_not_available(latest)
}

/// The instant's text, when there is an instant.
pub open spec fn optional_instant_text(ns: Option<i128>) -> Option<Seq<char>> {
    match ns {
        Some(t) => Some(instant_text(t as int)),
        None => None,
    }
}

/// The description of a finding about the network `label` between two
/// instants, given as text.
pub open spec fn finding_description_of(label: Seq<char>, start: Seq<char>, end: Seq<char>) -> Seq<char> {
    "Forensic timeline analysis indicates device associated with network \""@ + label
        + "\" between "@ + start + " and "@ + end + "."@
}

/// The format name under which a raw timestamp is read: ISO 8601 when it
/// holds both `-` and `:`; a Unix epoch in milliseconds when it is a `u64`
/// of more than ten characters, in seconds when a shorter one; otherwise a
/// logcat timestamp.
pub open spec fn timestamp_format_of(ts: Seq<char>) -> Seq<char> {
    if has_infix(ts, "-"@) && has_infix(ts, ":"@) {
        "iso8601"@
    } else if parsed_u64(ts) is Some {
        if ts.len() > 10 {
            "unix_epoch_ms"@
        } else {
            "unix_epoch_s"@
        }
    } else {
        "android_logcat"@
    }
}

/// The line of the summary for a key finding.
pub open spec fn key_finding_line(f: (String, String)) -> Seq<char> {
    f.0@ + ": "@ + f.1@
}

impl ForensicPipeline {
    /// The description of the before-first-unlock impact, for a device in
    /// that state.
    pub fn bfu_impact_description(state: EncryptionState) -> (r: Option<String>)
        ensures
            state == EncryptionState::BeforeFirstUnlock <==> r is Some,
            r matches Some(t) ==> t@ == bfu_impact_text(),
    {
        match state {
            EncryptionState::BeforeFirstUnlock => Some(
                owned(
                    "Device was in Before First Unlock (BFU) state during acquisition. Credential Encrypted (CE) storage was inaccessible, including WifiConfigStore.xml and wpa_supplicant.conf. Only Device Encrypted (DE) artifacts were recoverable.",
                ),
            ),
            _ => None,
        }
    }

    /// One line per class the profile could not reach: the class and the
    /// reason.
    pub fn inaccessible_class_lines(inacc: &Vec<InaccessibleArtifactClass>) -> (r: Vec<String>)
        ensures
            r@.map_values(|s: String| s@) == inacc@.map_values(
                |i: InaccessibleArtifactClass| inaccessible_class_line(i),
            ),
    {
        let mut r: Vec<String> = Vec::new();
        let mut k: usize = 0;
        while k < inacc.len()
            invariant
                k <= inacc@.len(),
                r@.map_values(|s: String| s@) == inacc@.take(k as int).map_values(
                    |i: InaccessibleArtifactClass| inaccessible_class_line(i),
                ),
            decreases inacc@.len() - k,
        {
            let item = &inacc[k];
            let mut line = item.artifact_class.debug_name();
            append(&mut line, ": ");
            append(&mut line, item.reason.as_str());
            let ghost before = r@;
            r.push(line);
            proof {
                assert(inacc@.take(k as int + 1) =~= inacc@.take(k as int).push(inacc@[k as int]));
                assert(r@.map_values(|s: String| s@) =~= before.map_values(|s: String| s@).push(
                    inaccessible_class_line(inacc@[k as int]),
                ));
            }
            k = k + 1;
        }
        proof {
            assert(inacc@.take(inacc@.len() as int) =~= inacc@);
        }
        r
    }

    /// The narrative of the evidence limitations. `percent` is the
    /// completeness already written with one decimal.
    pub fn limitations_narrative(
        bfu: bool,
        acquired: usize,
        expected: usize,
        percent: &str,
        missing: &Vec<String>,
    ) -> (r: String)
        ensures
            r@ == narrative_of(
                bfu,
                acquired as nat,
                expected as nat,
                percent@,
                missing@.map_values(|s: String| s@),
            ),
    {
        let ghost views = missing@.map_values(|s: String| s@);
        let names = join_first(missing, missing.len());
        proof {
            assert(views.take(views.len() as int) =~= views);
        }
        let a = decimal_string(acquired as u64);
        let e = decimal_string(expected as u64);
        if bfu {
            let mut r = owned("This investigation was conducted on a device in BFU state. ");
            append(&mut r, a.as_str());
            append(&mut r, " of ");
            append(&mut r, e.as_str());
            append(&mut r, " expected artifacts were acquired (");
            append(&mut r, percent);
            append(&mut r, "% completeness). The following artifact classes were inaccessible: ");
            append(&mut r, names.as_str());
            append(&mut r, ". Findings are based only on available evidence and may be incomplete.");
            r
        } else if missing.len() > 0 {
            let mut r = a;
            append(&mut r, " of ");
            append(&mut r, e.as_str());
            append(&mut r, " expected artifacts were acquired (");
            append(&mut r, percent);
            append(&mut r, "% completeness). The following artifact classes could not be acquired: ");
            append(&mut r, names.as_str());
            append(&mut r, ". This may limit the scope of findings.");
            r
        } else {
            let mut r = owned("All ");
            append(&mut r, e.as_str());
            append(
                &mut r,
                " expected artifacts were successfully acquired (100% completeness). No significant evidence limitations were identified.",
            );
            r
        }
    }

    /// The device as the summary describes it: maker, model and serial.
    pub fn device_description(device: &DeviceIdentity) -> (r: String)
        ensures
            r@ == device.manufacturer@ + " "@ + device.model@ + " (Serial: "@ + device.serial@ + ")"@,
    {
        let mut r = owned(device.manufacturer.as_str());
        append(&mut r, " ");
        append(&mut r, device.model.as_str());
        append(&mut r, " (Serial: ");
        append(&mut r, device.serial.as_str());
        append(&mut r, ")");
        r
    }

    /// The investigation window from the texts of its first and last
    /// instants, `N/A` standing for a missing one.
    pub fn window_text(earliest: Option<String>, latest: Option<String>) -> (r: String)
        ensures
            r@ == window_of(
                match earliest {
                    Some(t) => Some(t@),
                    None => None,
                },
                match latest {
                    Some(t) => Some(t@),
                    None => None,
                },
            ),
    {
        let mut r = match earliest {
            Some(t) => t,
            None => owned("N/A"),
        };
        append(&mut r, " to ");
        match latest {
            Some(t) => append(&mut r, t.as_str()),
            None => append(&mut r, "N/A"),
        }
        r
    }

    /// The investigation window of a timeline's first and last instants.
    pub fn investigation_window(earliest_ns: Option<i128>, latest_ns: Option<i128>) -> (r: String)
        requires
            earliest_ns matches Some(t) ==> reportable_instant(t as int),
            latest_ns matches Some(t) ==> reportable_instant(t as int),
        ensures
            r@ == window_of(optional_instant_text(earliest_ns), optional_instant_text(latest_ns)),
    {
        let e = match earliest_ns {
            Some(t) => Some(instant_string(t)),
            None => None,
        };
        let l = match latest_ns {
            Some(t) => Some(instant_string(t)),
            None => None,
        };
        Self::window_text(e, l)
    }

    /// The description of the finding about the network `label` between
    /// the instants `start_ns` and `end_ns`.
    pub fn finding_description(label: &str, start_ns: i128, end_ns: i128) -> (r: String)
        requires
            reportable_instant(start_ns as int),
            reportable_instant(end_ns as int),
        ensures
            r@ == finding_description_of(label@, instant_text(start_ns as int), instant_text(end_ns as int)),
    {
        let s = instant_string(start_ns);
        let e = instant_string(end_ns);
        let mut r = owned("Forensic timeline analysis indicates device associated with network \"");
        append(&mut r, label);
        append(&mut r, "\" between ");
        append(&mut r, s.as_str());
        append(&mut r, " and ");
        append(&mut r, e.as_str());
        append(&mut r, ".");
        r
    }

    /// The summary's key findings: the first three, each as its number
    /// and title.
    pub fn key_findings(findings: &Vec<(String, String)>) -> (r: Vec<String>)
        ensures
            r@.map_values(|s: String| s@) == findings@.take(
                if findings@.len() < 3 { findings@.len() as int } else { 3 },
            ).map_values(|f: (String, String)| key_finding_line(f)),
    {
        let n: usize = if findings.len() < 3 {
            findings.len()
        } else {
            3
        };
        let mut r: Vec<String> = Vec::new();
        let mut k: usize = 0;
        while k < n
            invariant
                k <= n,
                n <= findings@.len(),
                r@.map_values(|s: String| s@) == findings@.take(k as int).map_values(
                    |f: (String, String)| key_finding_line(f),
                ),
            decreases n - k,
        {
            let mut line = owned(findings[k].0.as_str());
            append(&mut line, ": ");
            append(&mut line, findings[k].1.as_str());
            let ghost before = r@;
            r.push(line);
            proof {
                assert(findings@.take(k as int + 1) =~= findings@.take(k as int).push(
                    findings@[k as int],
                ));
                assert(r@.map_values(|s: String| s@) =~= before.map_values(|s: String| s@).push(
                    key_finding_line(findings@[k as int]),
                ));
            }
            k = k + 1;
        }
        r
    }

    /// The operation recorded when an artifact enters the state `state`.
    pub fn artifact_state_operation(state: &str) -> (op: AuditOperationType)
        ensures
            op matches AuditOperationType::Custom(s) && s@ == "ArtifactStateTransition:"@ + state@,
    {
        let mut s = owned("ArtifactStateTransition:");
        append(&mut s, state);
        AuditOperationType::Custom(s)
    }

    /// The details recorded with an artifact's state transition (compact
    /// JSON, keys in order).
    pub fn artifact_state_details(device_path: &str, state: &str) -> (r: String)
        ensures
            r@ == "{\"device_path\":"@ + json_quoted(device_path@) + ",\"state\":"@ + json_quoted(
                state@,
            ) + "}"@,
    {
        let mut r = owned("{\"device_path\":");
        let p = json_string(device_path);
        append(&mut r, p.as_str());
        append(&mut r, ",\"state\":");
        let s = json_string(state);
        append(&mut r, s.as_str());
        append(&mut r, "}");
        r
    }

    /// The format under which a record's raw timestamp is normalized.
    pub fn timestamp_format(ts: &str) -> (r: &'static str)
        ensures
            r@ == timestamp_format_of(ts@),
    {
        if str_contains(ts, "-") && str_contains(ts, ":") {
            "iso8601"
        } else if parse_u64(ts).is_some() {
            if chars_of(ts).len() > 10 {
                "unix_epoch_ms"
            } else {
                "unix_epoch_s"
            }
        } else {
            "android_logcat"
        }
    }
}

/// What the report's evidence list takes from a stored artifact.
#[derive(Debug, Clone)]
pub struct StoredEvidence {
    /// The path the artifact was acquired from.
    pub device_path: String,
    /// The SHA-256 of its bytes, in lowercase hex.
    pub sha256_hash: String,
    /// Its size in bytes.
    pub size_bytes: u64,
    /// When it was acquired, milliseconds since the Unix epoch.
    pub acquired_at_ms: i64,
    /// Its artifact class.
    pub artifact_class: ArtifactClass,
}

/// An entry of the report's evidence list.
#[derive(Debug, Clone)]
pub struct EvidenceEntry {
    /// `E-001`, `E-002`, ... in the order of the stored artifacts.
    pub evidence_number: String,
    pub original_path: String,
    pub sha256_hash: String,
    pub size_bytes: u64,
    pub acquired_at_ms: i64,
    /// The artifact class's name.
    pub artifact_class: String,
    /// The numbers of the findings that cite the entry; none when the list
    /// is made.
    pub referenced_by_findings: Vec<String>,
}

/// `e` is the evidence entry numbered `n` for the stored artifact `a`.
pub open spec fn entry_for(e: EvidenceEntry, a: StoredEvidence, n: nat) -> bool {
    &&& e.evidence_number@ == "E-"@ + padded3(n)
    &&& e.original_path@ == a.device_path@
    &&& e.sha256_hash@ == a.sha256_hash@
    &&& e.size_bytes == a.size_bytes
    &&& e.acquired_at_ms == a.acquired_at_ms
    &&& e.artifact_class@ == artifact_class_name(a.artifact_class)
    &&& e.referenced_by_findings@.len() == 0
}

/// The evidence limitations section of the report.
#[derive(Debug, Clone)]
pub struct EvidenceLimitations {
    /// The device was before first unlock.
    pub bfu_state_impact: bool,
    /// What that state took away, when it applies.
    pub bfu_impact_description: Option<String>,
    /// One line per class the profile could not reach.
    pub inaccessible_artifact_classes: Vec<String>,
    /// The questions the report cannot answer; never empty.
    pub unanswerable_questions: Vec<String>,
    /// The narrative of the limitations.
    pub limitations_narrative: String,
}

impl ForensicPipeline {
    /// The report's evidence list: one entry per stored artifact, in the
    /// order they were stored, numbered from `E-001`.
    pub fn evidence_entries(stored: &Vec<StoredEvidence>) -> (r: Vec<EvidenceEntry>)
        requires
            stored@.len() < u64::MAX,
        ensures
            r@.len() == stored@.len(),
            forall|k: int| 0 <= k < r@.len() ==> entry_for(#[trigger] r@[k], stored@[k], (k + 1) as nat),
    {
        let mut r: Vec<EvidenceEntry> = Vec::new();
        let mut i: usize = 0;
        while i < stored.len()
            invariant
                i <= stored@.len(),
                stored@.len() < u64::MAX,
                r@.len() == i,
                forall|k: int| 0 <= k < i ==> entry_for(#[trigger] r@[k], stored@[k], (k + 1) as nat),
            decreases stored@.len() - i,
        {
            let a = &stored[i];
            let entry = EvidenceEntry {
                evidence_number: Self::evidence_number((i + 1) as u64),
                original_path: owned(a.device_path.as_str()),
                sha256_hash: owned(a.sha256_hash.as_str()),
                size_bytes: a.size_bytes,
                acquired_at_ms: a.acquired_at_ms,
                artifact_class: a.artifact_class.debug_name(),
                referenced_by_findings: Vec::new(),
            };
            r.push(entry);
            i = i + 1;
        }
        r
    }

    /// The evidence limitations section, for a device in encryption state
    /// `state` whose profile could not reach `inaccessible`, when
    /// `acquired` of `expected` artifacts were acquired, `percent` is the
    /// completeness written with one decimal and `missing` names the
    /// artifacts that could not be acquired. The before-first-unlock impact
    /// is flagged exactly when the device was in that state.
    pub fn evidence_limitations(
        state: EncryptionState,
        inaccessible: &Vec<InaccessibleArtifactClass>,
        acquired: usize,
        expected: usize,
        percent: &str,
        missing: &Vec<String>,
    ) -> (r: EvidenceLimitations)
        ensures
            r.bfu_state_impact == (state == EncryptionState::BeforeFirstUnlock),
            r.bfu_impact_description is Some == r.bfu_state_impact,
            r.bfu_impact_description matches Some(t) ==> t@ == bfu_impact_text(),
            r.inaccessible_artifact_classes@.map_values(|s: String| s@) == inaccessible@.map_values(
                |i: InaccessibleArtifactClass| inaccessible_class_line(i),
            ),
            r.unanswerable_questions@.map_values(|s: String| s@) == unanswerable_of(missing@),
            r.unanswerable_questions@.len() >= 1,
            r.limitations_narrative@ == narrative_of(
                r.bfu_state_impact,
                acquired as nat,
                expected as nat,
                percent@,
                missing@.map_values(|s: String| s@),
            ),
    {
        let bfu_state_impact = match state {
            EncryptionState::BeforeFirstUnlock => true,
            _ => false,
        };
        EvidenceLimitations {
            bfu_state_impact,
            bfu_impact_description: Self::bfu_impact_description(state),
            inaccessible_artifact_classes: Self::inaccessible_class_lines(inaccessible),
            unanswerable_questions: Self::unanswerable_questions(missing),
            limitations_narrative: Self::limitations_narrative(
                bfu_state_impact,
                acquired,
                expected,
                percent,
                missing,
            ),
        }
    }
}

} // verus!
