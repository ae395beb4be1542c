//! Chain-of-custody records built from the audit log.
//!
//! Every audit entry becomes one custody event that names its source entry;
//! events are sorted into device interactions, examiner actions, system
//! events and evidence processing.

use vstd::prelude::*;
use crate::entry::AuditEntry;
use crate::error::OracleResult;
use crate::text::{append, debug_text, debug_text_of, owned};
use crate::types::{utc_now_text, AuditOperationType, AuditResult, InvestigationId};

verus! {

/// The kind of a custody event.
#[derive(Debug, Clone, Copy, PartialEq, Eq, Structural)]
pub enum CustodyEventCategory {
    /// Physical or logical interaction with the target device.
    DeviceInteraction,
    /// An action of a human examiner.
    ExaminerAction,
    /// An automated system event (startup, shutdown, recovery, verification).
    SystemEvent,
    /// Evidence processing (parsing, normalisation, correlation).
    EvidenceProcessing,
}

/// One event of the custody timeline.
#[derive(Debug, Clone)]
pub struct CustodyEvent {
    /// Identifier of the source audit entry.
    pub source_entry_id: u128,
    /// Index of the source audit entry.
    pub source_entry_index: u64,
    /// When the event happened (RFC 3339, UTC).
    pub timestamp: String,
    /// The category of the event.
    pub category: CustodyEventCategory,
    /// The audited operation.
    pub operation: AuditOperationType,
    /// Who performed it.
    pub actor: String,
    /// What was done.
    pub description: String,
    /// The investigation of the event, if any.
    pub investigation_id: Option<InvestigationId>,
}

/// A chain-of-custody record: the full timeline and its four category views.
#[derive(Debug, Clone)]
pub struct ChainOfCustodyRecord {
    /// The investigation the record is restricted to, if any.
    pub investigation_id: Option<InvestigationId>,
    /// Every event, in log order.
    pub timeline: Vec<CustodyEvent>,
    /// The device interactions of the timeline.
    pub device_interactions: Vec<CustodyEvent>,
    /// The examiner actions of the timeline.
    pub examiner_actions: Vec<CustodyEvent>,
    /// The system events of the timeline.
    pub system_events: Vec<CustodyEvent>,
    /// The evidence-processing events of the timeline.
    pub evidence_processing: Vec<CustodyEvent>,
    /// When the record was generated (RFC 3339, UTC).
    pub generated_at: String,
    /// The number of events in the timeline.
    pub total_events: u64,
}

/// The category of an audited operation.
pub open spec fn category_of(op: AuditOperationType) -> CustodyEventCategory {
    match op {
        AuditOperationType::DeviceConnected
        | AuditOperationType::DeviceDisconnected
        | AuditOperationType::CapabilityDetectionStarted
        | AuditOperationType::CapabilityDetectionCompleted
        | AuditOperationType::CapabilityProfileAcknowledged
        | AuditOperationType::ArtifactAcquisitionStarted
        | AuditOperationType::ArtifactAcquisitionCompleted
        | AuditOperationType::ArtifactAcquisitionFailed => CustodyEventCategory::DeviceInteraction,
        AuditOperationType::InvestigationCreated
        | AuditOperationType::InvestigationOpened
        | AuditOperationType::InvestigationClosed
        | AuditOperationType::ExaminerOverrideApplied
        | AuditOperationType::ExaminerNoteAdded
        | AuditOperationType::ReportGenerationStarted
        | AuditOperationType::ReportGenerationCompleted
        | AuditOperationType::ReportExported
        | AuditOperationType::Custom(_) => CustodyEventCategory::ExaminerAction,
        AuditOperationType::SystemStartup
        | AuditOperationType::SystemShutdown
        | AuditOperationType::SystemCrashRecovery
        | AuditOperationType::AuditChainVerified
        | AuditOperationType::PluginLoaded
        | AuditOperationType::PluginValidationFailed
        | AuditOperationType::ScmValidationFailed => CustodyEventCategory::SystemEvent,
        _ => CustodyEventCategory::EvidenceProcessing,
    }
}

/// The `Debug` text of an audit result.
pub open spec fn result_debug(r: AuditResult) -> Seq<char> {
    match r {
        AuditResult::Success => "Success"@,
        AuditResult::Pending => "Pending"@,
        AuditResult::Failure(m) => "Failure("@ + debug_text_of(m@) + ")"@,
        AuditResult::Skipped(m) => "Skipped("@ + debug_text_of(m@) + ")"@,
    }
}

/// The description of the event of `e`: `actor: subject (result: <Debug>)`.
pub open spec fn description_of(e: AuditEntry) -> Seq<char> {
    e.actor@ + ": "@ + e.subject@ + " (result: "@ + result_debug(e.result) + ")"@
}

/// `ev` is the custody event of the audit entry `e`.
pub open spec fn is_event_of(ev: CustodyEvent, e: AuditEntry) -> bool {
    &&& ev.source_entry_id == e.entry_id
    &&& ev.source_entry_index == e.entry_index
    &&& ev.timestamp@ == e.timestamp@
    &&& ev.category == category_of(e.operation)
    &&& ev.operation == e.operation
    &&& ev.actor@ == e.actor@
    &&& ev.description@ == description_of(e)
    &&& ev.investigation_id == e.investigation_id
}

/// `e` belongs in a record restricted to `filter`: every entry when there is
/// no restriction; otherwise the entries of that investigation and the
/// system-level entries that have none.
pub open spec fn in_scope(filter: Option<InvestigationId>, e: AuditEntry) -> bool {
    match filter {
        None => true,
        Some(id) => match e.investigation_id {
            None => true,
            Some(eid) => eid == id,
        },
    }
}

/// The entries of `es` in scope of `filter`, in order.
pub open spec fn scoped(es: Seq<AuditEntry>, filter: Option<InvestigationId>) -> Seq<AuditEntry>
    decreases es.len(),
{
    if es.len() == 0 {
        Seq::empty()
    } else {
        let rest = scoped(es.drop_last(), filter);
        if in_scope(filter, es.last()) {
            rest.push(es.last())
        } else {
            rest
        }
    }
}

/// The events of `evs` in category `c`, in order.
pub open spec fn of_category(evs: Seq<CustodyEvent>, c: CustodyEventCategory) -> Seq<CustodyEvent>
    decreases evs.len(),
{
    if evs.len() == 0 {
        Seq::empty()
    } else {
        let rest = of_category(evs.drop_last(), c);
        if evs.last().category == c {
            rest.push(evs.last())
        } else {
            rest
        }
    }
}

/// `evs` are the events of the entries `es`, one for one and in order.
pub open spec fn events_of(evs: Seq<CustodyEvent>, es: Seq<AuditEntry>) -> bool {
    evs.len() == es.len() && forall|i: int| 0 <= i < es.len() ==> is_event_of(#[trigger] evs[i], es[i])
}

/// The custody category of an audited operation.
pub fn classify_operation(op: &AuditOperationType) -> (c: CustodyEventCategory)
    ensures
        c == category_of(*op),
{
    match op {
        AuditOperationType::DeviceConnected
        | AuditOperationType::DeviceDisconnected
        | AuditOperationType::CapabilityDetectionStarted
        | AuditOperationType::CapabilityDetectionCompleted
        | AuditOperationType::CapabilityProfileAcknowledged
        | AuditOperationType::ArtifactAcquisitionStarted
        | AuditOperationType::ArtifactAcquisitionCompleted
        | AuditOperationType::ArtifactAcquisitionFailed => CustodyEventCategory::DeviceInteraction,
        AuditOperationType::InvestigationCreated
        | AuditOperationType::InvestigationOpened
        | AuditOperationType::InvestigationClosed
        | AuditOperationType::ExaminerOverrideApplied
        | AuditOperationType::ExaminerNoteAdded
        | AuditOperationType::ReportGenerationStarted
        | AuditOperationType::ReportGenerationCompleted
        | AuditOperationType::ReportExported => CustodyEventCategory::ExaminerAction,
        AuditOperationType::ParserExecutionStarted
        | AuditOperationType::ParserExecutionCompleted
        | AuditOperationType::ParserExecutionFailed
        | AuditOperationType::NormalizationStarted
        | AuditOperationType::NormalizationCompleted
        | AuditOperationType::CorrelationStarted
        | AuditOperationType::CorrelationCompleted
        | AuditOperationType::ConfidenceScoreComputed
        | AuditOperationType::EvidenceStoreCreated
        | AuditOperationType::EvidenceStoreVerified
        | AuditOperationType::EvidenceIntegrityViolation => CustodyEventCategory::EvidenceProcessing,
        AuditOperationType::SystemStartup
        | AuditOperationType::SystemShutdown
        | AuditOperationType::SystemCrashRecovery
        | AuditOperationType::AuditChainVerified
        | AuditOperationType::PluginLoaded
        | AuditOperationType::PluginValidationFailed
        | AuditOperationType::ScmValidationFailed => CustodyEventCategory::SystemEvent,
        AuditOperationType::VfsMounted
        | AuditOperationType::VfsFileRead
        | AuditOperationType::VfsIntegrityChecked => CustodyEventCategory::EvidenceProcessing,
        AuditOperationType::Custom(_) => CustodyEventCategory::ExaminerAction,
    }
}

/// The `Debug` text of an audit result.
fn result_debug_text(r: &AuditResult) -> (s: String)
    ensures
        s@ == result_debug(*r),
{
    match r {
        AuditResult::Success => owned("Success"),
        AuditResult::Pending => owned("Pending"),
        AuditResult::Failure(m) => {
            let mut s = owned("Failure(");
            append(&mut s, debug_text(m.as_str()).as_str());
            append(&mut s, ")");
            s
        },
        AuditResult::Skipped(m) => {
            let mut s = owned("Skipped(");
            append(&mut s, debug_text(m.as_str()).as_str());
            append(&mut s, ")");
            s
        },
    }
}

/// The custody event of an audit entry.
pub fn entry_to_custody_event(entry: &AuditEntry) -> (ev: CustodyEvent)
    ensures
        is_event_of(ev, *entry),
{
    let mut description = entry.actor.clone();
    append(&mut description, ": ");
    append(&mut description, entry.subject.as_str());
    append(&mut description, " (result: ");
    append(&mut description, result_debug_text(&entry.result).as_str());
    append(&mut description, ")");
    CustodyEvent {
        source_entry_id: entry.entry_id,
        source_entry_index: entry.entry_index,
        timestamp: entry.timestamp.clone(),
        category: classify_operation(&entry.operation),
        operation: entry.operation.duplicate(),
        actor: entry.actor.clone(),
        description,
        investigation_id: entry.investigation_id,
    }
}

impl CustodyEvent {
    /// A copy of this event.
    pub fn duplicate(&self) -> (r: CustodyEvent)
        ensures
            r == *self,
    {
        CustodyEvent {
            source_entry_id: self.source_entry_id,
            source_entry_index: self.source_entry_index,
            timestamp: self.timestamp.clone(),
            category: self.category,
            operation: self.operation.duplicate(),
            actor: self.actor.clone(),
            description: self.description.clone(),
            investigation_id: self.investigation_id,
        }
    }
}

/// The events of `evs` in category `c`.
fn select_category(evs: &Vec<CustodyEvent>, c: CustodyEventCategory) -> (r: Vec<CustodyEvent>)
    ensures
        r@ == of_category(evs@, c),
{
    let mut out: Vec<CustodyEvent> = Vec::new();
    let mut i: usize = 0;
    while i < evs.len()
        invariant
            0 <= i <= evs.len(),
            out@ == of_category(evs@.take(i as int), c),
        decreases evs.len() - i,
    {
        assert(evs@.take(i + 1).drop_last() =~= evs@.take(i as int));
        if evs[i].category == c {
            out.push(evs[i].duplicate());
        }
        i = i + 1;
    }
    assert(evs@.take(evs.len() as int) =~= evs@);
    out
}

/// Builds chain-of-custody records over the entries of an audit log, given
/// in index order. It never alters the log.
pub struct ChainOfCustodyBuilder<'a> {
    entries: &'a [AuditEntry],
}

impl<'a> ChainOfCustodyBuilder<'a> {
    /// The entries the builder reads.
    pub closed spec fn log(&self) -> Seq<AuditEntry> {
        self.entries@
    }

    /// A builder over `entries`.
    pub fn new(entries: &'a [AuditEntry]) -> (b: ChainOfCustodyBuilder<'a>)
        ensures
            b.log() == entries@,
    {
        ChainOfCustodyBuilder { entries }
    }

    /// The chain-of-custody record of the log, restricted to one
    /// investigation (with the system-level entries, which have none) or,
    /// for `None`, of the whole log. Always `Ok`.
    pub fn build_from_audit_log(&self, investigation_id: Option<InvestigationId>) -> (r: OracleResult<
        ChainOfCustodyRecord,
    >)
        ensures
            r matches Ok(rec) && {
                &&& rec.investigation_id == investigation_id
                &&& events_of(rec.timeline@, scoped(self.log(), investigation_id))
                &&& rec.device_interactions@ == of_category(
                    rec.timeline@,
                    CustodyEventCategory::DeviceInteraction,
                )
                &&& rec.examiner_actions@ == of_category(
                    rec.timeline@,
                    CustodyEventCategory::ExaminerAction,
                )
                &&& rec.system_events@ == of_category(rec.timeline@, CustodyEventCategory::SystemEvent)
                &&& rec.evidence_processing@ == of_category(
                    rec.timeline@,
                    CustodyEventCategory::EvidenceProcessing,
                )
                &&& rec.total_events == rec.timeline@.len()
            },
    {
        let es = self.entries;
        let mut timeline: Vec<CustodyEvent> = Vec::new();
        let mut i: usize = 0;
        while i < es.len()
            invariant
                0 <= i <= es.len(),
                es@ == self.log(),
                timeline@.len() <= i,
                events_of(timeline@, scoped(es@.take(i as int), investigation_id)),
            decreases es.len() - i,
        {
            assert(es@.take(i + 1).drop_last() =~= es@.take(i as int));
            let e = &es[i];
            let keep = match investigation_id {
                None => true,
                Some(id) => match e.investigation_id {
                    None => true,
                    Some(eid) => eid.0 == id.0,
                },
            };
            if keep {
                let ev = entry_to_custody_event(e);
                timeline.push(ev);
            }
            i = i + 1;
        }
        assert(es@.take(es.len() as int) =~= es@);
        let device_interactions = select_category(&timeline, CustodyEventCategory::DeviceInteraction);
        let examiner_actions = select_category(&timeline, CustodyEventCategory::ExaminerAction);
        let system_events = select_category(&timeline, CustodyEventCategory::SystemEvent);
        let evidence_processing = select_category(
            &timeline,
            CustodyEventCategory::EvidenceProcessing,
        );
        let total_events = timeline.len() as u64;
        Ok(ChainOfCustodyRecord {
            investigation_id,
            timeline,
            device_interactions,
            examiner_actions,
            system_events,
            evidence_processing,
            generated_at: utc_now_text(),
            total_events,
        })
    }
}


/// The four category views of a timeline partition it: every event is in
/// exactly one of them, so their lengths add up to the timeline's.
pub proof fn law_categories_partition_timeline(evs: Seq<CustodyEvent>)
    ensures
        of_category(evs, CustodyEventCategory::DeviceInteraction).len() + of_category(
            evs,
            CustodyEventCategory::ExaminerAction,
        ).len() + of_category(evs, CustodyEventCategory::SystemEvent).len() + of_category(
            evs,
            CustodyEventCategory::EvidenceProcessing,
        ).len() == evs.len(),
    decreases evs.len(),
{
    if evs.len() > 0 {
        law_categories_partition_timeline(evs.drop_last());
    }
}

} // verus!
