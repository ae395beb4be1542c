//! Decisions of a pipeline run around acquisition: which paths are looked
//! at once an OEM plugin has overridden some, what state the acquisition
//! ends in, how a failed acquisition is reported, which method a stored
//! artifact is attributed to, and when correlation has nothing to work on.

use vstd::prelude::*;
use crate::pipeline::ForensicPipeline;
use crate::text::{append, decimal, decimal_string, owned};
use crate::types::{AccessibleArtifactClass, AcquisitionMethod, AcquisitionState, ArtifactClass};

verus! {

/// An entry of the path registry: the artifact class and the device paths
/// it is looked for at.
#[derive(Debug, Clone)]
pub struct PathEntry {
    pub artifact_class: ArtifactClass,
    pub device_paths: Vec<String>,
}

/// A path that an OEM plugin gives for an artifact class in place of the
/// registry's.
#[derive(Debug, Clone)]
pub struct PathOverride {
    pub artifact_class: ArtifactClass,
    pub override_path: String,
}

/// The texts of a list of strings.
pub open spec fn texts(v: Seq<String>) -> Seq<Seq<char>> {
    v.map_values(|s: String| s@)
}

/// The path of the last override in `os` for `class`, if there is one.
pub open spec fn last_override(os: Seq<PathOverride>, class: ArtifactClass) -> Option<Seq<char>>
    decreases os.len(),
{
    if os.len() == 0 {
        None
    } else if os.last().artifact_class == class {
        Some(os.last().override_path@)
    } else {
        last_override(os.drop_last(), class)
    }
}

/// The paths of `e` once the overrides `os` are applied in order: the
/// last override for its class replaces them all.
pub open spec fn overridden_paths(e: PathEntry, os: Seq<PathOverride>) -> Seq<Seq<char>> {
    match last_override(os, e.artifact_class) {
        Some(p) => seq![p],
        None => texts(e.device_paths@),
    }
}

fn copy_strings(v: &Vec<String>) -> (r: Vec<String>)
    ensures
        texts(r@) == texts(v@),
{
    let mut r: Vec<String> = Vec::new();
    let mut i: usize = 0;
    while i < v.len()
        invariant
            i <= v@.len(),
            texts(r@) == texts(v@.take(i as int)),
        decreases v@.len() - i,
    {
        let ghost before = r@;
        r.push(owned(v[i].as_str()));
        proof {
            assert(v@.take(i as int + 1) =~= v@.take(i as int).push(v@[i as int]));
            assert(texts(r@) =~= texts(before).push(v@[i as int]@));
            assert(texts(v@.take(i as int + 1)) =~= texts(v@.take(i as int)).push(v@[i as int]@));
        }
        i = i + 1;
    }
    proof {
        assert(v@.take(v@.len() as int) =~= v@);
    }
    r
}

/// The path registry once an OEM plugin's overrides are applied: every
/// entry keeps its class, and a class with an override is looked for at
/// the last override's path alone.
pub fn apply_path_overrides(entries: &Vec<PathEntry>, overrides: &Vec<PathOverride>) -> (r: Vec<PathEntry>)
    ensures
        r@.len() == entries@.len(),
        forall|i: int|
            0 <= i < entries@.len() ==> #[trigger] r@[i].artifact_class == entries@[i].artifact_class
                && texts(r@[i].device_paths@) == overridden_paths(entries@[i], overrides@),
{
    let mut r: Vec<PathEntry> = Vec::new();
    let mut i: usize = 0;
    while i < entries.len()
        invariant
            i <= entries@.len(),
            r@.len() == i,
            forall|k: int|
                0 <= k < i ==> #[trigger] r@[k].artifact_class == entries@[k].artifact_class
                    && texts(r@[k].device_paths@) == overridden_paths(entries@[k], overrides@),
        decreases entries@.len() - i,
    {
        let class = entries[i].artifact_class;
        let mut paths = copy_strings(&entries[i].device_paths);
        let mut j: usize = 0;
        while j < overrides.len()
            invariant
                j <= overrides@.len(),
                class == entries@[i as int].artifact_class,
                texts(paths@) == (match last_override(overrides@.take(j as int), class) {
                    Some(p) => seq![p],
                    None => texts(entries@[i as int].device_paths@),
                }),
            decreases overrides@.len() - j,
        {
            proof {
                assert(overrides@.take(j as int + 1).drop_last() =~= overrides@.take(j as int));
            }
            if overrides[j].artifact_class == class {
                let mut one: Vec<String> = Vec::new();
                one.push(owned(overrides[j].override_path.as_str()));
                proof {
                    assert(texts(one@) =~= seq![overrides@[j as int].override_path@]);
                }
                paths = one;
            }
            j = j + 1;
        }
        proof {
            assert(overrides@.take(overrides@.len() as int) =~= overrides@);
        }
        r.push(PathEntry { artifact_class: class, device_paths: paths });
        i = i + 1;
    }
    r
}

/// The state an acquisition ends in: complete when every discovered
/// artifact was acquired, partial when some were, failed when none were.
pub open spec fn acquisition_state_of(successful: nat, discovered: nat) -> AcquisitionState {
    if successful == discovered {
        AcquisitionState::Complete
    } else if successful > 0 {
        AcquisitionState::Partial
    } else {
        AcquisitionState::Failed
    }
}

/// A failure's line in the report of a failed acquisition.
pub open spec fn failure_reason_line(f: (String, String)) -> Seq<char> {
    f.0@ + ": "@ + f.1@
}

/// The failures' lines joined with `; `.
pub open spec fn failure_reasons(fs: Seq<(String, String)>) -> Seq<char>
    decreases fs.len(),
{
    if fs.len() == 0 {
        Seq::empty()
    } else if fs.len() == 1 {
        failure_reason_line(fs[0])
    } else {
        failure_reasons(fs.drop_last()) + "; "@ + failure_reason_line(fs.last())
    }
}

/// The method of the first accessible class that is `class`, or the
/// unprivileged logical method when none is.
pub open spec fn method_for_class(acc: Seq<AccessibleArtifactClass>, class: ArtifactClass) -> AcquisitionMethod
    decreases acc.len(),
{
    if acc.len() == 0 {
        AcquisitionMethod::UnprivilegedLogical
    } else if acc[0].artifact_class == class {
        acc[0].acquisition_method
    } else {
        method_for_class(acc.drop_first(), class)
    }
}

/// The message of a correlation without any normalized record.
pub const NO_EVIDENCE_FOR_CORRELATION: &'static str = "No evidence available for correlation. Pipeline cannot produce findings without parsed data.";

impl ForensicPipeline {
    /// The state the acquisition ends in, from the numbers of acquired and
    /// of discovered artifacts.
    pub fn acquisition_state(successful: usize, discovered: usize) -> (s: AcquisitionState)
        ensures
            s == acquisition_state_of(successful as nat, discovered as nat),
    {
        if successful == discovered {
            AcquisitionState::Complete
        } else if successful > 0 {
            AcquisitionState::Partial
        } else {
            AcquisitionState::Failed
        }
    }

    /// The message that halts a run in which nothing could be acquired,
    /// given the number of discovered artifacts and each failure's expected
    /// path and reason.
    pub fn acquisition_failure_message(discovered: usize, failures: &Vec<(String, String)>) -> (m: String)
        ensures
            m@ == "ACQUISITION_FAILED: "@ + decimal(discovered as nat)
                + " artifacts discovered but zero could be acquired. Failure reasons: "@
                + failure_reasons(failures@),
    {
        let mut m = owned("ACQUISITION_FAILED: ");
        append(&mut m, decimal_string(discovered as u64).as_str());
        append(&mut m, " artifacts discovered but zero could be acquired. Failure reasons: ");
        let ghost prefix = m@;
        let mut i: usize = 0;
        while i < failures.len()
            invariant
                i <= failures@.len(),
                m@ == prefix + failure_reasons(failures@.take(i as int)),
            decreases failures@.len() - i,
        {
            proof {
                assert(failures@.take(i as int + 1).drop_last() =~= failures@.take(i as int));
            }
            if i > 0 {
                append(&mut m, "; ");
            }
            append(&mut m, failures[i].0.as_str());
            append(&mut m, ": ");
            append(&mut m, failures[i].1.as_str());
            proof {
                if i == 0 {
                    assert(m@ =~= prefix + failure_reasons(failures@.take(1)));
                } else {
                    assert(m@ =~= prefix + failure_reasons(failures@.take(i as int + 1)));
                }
            }
            i = i + 1;
        }
        proof {
            assert(failures@.take(failures@.len() as int) =~= failures@);
        }
        m
    }

    /// The acquisition method a stored artifact of class `class` is
    /// attributed to: that of the profile's first accessible class of the
    /// same kind, or the unprivileged logical method.
    pub fn stored_method(accessible: &Vec<AccessibleArtifactClass>, class: ArtifactClass) -> (m: AcquisitionMethod)
        ensures
            m == method_for_class(accessible@, class),
    {
        let mut i: usize = 0;
        proof {
            assert(accessible@.skip(0) =~= accessible@);
        }
        while i < accessible.len()
            invariant
                i <= accessible@.len(),
                method_for_class(accessible@, class) == method_for_class(accessible@.skip(i as int), class),
            decreases accessible@.len() - i,
        {
            proof {
                assert(accessible@.skip(i as int).drop_first() =~= accessible@.skip(i as int + 1));
            }
            if accessible[i].artifact_class == class {
                return accessible[i].acquisition_method;
            }
            i = i + 1;
        }
        AcquisitionMethod::UnprivilegedLogical
    }

    /// Correlation needs at least one normalized record: `Err` with the
    /// message that halts the run when there is none.
    pub fn check_correlation_input(normalized_count: usize) -> (r: Result<(), String>)
        ensures
            normalized_count > 0 <==> r is Ok,
            r matches Err(m) ==> m@ == NO_EVIDENCE_FOR_CORRELATION@,
    {
        if normalized_count == 0 {
            Err(owned(NO_EVIDENCE_FOR_CORRELATION))
        } else {
            Ok(())
        }
    }
}

} // verus!
