//! The investigator briefing: what a capability profile means for the
//! examination, presented to the examiner before acquisition begins.
//!
//! The briefing lists the accessible artifact classes (with method and
//! confidence), the inaccessible ones (with the reason), the warnings about
//! limitations and the recommended acquisition method.

use vstd::prelude::*;
use crate::text::{append, decimal, decimal_string, owned, push_char};
use crate::types::{
    acquisition_method_name, artifact_class_name, bootloader_state_name, encryption_state_name,
    root_method_name, selinux_mode_name, AccessibleArtifactClass, AcquisitionMethod,
    CapabilityProfile, EncryptionState, InaccessibleArtifactClass, RootMethod, SelinuxMode,
};

verus! {

/// A briefing on the capabilities detected on the device.
#[derive(Debug, Clone)]
pub struct InvestigatorBriefing {
    /// One line per accessible artifact class.
    pub accessible_summary: Vec<String>,
    /// One line per inaccessible artifact class, with the reason.
    pub inaccessible_summary: Vec<String>,
    /// Limitations the examiner must know about.
    pub warnings: Vec<String>,
    /// The recommended acquisition method.
    pub recommended_method: Option<AcquisitionMethod>,
    /// The whole briefing as text.
    pub full_text: String,
}

/// A confidence in thousandths as a whole percentage, rounded to nearest.
pub open spec fn percent_of(permille: u32) -> nat {
    ((permille + 5) / 10) as nat
}

/// The summary line of an accessible artifact class.
pub open spec fn accessible_line(a: AccessibleArtifactClass) -> Seq<char> {
    artifact_class_name(a.artifact_class) + " \u{2014} accessible via "@ + acquisition_method_name(
        a.acquisition_method,
    ) + " (confidence: "@ + decimal(percent_of(a.confidence_permille)) + "%)"@
}

/// The summary line of an inaccessible artifact class.
pub open spec fn inaccessible_line(i: InaccessibleArtifactClass) -> Seq<char> {
    artifact_class_name(i.artifact_class) + " \u{2014} INACCESSIBLE: "@ + i.reason@
}

/// The warning for a device without root.
pub open spec fn no_root_warning() -> Seq<char> {
    "Device is NOT rooted. Only unprivileged extraction methods are available. Many system-level artifacts will be inaccessible."@
}

/// The warning for SELinux enforcing on a rooted device.
pub open spec fn selinux_warning() -> Seq<char> {
    "SELinux is ENFORCING. Even with root access, some artifacts may be blocked by Mandatory Access Control policies."@
}

/// The warning for the encryption state, if it needs one.
pub open spec fn encryption_warning(e: EncryptionState) -> Option<Seq<char>> {
    match e {
        EncryptionState::BeforeFirstUnlock => Some("Device is in Before First Unlock (BFU) state. Credential-encrypted (CE) storage is NOT accessible. Only device-encrypted (DE) artifacts can be recovered."@),
        EncryptionState::FullDiskEncryption => Some("Device uses legacy Full Disk Encryption. Access depends on whether the device has been unlocked."@),
        EncryptionState::Unknown => Some("Encryption state could not be determined. Proceed with caution \u{2014} some artifacts may be encrypted and inaccessible."@),
        EncryptionState::AfterFirstUnlock => None,
    }
}

/// The warning for `n` inaccessible artifact classes.
pub open spec fn inaccessible_warning(n: nat) -> Seq<char> {
    decimal(n) + " artifact class(es) are INACCESSIBLE. Evidence from these sources cannot be recovered with current device state."@
}

/// The warnings for a profile, in order: no root; SELinux enforcing with
/// root; the encryption state; inaccessible artifact classes.
pub open spec fn warnings_for(p: CapabilityProfile) -> Seq<Seq<char>> {
    let w1: Seq<Seq<char>> = if p.root_method == RootMethod::NoRoot { seq![no_root_warning()] } else { Seq::empty() };
    let w2: Seq<Seq<char>> = if p.selinux_mode == SelinuxMode::Enforcing && p.root_method != RootMethod::NoRoot {
        seq![selinux_warning()]
    } else {
        Seq::empty()
    };
    let w3: Seq<Seq<char>> = match encryption_warning(p.encryption_state) {
        Some(w) => seq![w],
        None => Seq::empty(),
    };
    let w4: Seq<Seq<char>> = if p.inaccessible_artifact_classes@.len() > 0 {
        seq![inaccessible_warning(p.inaccessible_artifact_classes@.len())]
    } else {
        Seq::empty()
    };
    w1 + w2 + w3 + w4
}

/// The acquisition methods in order of preference.
pub open spec fn method_priority() -> Seq<AcquisitionMethod> {
    seq![
        AcquisitionMethod::PrivilegedLogical,
        AcquisitionMethod::ContentProvider,
        AcquisitionMethod::UnprivilegedLogical,
        AcquisitionMethod::AdbBackup,
        AcquisitionMethod::OfflineImage,
    ]
}

/// The first method of `prio` that `available` offers, if any.
pub open spec fn first_offered(prio: Seq<AcquisitionMethod>, available: Seq<AcquisitionMethod>) -> Option<
    AcquisitionMethod,
>
    decreases prio.len(),
{
    if prio.len() == 0 {
        None
    } else if available.contains(prio[0]) {
        Some(prio[0])
    } else {
        first_offered(prio.drop_first(), available)
    }
}

/// The recommended method: the most preferred available one, else the
/// first available one.
pub open spec fn recommended_for(available: Seq<AcquisitionMethod>) -> Option<AcquisitionMethod> {
    match first_offered(method_priority(), available) {
        Some(m) => Some(m),
        None => if available.len() > 0 {
            Some(available[0])
        } else {
            None
        },
    }
}

/// Each item of `items` after `prefix`, followed by a line break.
pub open spec fn bullets(prefix: Seq<char>, items: Seq<Seq<char>>) -> Seq<char>
    decreases items.len(),
{
    if items.len() == 0 {
        Seq::empty()
    } else {
        bullets(prefix, items.drop_last()) + prefix + items.last() + "\n"@
    }
}

/// A list section of the briefing: heading, items (or `(none)`), blank line.
pub open spec fn list_section(heading: Seq<char>, mark: Seq<char>, items: Seq<Seq<char>>) -> Seq<char> {
    heading + (if items.len() == 0 { "  (none)\n"@ } else { bullets(mark, items) }) + "\n"@
}

/// The views of a sequence of strings.
pub open spec fn texts(v: Seq<String>) -> Seq<Seq<char>> {
    v.map_values(|s: String| s@)
}

/// The identity lines of a briefing (after the title).
pub open spec fn identity_text(p: CapabilityProfile) -> Seq<char> {
    let d = p.device;
    "Device: "@ + d.manufacturer@ + " "@ + d.model@ + " (Android "@ + d.android_version@ + ")\n"@
        + "Serial: "@ + d.serial@ + "\n"@ + "Build:  "@ + d.build_fingerprint@ + "\n"@ + "Patch:  "@
        + d.security_patch_level@ + "\n"@
}

/// The skin line of a briefing, when the device has an OEM skin.
pub open spec fn skin_text(p: CapabilityProfile) -> Seq<char> {
    match p.device.oem_skin {
        Some(skin) => "Skin:   "@ + skin@ + (match p.device.oem_skin_version {
            Some(v) => " ("@ + v@ + ")"@,
            None => Seq::empty(),
        }) + "\n"@,
        None => Seq::empty(),
    }
}

/// The device-state lines of a briefing.
pub open spec fn state_text(p: CapabilityProfile) -> Seq<char> {
    "Root:       "@ + root_method_name(p.root_method) + "\n"@ + "SELinux:    "@ + selinux_mode_name(
        p.selinux_mode,
    ) + "\n"@ + "Encryption: "@ + encryption_state_name(p.encryption_state) + "\n"@
        + "Bootloader: "@ + bootloader_state_name(p.bootloader_state) + "\n\n"@
}

/// The recommendation line of a briefing, when there is a method.
pub open spec fn recommendation_text(rec: Option<AcquisitionMethod>) -> Seq<char> {
    match rec {
        Some(m) => "RECOMMENDED METHOD: "@ + acquisition_method_name(m) + "\n\n"@,
        None => Seq::empty(),
    }
}

/// The warnings section of a briefing, when there are warnings.
pub open spec fn warnings_text(warnings: Seq<Seq<char>>) -> Seq<char> {
    if warnings.len() == 0 {
        Seq::empty()
    } else {
        "\u{2500}\u{2500} WARNINGS \u{2500}\u{2500}\n"@ + bullets("  \u{26a0} "@, warnings) + "\n"@
    }
}

/// The full text of a briefing.
pub open spec fn full_text_of(
    p: CapabilityProfile,
    acc: Seq<Seq<char>>,
    inacc: Seq<Seq<char>>,
    warnings: Seq<Seq<char>>,
    rec: Option<AcquisitionMethod>,
) -> Seq<char> {
    "═══════════════════════════════════════════════════════════════\n"@ + "                  INVESTIGATOR BRIEFING\n"@ + "═══════════════════════════════════════════════════════════════\n\n"@ + identity_text(p)
        + skin_text(p) + "\n"@ + state_text(p) + recommendation_text(rec) + list_section(
        "\u{2500}\u{2500} ACCESSIBLE ARTIFACTS \u{2500}\u{2500}\n"@,
        "  \u{2713} "@,
        acc,
    ) + list_section(
        "\u{2500}\u{2500} INACCESSIBLE ARTIFACTS \u{2500}\u{2500}\n"@,
        "  \u{2717} "@,
        inacc,
    ) + warnings_text(warnings) + "═══════════════════════════════════════════════════════════════\n"@
}

fn accessible_line_text(a: &AccessibleArtifactClass) -> (s: String)
    ensures
        s@ == accessible_line(*a),
{
    let mut s = a.artifact_class.debug_name();
    append(&mut s, " \u{2014} accessible via ");
    append(&mut s, a.acquisition_method.debug_name().as_str());
    append(&mut s, " (confidence: ");
    let pct = ((a.confidence_permille as u64) + 5) / 10;
    append(&mut s, decimal_string(pct).as_str());
    append(&mut s, "%)");
    s
}

fn inaccessible_line_text(i: &InaccessibleArtifactClass) -> (s: String)
    ensures
        s@ == inaccessible_line(*i),
{
    let mut s = i.artifact_class.debug_name();
    append(&mut s, " \u{2014} INACCESSIBLE: ");
    append(&mut s, i.reason.as_str());
    s
}

/// The warnings for a profile, in order.
pub fn generate_warnings(profile: &CapabilityProfile) -> (w: Vec<String>)
    ensures
        texts(w@) == warnings_for(*profile),
{
    let mut w: Vec<String> = Vec::new();
    let ghost p = *profile;
    if profile.root_method == RootMethod::NoRoot {
        w.push(owned("Device is NOT rooted. Only unprivileged extraction methods are available. Many system-level artifacts will be inaccessible."));
    }
    let ghost w1 = texts(w@);
    if profile.selinux_mode == SelinuxMode::Enforcing && profile.root_method != RootMethod::NoRoot {
        w.push(owned("SELinux is ENFORCING. Even with root access, some artifacts may be blocked by Mandatory Access Control policies."));
    }
    let ghost w2 = texts(w@);
    match profile.encryption_state {
        EncryptionState::BeforeFirstUnlock => {
            w.push(owned("Device is in Before First Unlock (BFU) state. Credential-encrypted (CE) storage is NOT accessible. Only device-encrypted (DE) artifacts can be recovered."));
        },
        EncryptionState::FullDiskEncryption => {
            w.push(owned("Device uses legacy Full Disk Encryption. Access depends on whether the device has been unlocked."));
        },
        EncryptionState::Unknown => {
            w.push(owned("Encryption state could not be determined. Proceed with caution \u{2014} some artifacts may be encrypted and inaccessible."));
        },
        EncryptionState::AfterFirstUnlock => {},
    }
    let ghost w3 = texts(w@);
    if profile.inaccessible_artifact_classes.len() > 0 {
        let mut t = decimal_string(profile.inaccessible_artifact_classes.len() as u64);
        append(&mut t, " artifact class(es) are INACCESSIBLE. Evidence from these sources cannot be recovered with current device state.");
        w.push(t);
    }
    assert(texts(w@) =~= warnings_for(p));
    w
}

fn contains_method(v: &Vec<AcquisitionMethod>, m: AcquisitionMethod) -> (r: bool)
    ensures
        r == v@.contains(m),
{
    let mut j: usize = 0;
    while j < v.len()
        invariant
            0 <= j <= v.len(),
            forall|k: int| 0 <= k < j ==> v@[k] != m,
        decreases v.len() - j,
    {
        if v[j] == m {
            assert(v@[j as int] == m);
            return true;
        }
        j = j + 1;
    }
    false
}

/// The recommended acquisition method for the available ones.
pub fn determine_recommended_method(profile: &CapabilityProfile) -> (r: Option<AcquisitionMethod>)
    ensures
        r == recommended_for(profile.available_methods@),
{
    let priority: [AcquisitionMethod; 5] = [
        AcquisitionMethod::PrivilegedLogical,
        AcquisitionMethod::ContentProvider,
        AcquisitionMethod::UnprivilegedLogical,
        AcquisitionMethod::AdbBackup,
        AcquisitionMethod::OfflineImage,
    ];
    assert(priority@ =~= method_priority());
    let avail = &profile.available_methods;
    let mut i: usize = 0;
    assert(method_priority().subrange(0, 5) =~= method_priority());
    while i < 5
        invariant
            0 <= i <= 5,
            priority@ == method_priority(),
            first_offered(method_priority(), avail@) == first_offered(
                method_priority().subrange(i as int, 5),
                avail@,
            ),
            avail@ == profile.available_methods@,
        decreases 5 - i,
    {
        let m = priority[i];
        let ghost rest = method_priority().subrange(i as int, 5);
        assert(rest[0] == m);
        assert(rest.drop_first() =~= method_priority().subrange(i + 1, 5));
        if contains_method(avail, m) {
            assert(first_offered(rest, avail@) == Some(m));
            return Some(m);
        }
        i = i + 1;
    }
    assert(method_priority().subrange(5, 5) =~= Seq::<AcquisitionMethod>::empty());
    if avail.len() > 0 {
        Some(avail[0])
    } else {
        None
    }
}

fn append_bullets(s: &mut String, mark: &str, items: &Vec<String>)
    ensures
        final(s)@ == old(s)@ + bullets(mark@, texts(items@)),
{
    let ghost start = s@;
    let mut i: usize = 0;
    while i < items.len()
        invariant
            0 <= i <= items.len(),
            s@ == start + bullets(mark@, texts(items@.take(i as int))),
        decreases items.len() - i,
    {
        let ghost before = s@;
        append(s, mark);
        append(s, items[i].as_str());
        append(s, "\n");
        proof {
            let t = texts(items@.take(i + 1));
            assert(t.drop_last() =~= texts(items@.take(i as int)));
            assert(t.last() == items@[i as int]@);
            assert(s@ =~= start + bullets(mark@, t));
        }
        i = i + 1;
    }
    assert(items@.take(items.len() as int) =~= items@);
}

fn append_list_section(s: &mut String, heading: &str, mark: &str, items: &Vec<String>)
    ensures
        final(s)@ == old(s)@ + list_section(heading@, mark@, texts(items@)),
{
    let ghost start = s@;
    append(s, heading);
    if items.len() == 0 {
        append(s, "  (none)\n");
    } else {
        append_bullets(s, mark, items);
    }
    append(s, "\n");
    assert(s@ =~= start + list_section(heading@, mark@, texts(items@)));
}

fn append_identity(t: &mut String, p: &CapabilityProfile)
    ensures
        final(t)@ == old(t)@ + identity_text(*p),
{
    let ghost start = t@;
    let d = &p.device;
    append(t, "Device: ");
    append(t, d.manufacturer.as_str());
    append(t, " ");
    append(t, d.model.as_str());
    append(t, " (Android ");
    append(t, d.android_version.as_str());
    append(t, ")\n");
    append(t, "Serial: ");
    append(t, d.serial.as_str());
    append(t, "\n");
    append(t, "Build:  ");
    append(t, d.build_fingerprint.as_str());
    append(t, "\n");
    append(t, "Patch:  ");
    append(t, d.security_patch_level.as_str());
    append(t, "\n");
    assert(t@ =~= start + identity_text(*p));
}

fn append_skin(t: &mut String, p: &CapabilityProfile)
    ensures
        final(t)@ == old(t)@ + skin_text(*p),
{
    let ghost start = t@;
    match &p.device.oem_skin {
        Some(skin) => {
            append(t, "Skin:   ");
            append(t, skin.as_str());
            match &p.device.oem_skin_version {
                Some(v) => {
                    append(t, " (");
                    append(t, v.as_str());
                    append(t, ")");
                },
                None => {},
            }
            append(t, "\n");
        },
        None => {},
    }
    assert(t@ =~= start + skin_text(*p));
}

fn append_state(t: &mut String, p: &CapabilityProfile)
    ensures
        final(t)@ == old(t)@ + state_text(*p),
{
    let ghost start = t@;
    append(t, "Root:       ");
    append(t, p.root_method.debug_name().as_str());
    append(t, "\n");
    append(t, "SELinux:    ");
    append(t, p.selinux_mode.debug_name().as_str());
    append(t, "\n");
    append(t, "Encryption: ");
    append(t, p.encryption_state.debug_name().as_str());
    append(t, "\n");
    append(t, "Bootloader: ");
    append(t, p.bootloader_state.debug_name().as_str());
    append(t, "\n\n");
    assert(t@ =~= start + state_text(*p));
}

fn append_recommendation(t: &mut String, rec: Option<AcquisitionMethod>)
    ensures
        final(t)@ == old(t)@ + recommendation_text(rec),
{
    let ghost start = t@;
    match rec {
        Some(m) => {
            append(t, "RECOMMENDED METHOD: ");
            append(t, m.debug_name().as_str());
            append(t, "\n\n");
        },
        None => {},
    }
    assert(t@ =~= start + recommendation_text(rec));
}

fn append_warnings(t: &mut String, warnings: &Vec<String>)
    ensures
        final(t)@ == old(t)@ + warnings_text(texts(warnings@)),
{
    let ghost start = t@;
    if warnings.len() > 0 {
        append(t, "\u{2500}\u{2500} WARNINGS \u{2500}\u{2500}\n");
        append_bullets(t, "  \u{26a0} ", warnings);
        append(t, "\n");
    }
    assert(t@ =~= start + warnings_text(texts(warnings@)));
}

/// The full text of the briefing.
pub fn format_full_text(
    profile: &CapabilityProfile,
    accessible_summary: &Vec<String>,
    inaccessible_summary: &Vec<String>,
    warnings: &Vec<String>,
    recommended_method: Option<AcquisitionMethod>,
) -> (t: String)
    ensures
        t@ == full_text_of(
            *profile,
            texts(accessible_summary@),
            texts(inaccessible_summary@),
            texts(warnings@),
            recommended_method,
        ),
{
    let mut t = owned("═══════════════════════════════════════════════════════════════\n");
    append(&mut t, "                  INVESTIGATOR BRIEFING\n");
    append(&mut t, "═══════════════════════════════════════════════════════════════\n\n");
    append_identity(&mut t, profile);
    append_skin(&mut t, profile);
    append(&mut t, "\n");
    append_state(&mut t, profile);
    append_recommendation(&mut t, recommended_method);
    append_list_section(
        &mut t,
        "\u{2500}\u{2500} ACCESSIBLE ARTIFACTS \u{2500}\u{2500}\n",
        "  \u{2713} ",
        accessible_summary,
    );
    append_list_section(
        &mut t,
        "\u{2500}\u{2500} INACCESSIBLE ARTIFACTS \u{2500}\u{2500}\n",
        "  \u{2717} ",
        inaccessible_summary,
    );
    append_warnings(&mut t, warnings);
    append(&mut t, "═══════════════════════════════════════════════════════════════\n");
    t
}

/// The briefing for a capability profile: one summary line per accessible
/// and per inaccessible artifact class, the warnings, the recommended
/// method and the full text.
pub fn generate_briefing(profile: &CapabilityProfile) -> (b: InvestigatorBriefing)
    ensures
        b.accessible_summary@.len() == profile.accessible_artifact_classes@.len(),
        forall|k: int|
            0 <= k < b.accessible_summary@.len() ==> (#[trigger] b.accessible_summary@[k])@
                == accessible_line(profile.accessible_artifact_classes@[k]),
        b.inaccessible_summary@.len() == profile.inaccessible_artifact_classes@.len(),
        forall|k: int|
            0 <= k < b.inaccessible_summary@.len() ==> (#[trigger] b.inaccessible_summary@[k])@
                == inaccessible_line(profile.inaccessible_artifact_classes@[k]),
        texts(b.warnings@) == warnings_for(*profile),
        b.recommended_method == recommended_for(profile.available_methods@),
        b.full_text@ == full_text_of(
            *profile,
            texts(b.accessible_summary@),
            texts(b.inaccessible_summary@),
            texts(b.warnings@),
            b.recommended_method,
        ),
{
    let mut accessible_summary: Vec<String> = Vec::new();
    let mut i: usize = 0;
    while i < profile.accessible_artifact_classes.len()
        invariant
            0 <= i <= profile.accessible_artifact_classes.len(),
            accessible_summary@.len() == i,
            forall|k: int|
                0 <= k < i ==> (#[trigger] accessible_summary@[k])@ == accessible_line(
                    profile.accessible_artifact_classes@[k],
                ),
        decreases profile.accessible_artifact_classes.len() - i,
    {
        accessible_summary.push(accessible_line_text(&profile.accessible_artifact_classes[i]));
        i = i + 1;
    }
    let mut inaccessible_summary: Vec<String> = Vec::new();
    let mut j: usize = 0;
    while j < profile.inaccessible_artifact_classes.len()
        invariant
            0 <= j <= profile.inaccessible_artifact_classes.len(),
            inaccessible_summary@.len() == j,
            forall|k: int|
                0 <= k < j ==> (#[trigger] inaccessible_summary@[k])@ == inaccessible_line(
                    profile.inaccessible_artifact_classes@[k],
                ),
        decreases profile.inaccessible_artifact_classes.len() - j,
    {
        inaccessible_summary.push(inaccessible_line_text(&profile.inaccessible_artifact_classes[j]));
        j = j + 1;
    }
    let warnings = generate_warnings(profile);
    let recommended_method = determine_recommended_method(profile);
    let full_text = format_full_text(
        profile,
        &accessible_summary,
        &inaccessible_summary,
        &warnings,
        recommended_method,
    );
    InvestigatorBriefing {
        accessible_summary,
        inaccessible_summary,
        warnings,
        recommended_method,
        full_text,
    }
}

} // verus!
