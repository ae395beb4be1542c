//! The capability detection engine.
//!
//! Detection probes the device through ADB (or reads a static image) and
//! turns what it finds into a `CapabilityProfile`: device identity, root
//! method, SELinux mode, bootloader and encryption state, the acquisition
//! methods available and which artifact classes can be read. Every decision
//! is a function of the probe answers with an exact contract; the functions
//! that make the probes state what holds whatever the device answers.

use vstd::prelude::*;
use crate::adb::{first_with_serial, AdbDeviceState, AdbInterface};
use crate::error::{OracleError, OracleResult};
use crate::text::{
    append, find_char, find_char_from, has_infix, has_prefix, lines_of, lowercase, lowercase_of,
    owned, parse_u32, parsed_u32, split_lines, str_contains, str_eq, str_starts_with, strip_all,
    string_from_chars, string_from_range, trim, trim_matches_char, trimmed, chars_of,
};
use crate::types::{
    reliability_permille, utc_now_millis, AccessibleArtifactClass, AcquisitionMethod,
    ArtifactClass, BootloaderState, CapabilityProfile, DeviceIdentity, EncryptionState,
    EncryptionZone, InaccessibleArtifactClass, RootMethod, SelinuxMode,
};
use crate::vfs::VirtualFileSystem;

verus! {

// ── Decisions ────────────────────────────────────────────────────────────────

/// The encryption zone of an artifact class.
pub open spec fn zone_of(c: ArtifactClass) -> EncryptionZone {
    match c {
        ArtifactClass::WpaSupplicant
        | ArtifactClass::WifiConfigStore
        | ArtifactClass::DhcpLeases
        | ArtifactClass::NetworkPolicy
        | ArtifactClass::BuildProp
        | ArtifactClass::KernelLogs
        | ArtifactClass::DnsCache
        | ArtifactClass::HostapdLogs => EncryptionZone::DeviceEncrypted,
        ArtifactClass::BatteryStats => EncryptionZone::CredentialEncrypted,
        ArtifactClass::ConnectivityLogs => EncryptionZone::DeAndCe,
        ArtifactClass::Unknown => EncryptionZone::UnknownEncryption,
    }
}

/// The acquisition methods of a device with root method `root`, most
/// capable first.
pub open spec fn methods_for(root: RootMethod) -> Seq<AcquisitionMethod> {
    if root != RootMethod::NoRoot {
        seq![AcquisitionMethod::PrivilegedLogical, AcquisitionMethod::ContentProvider]
    } else {
        seq![
            AcquisitionMethod::ContentProvider,
            AcquisitionMethod::UnprivilegedLogical,
            AcquisitionMethod::AdbBackup,
        ]
    }
}

/// Why an artifact class is inaccessible on a device in this state.
pub open spec fn inaccessibility_reason(root: RootMethod, selinux: SelinuxMode) -> Seq<char> {
    if root == RootMethod::NoRoot {
        "Requires root access \u{2014} file resides in privileged partition"@
    } else if selinux == SelinuxMode::Enforcing {
        "SELinux enforcing \u{2014} MAC policy blocks access even with root"@
    } else {
        "File not found on device"@
    }
}

/// The value that a line of a build property file gives to `key`, if any:
/// the trimmed line must not start with `#` and must hold `=`; the text
/// before the first `=`, trimmed, must be `key`; the value is the text after
/// it, trimmed, without surrounding `"` and then `'` characters.
pub open spec fn prop_line_value(line: Seq<char>, key: Seq<char>) -> Option<Seq<char>> {
    let t = trimmed(line);
    if t.len() > 0 && t[0] == '#' {
        None
    } else {
        match find_char_from(t, '=', 0) {
            None => None,
            Some(pos) => if trimmed(t.subrange(0, pos)) == key {
                Some(strip_all(strip_all(trimmed(t.subrange(pos + 1, t.len() as int)), '"'), '\''))
            } else {
                None
            },
        }
    }
}

/// The value of `key` in the first line of `ls` that gives it one (empty
/// when none does).
pub open spec fn prop_value_in(ls: Seq<Seq<char>>, key: Seq<char>) -> Seq<char>
    decreases ls.len(),
{
    if ls.len() == 0 {
        Seq::empty()
    } else {
        match prop_line_value(ls[0], key) {
            Some(v) => v,
            None => prop_value_in(ls.drop_first(), key),
        }
    }
}

/// A probe answer that names a binary: not blank and not `not found`.
pub open spec fn names_binary(out: Seq<char>) -> bool {
    trimmed(out).len() != 0 && !has_infix(out, "not found"@)
}

/// The root method that the probes reveal, in priority order: Magisk
/// (`which magisk`), KernelSU (`/data/adb/ksu` exists), a system `su`
/// (`which su`), ADB running as root (`id` shows `uid=0`), else none.
pub open spec fn root_method_of(magisk: Seq<char>, ksu: bool, su: Seq<char>, id: Seq<char>) -> RootMethod {
    if names_binary(magisk) {
        RootMethod::Magisk
    } else if ksu {
        RootMethod::KernelSU
    } else if names_binary(su) {
        RootMethod::SystemRoot
    } else if has_infix(id, "uid=0"@) {
        RootMethod::AdbRoot
    } else {
        RootMethod::NoRoot
    }
}

/// The SELinux mode that `getenforce` (lower-cased and trimmed) reports,
/// falling back to the trimmed enforce node (`1` enforcing, `0` permissive).
pub open spec fn selinux_mode_of(getenforce: Seq<char>, enforce_node: Seq<char>) -> SelinuxMode {
    let g = lowercase_of(trimmed(getenforce));
    if has_infix(g, "enforcing"@) {
        SelinuxMode::Enforcing
    } else if has_infix(g, "permissive"@) {
        SelinuxMode::Permissive
    } else if has_infix(g, "disabled"@) {
        SelinuxMode::Disabled
    } else if trimmed(enforce_node) == "1"@ {
        SelinuxMode::Enforcing
    } else if trimmed(enforce_node) == "0"@ {
        SelinuxMode::Permissive
    } else {
        SelinuxMode::Unknown
    }
}

/// The bootloader state that `ro.boot.verifiedbootstate` reports.
pub open spec fn bootloader_state_of(vb: Seq<char>) -> BootloaderState {
    let t = lowercase_of(trimmed(vb));
    if t == "green"@ {
        BootloaderState::Locked
    } else if t == "orange"@ {
        BootloaderState::Unlocked
    } else if t == "yellow"@ || t == "red"@ {
        BootloaderState::Tampered
    } else {
        BootloaderState::Unknown
    }
}

/// The encryption state that the three probe tiers reveal: `ro.crypto.state`
/// and `ro.crypto.type`, then `vold.decrypt`, then a listing of the
/// credential-encrypted `/data/user/0/`.
pub open spec fn encryption_state_of(
    crypto_state: Seq<char>,
    crypto_type: Seq<char>,
    vold: Seq<char>,
    ce_probe: Seq<char>,
) -> EncryptionState {
    let st = lowercase_of(trimmed(crypto_state));
    if st == "encrypted"@ {
        if lowercase_of(trimmed(crypto_type)) == "block"@ {
            EncryptionState::FullDiskEncryption
        } else {
            let v = lowercase_of(trimmed(vold));
            if has_infix(v, "trigger_restart_min_framework"@) || has_infix(v, "1"@) {
                EncryptionState::BeforeFirstUnlock
            } else {
                let c = lowercase_of(ce_probe);
                if has_infix(c, "permission denied"@) || has_infix(c, "no such file"@)
                    || trimmed(ce_probe).len() == 0 {
                    EncryptionState::BeforeFirstUnlock
                } else {
                    EncryptionState::AfterFirstUnlock
                }
            }
        }
    } else if st == "unencrypted"@ {
        EncryptionState::AfterFirstUnlock
    } else {
        EncryptionState::Unknown
    }
}

/// The manufacturer (lower-cased) is of the Xiaomi family.
pub open spec fn is_xiaomi_family(m: Seq<char>) -> bool {
    has_infix(m, "xiaomi"@) || has_infix(m, "redmi"@) || has_infix(m, "poco"@)
}

/// The OEM skin and its version for a manufacturer, given `ro.build.PDA`
/// and `ro.miui.ui.version.name`: Samsung runs One UI (version from the
/// PDA, absent when empty); the Xiaomi family runs HyperOS when the MIUI
/// version starts with `OS` and MIUI otherwise (nothing when it is empty).
pub open spec fn oem_skin_of(manufacturer: Seq<char>, pda: Seq<char>, miui: Seq<char>) -> (
    Option<Seq<char>>,
    Option<Seq<char>>,
) {
    let m = lowercase_of(manufacturer);
    if has_infix(m, "samsung"@) {
        (Some("One UI"@), if pda.len() == 0 { None } else { Some(pda) })
    } else if is_xiaomi_family(m) {
        if miui.len() == 0 {
            (None, None)
        } else if has_prefix(miui, "OS"@) {
            (Some("HyperOS"@), Some(miui))
        } else {
            (Some("MIUI"@), Some(miui))
        }
    } else {
        (None, None)
    }
}

/// The skin and version `p` are what `oem_skin_of` gives for the
/// manufacturer and some answers of the device.
pub open spec fn oem_skin_possible(manufacturer: Seq<char>, p: (Option<String>, Option<String>)) -> bool {
    exists|pda: Seq<char>, miui: Seq<char>|
        #![trigger oem_skin_of(manufacturer, pda, miui)]
        opt_is(p.0, oem_skin_of(manufacturer, pda, miui).0) && opt_is(
            p.1,
            oem_skin_of(manufacturer, pda, miui).1,
        )
}

/// The manufacturer has a skin whose detection reads a property: Samsung
/// or the Xiaomi family.
pub open spec fn skinned_manufacturer(manufacturer: Seq<char>) -> bool {
    has_infix(lowercase_of(manufacturer), "samsung"@) || is_xiaomi_family(lowercase_of(manufacturer))
}

/// `o` holds the text `t`, or both are absent.
pub open spec fn opt_is(o: Option<String>, t: Option<Seq<char>>) -> bool {
    match (o, t) {
        (None, None) => true,
        (Some(a), Some(b)) => a@ == b,
        _ => false,
    }
}

/// The outcome of checking that the device with `serial` is authorised.
pub open spec fn authorization_ok(ds: Seq<crate::adb::AdbDevice>, serial: Seq<char>) -> bool {
    first_with_serial(ds, serial, 0) matches Some(p) && ds[p].state == AdbDeviceState::Device
}

/// `e` is the error that refusing the device with `serial` among `ds`
/// gives: `NoDeviceDetected` when it is not listed, `DeviceUnauthorized`
/// when it awaits authorisation, `DeviceOffline` with the state otherwise.
pub open spec fn authorization_error(e: OracleError, ds: Seq<crate::adb::AdbDevice>, serial: Seq<char>) -> bool {
    match first_with_serial(ds, serial, 0) {
        None => e is NoDeviceDetected,
        Some(p) => match ds[p].state {
            AdbDeviceState::Device => false,
            AdbDeviceState::Unauthorized => e matches OracleError::DeviceUnauthorized { serial: s }
                && s@ == serial,
            AdbDeviceState::Offline => e matches OracleError::DeviceOffline { serial: s, state } && s@
                == serial && state@ == "offline"@,
            AdbDeviceState::Unknown(t) => e matches OracleError::DeviceOffline { serial: s, state }
                && s@ == serial && state@ == t@,
        },
    }
}

/// What a successful live detection on the device with `serial` promises
/// of its profile.
pub open spec fn live_profile_fits(p: CapabilityProfile, serial: Seq<char>) -> bool {
    &&& (p.device.serial@.len() > 0 || p.device.serial@ == serial)
    &&& oem_skin_possible(p.device.manufacturer@, (p.device.oem_skin, p.device.oem_skin_version))
    &&& p.usb_debugging_enabled
    &&& p.adb_authorized
    &&& !p.acknowledged
    &&& p.available_methods@ == methods_for(p.root_method)
    &&& exists|found: Seq<bool>|
        #![trigger split_by_presence(p.accessible_artifact_classes@, p.inaccessible_artifact_classes@, found, method_for_readable(p.available_methods@), inaccessibility_reason(p.root_method, p.selinux_mode))]
        found.len() == probed_classes().len() && split_by_presence(
            p.accessible_artifact_classes@,
            p.inaccessible_artifact_classes@,
            found,
            method_for_readable(p.available_methods@),
            inaccessibility_reason(p.root_method, p.selinux_mode),
        )
}

/// The known paths of each artifact class, in probing order.
pub open spec fn artifact_paths_spec() -> Seq<(ArtifactClass, Seq<Seq<char>>)> {
    seq![
        (ArtifactClass::WpaSupplicant, seq!["/data/misc/wifi/wpa_supplicant.conf"@, "/data/misc/wifi/WifiConfigStore.xml"@]),
        (ArtifactClass::WifiConfigStore, seq!["/data/misc/apexdata/com.android.wifi/WifiConfigStore.xml"@, "/data/misc/wifi/WifiConfigStore.xml"@]),
        (ArtifactClass::DhcpLeases, seq!["/data/misc/dhcp/"@, "/data/misc/ethernet/"@]),
        (ArtifactClass::BatteryStats, seq!["/data/system/batterystats.bin"@, "/data/system/batterystats-daily.xml"@]),
        (ArtifactClass::ConnectivityLogs, seq!["/data/misc/logd/"@, "/data/system/connectivity/"@]),
        (ArtifactClass::KernelLogs, seq!["/proc/kmsg"@, "/dev/kmsg"@]),
        (ArtifactClass::HostapdLogs, seq!["/data/misc/wifi/hostapd.conf"@, "/data/vendor/wifi/hostapd/"@]),
        (ArtifactClass::DnsCache, seq!["/data/misc/net/"@]),
        (ArtifactClass::NetworkPolicy, seq!["/data/system/netpolicy.xml"@, "/data/system/netstats/"@]),
        (ArtifactClass::BuildProp, seq!["/system/build.prop"@, "/vendor/build.prop"@]),
    ]
}

/// The artifact classes of the path table, in order.
pub open spec fn probed_classes() -> Seq<ArtifactClass> {
    artifact_paths_spec().map_values(|e: (ArtifactClass, Seq<Seq<char>>)| e.0)
}

/// The acquisition method for a readable artifact: privileged when the
/// device offers it, unprivileged otherwise.
pub open spec fn method_for_readable(methods: Seq<AcquisitionMethod>) -> AcquisitionMethod {
    if methods.contains(AcquisitionMethod::PrivilegedLogical) {
        AcquisitionMethod::PrivilegedLogical
    } else {
        AcquisitionMethod::UnprivilegedLogical
    }
}

/// The classes of the path table whose presence flag is `present`, in
/// table order: flag `k` tells whether class `k` of the table was found.
pub open spec fn classes_flagged(found: Seq<bool>, present: bool) -> Seq<ArtifactClass>
    decreases found.len(),
{
    if found.len() == 0 {
        Seq::empty()
    } else {
        let before = classes_flagged(found.drop_last(), present);
        if found.last() == present {
            before.push(probed_classes()[found.len() - 1])
        } else {
            before
        }
    }
}

/// `acc` and `inacc` are the split that the presence flags `found` give:
/// the found classes, in table order, are accessible through `method` with
/// their baseline reliability; the others, in table order, are inaccessible
/// for `reason`.
pub open spec fn split_by_presence(
    acc: Seq<AccessibleArtifactClass>,
    inacc: Seq<InaccessibleArtifactClass>,
    found: Seq<bool>,
    method: AcquisitionMethod,
    reason: Seq<char>,
) -> bool {
    &&& acc.map_values(|e: AccessibleArtifactClass| e.artifact_class) == classes_flagged(found, true)
    &&& forall|k: int|
        0 <= k < acc.len() ==> (#[trigger] acc[k]).acquisition_method == method
            && acc[k].confidence_permille == reliability_permille(acc[k].artifact_class)
    &&& inacc.map_values(|e: InaccessibleArtifactClass| e.artifact_class) == classes_flagged(
        found,
        false,
    )
    &&& forall|k: int| 0 <= k < inacc.len() ==> (#[trigger] inacc[k]).reason@ == reason
}

proof fn lemma_probed_classes_distinct()
    ensures
        probed_classes().len() == 10,
        forall|i: int, j: int|
            0 <= i < j < 10 ==> #[trigger] probed_classes()[i] != #[trigger] probed_classes()[j],
{
    let s = probed_classes();
    assert(s =~= seq![
        ArtifactClass::WpaSupplicant,
        ArtifactClass::WifiConfigStore,
        ArtifactClass::DhcpLeases,
        ArtifactClass::BatteryStats,
        ArtifactClass::ConnectivityLogs,
        ArtifactClass::KernelLogs,
        ArtifactClass::HostapdLogs,
        ArtifactClass::DnsCache,
        ArtifactClass::NetworkPolicy,
        ArtifactClass::BuildProp,
    ]);
}

proof fn lemma_classes_flagged(found: Seq<bool>, present: bool)
    requires
        found.len() <= probed_classes().len(),
    ensures
        classes_flagged(found, true).len() + classes_flagged(found, false).len() == found.len(),
        forall|c: ArtifactClass|
            classes_flagged(found, present).contains(c) <==> exists|k: int|
                0 <= k < found.len() && found[k] == present && #[trigger] probed_classes()[k] == c,
        classes_flagged(found, present).no_duplicates(),
    decreases found.len(),
{
    lemma_probed_classes_distinct();
    if found.len() > 0 {
        let d = found.drop_last();
        lemma_classes_flagged(d, present);
        let n = found.len() - 1;
        let before = classes_flagged(d, present);
        assert forall|c: ArtifactClass|
            classes_flagged(found, present).contains(c) <==> exists|k: int|
                0 <= k < found.len() && found[k] == present && #[trigger] probed_classes()[k] == c by {
            if classes_flagged(found, present).contains(c) {
                if !before.contains(c) {
                    assert(found[n] == present && probed_classes()[n] == c);
                } else {
                    let k = choose|k: int|
                        0 <= k < d.len() && d[k] == present && #[trigger] probed_classes()[k] == c;
                    assert(found[k] == d[k]);
                }
            }
            if exists|k: int| 0 <= k < found.len() && found[k] == present && #[trigger] probed_classes()[k] == c {
                let k = choose|k: int|
                    0 <= k < found.len() && found[k] == present && #[trigger] probed_classes()[k] == c;
                if k < n {
                    assert(d[k] == found[k]);
                    assert(before.contains(c));
                    if found.last() == present {
                        assert(before.push(probed_classes()[n]).contains(c)) by {
                            let i = choose|i: int| 0 <= i < before.len() && before[i] == c;
                            assert(before.push(probed_classes()[n])[i] == c);
                        }
                    }
                } else {
                    assert(classes_flagged(found, present) == before.push(probed_classes()[n]));
                    assert(before.push(probed_classes()[n])[before.len() as int] == c);
                }
            }
        }
        if found.last() == present {
            assert(!before.contains(probed_classes()[n])) by {
                if before.contains(probed_classes()[n]) {
                    let k = choose|k: int|
                        0 <= k < d.len() && d[k] == present && #[trigger] probed_classes()[k]
                            == probed_classes()[n];
                    assert(probed_classes()[k] != probed_classes()[n]);
                }
            }
            let s = before.push(probed_classes()[n]);
            assert forall|i: int, j: int| 0 <= i < s.len() && 0 <= j < s.len() && i != j implies s[i] != s[j] by {
                if i < before.len() && j < before.len() {
                    assert(s[i] == before[i] && s[j] == before[j]);
                } else if i < before.len() {
                    assert(s[i] == before[i]);
                    assert(before.contains(before[i]));
                } else if j < before.len() {
                    assert(s[j] == before[j]);
                    assert(before.contains(before[j]));
                }
            }
        }
        lemma_classes_flagged(d, !present);
    }
}

/// Each class of the path table is accessible exactly when its presence
/// flag is set and inaccessible exactly when it is not: it is listed once,
/// in one of the two lists, which together hold the whole table.
pub proof fn law_presence_decides_access(found: Seq<bool>)
    requires
        found.len() == probed_classes().len(),
    ensures
        classes_flagged(found, true).len() + classes_flagged(found, false).len()
            == probed_classes().len(),
        classes_flagged(found, true).no_duplicates(),
        classes_flagged(found, false).no_duplicates(),
        forall|k: int|
            0 <= k < found.len() ==> (classes_flagged(found, true).contains(
                #[trigger] probed_classes()[k],
            ) <==> found[k]) && (classes_flagged(found, false).contains(probed_classes()[k])
                <==> !found[k]),
{
    lemma_probed_classes_distinct();
    lemma_classes_flagged(found, true);
    lemma_classes_flagged(found, false);
    assert forall|k: int| 0 <= k < found.len() implies (classes_flagged(found, true).contains(
        #[trigger] probed_classes()[k],
    ) <==> found[k]) && (classes_flagged(found, false).contains(probed_classes()[k])
        <==> !found[k]) by {
        if classes_flagged(found, true).contains(probed_classes()[k]) {
            let j = choose|j: int|
                0 <= j < found.len() && found[j] == true && #[trigger] probed_classes()[j]
                    == probed_classes()[k];
            if j != k {
                if j < k {
                    assert(probed_classes()[j] != probed_classes()[k]);
                } else {
                    assert(probed_classes()[k] != probed_classes()[j]);
                }
            }
        }
        if classes_flagged(found, false).contains(probed_classes()[k]) {
            let j = choose|j: int|
                0 <= j < found.len() && found[j] == false && #[trigger] probed_classes()[j]
                    == probed_classes()[k];
            if j != k {
                if j < k {
                    assert(probed_classes()[j] != probed_classes()[k]);
                } else {
                    assert(probed_classes()[k] != probed_classes()[j]);
                }
            }
        }
    }
}

/// `a` is what asking, in order, whether each of `n` paths is readable
/// gives when asking stops at the first readable one: no answer before the
/// last is "readable", and asking ends early only on a readable answer.
pub open spec fn answers_shaped(a: Seq<bool>, n: nat) -> bool {
    &&& a.len() <= n
    &&& forall|j: int| 0 <= j < a.len() - 1 ==> !#[trigger] a[j]
    &&& a.len() < n ==> a.len() > 0 && a.last()
}

/// The answers per class of the path table have the shape of asking each
/// class's own paths in order.
pub open spec fn probe_answers_shaped(answers: Seq<Seq<bool>>) -> bool {
    &&& answers.len() == artifact_paths_spec().len()
    &&& forall|i: int|
        0 <= i < answers.len() ==> answers_shaped(
            #[trigger] answers[i],
            artifact_paths_spec()[i].1.len(),
        )
}

/// The presence flags that readability answers give: a class is found
/// when one of its own paths answered readable.
pub open spec fn found_of(answers: Seq<Seq<bool>>) -> Seq<bool> {
    answers.map_values(|a: Seq<bool>| a.contains(true))
}

/// The views of rows of answers.
pub open spec fn answers_view(v: Seq<Vec<bool>>) -> Seq<Seq<bool>> {
    v.map_values(|x: Vec<bool>| x@)
}

/// A class of the path table is listed as accessible exactly when one of
/// its own paths answered readable, and as inaccessible exactly when none
/// did.
pub proof fn law_access_follows_own_answers(answers: Seq<Seq<bool>>)
    requires
        probe_answers_shaped(answers),
    ensures
        forall|i: int|
            0 <= i < answers.len() ==> (classes_flagged(found_of(answers), true).contains(
                #[trigger] probed_classes()[i],
            ) <==> exists|j: int| 0 <= j < answers[i].len() && answers[i][j]) && (classes_flagged(
                found_of(answers),
                false,
            ).contains(probed_classes()[i]) <==> !exists|j: int|
                0 <= j < answers[i].len() && answers[i][j]),
{
    let f = found_of(answers);
    assert(probed_classes().len() == artifact_paths_spec().len());
    law_presence_decides_access(f);
    assert forall|i: int| 0 <= i < answers.len() implies (f[i] <==> exists|j: int|
        0 <= j < answers[i].len() && answers[i][j]) by {
        if f[i] {
            let j = choose|j: int| 0 <= j < answers[i].len() && answers[i][j] == true;
        }
        if exists|j: int| 0 <= j < answers[i].len() && answers[i][j] {
            let j = choose|j: int| 0 <= j < answers[i].len() && answers[i][j];
            assert(answers[i][j] == true);
        }
    }
}

/// The artifact path table.
pub fn artifact_paths() -> (r: Vec<(ArtifactClass, Vec<&'static str>)>)
    ensures
        r@.len() == artifact_paths_spec().len(),
        forall|k: int|
            0 <= k < r@.len() ==> (#[trigger] r@[k]).0 == artifact_paths_spec()[k].0 && r@[k].1@.len()
                == artifact_paths_spec()[k].1.len() && forall|j: int|
                0 <= j < r@[k].1@.len() ==> r@[k].1@[j]@ == artifact_paths_spec()[k].1[j],
{
    let r = vec![
        (ArtifactClass::WpaSupplicant, vec!["/data/misc/wifi/wpa_supplicant.conf", "/data/misc/wifi/WifiConfigStore.xml"]),
        (ArtifactClass::WifiConfigStore, vec!["/data/misc/apexdata/com.android.wifi/WifiConfigStore.xml", "/data/misc/wifi/WifiConfigStore.xml"]),
        (ArtifactClass::DhcpLeases, vec!["/data/misc/dhcp/", "/data/misc/ethernet/"]),
        (ArtifactClass::BatteryStats, vec!["/data/system/batterystats.bin", "/data/system/batterystats-daily.xml"]),
        (ArtifactClass::ConnectivityLogs, vec!["/data/misc/logd/", "/data/system/connectivity/"]),
        (ArtifactClass::KernelLogs, vec!["/proc/kmsg", "/dev/kmsg"]),
        (ArtifactClass::HostapdLogs, vec!["/data/misc/wifi/hostapd.conf", "/data/vendor/wifi/hostapd/"]),
        (ArtifactClass::DnsCache, vec!["/data/misc/net/"]),
        (ArtifactClass::NetworkPolicy, vec!["/data/system/netpolicy.xml", "/data/system/netstats/"]),
        (ArtifactClass::BuildProp, vec!["/system/build.prop", "/vendor/build.prop"]),
    ];
    r
}

/// The two artifact lists that presence flags give: flag `k` tells
/// whether class `k` of the path table was found. Found classes become
/// accessible through `method` with their baseline reliability, the others
/// inaccessible for `reason`; each list keeps table order.
pub fn classes_from_presence(found: &Vec<bool>, method: AcquisitionMethod, reason: &str) -> (r: (
    Vec<AccessibleArtifactClass>,
    Vec<InaccessibleArtifactClass>,
))
    requires
        found@.len() == probed_classes().len(),
    ensures
        split_by_presence(r.0@, r.1@, found@, method, reason@),
{
    let table = artifact_paths();
    let mut accessible: Vec<AccessibleArtifactClass> = Vec::new();
    let mut inaccessible: Vec<InaccessibleArtifactClass> = Vec::new();
    let mut i: usize = 0;
    proof {
        assert(found@.take(0) =~= Seq::<bool>::empty());
        assert(accessible@.map_values(|e: AccessibleArtifactClass| e.artifact_class) =~= Seq::<
            ArtifactClass,
        >::empty());
        assert(inaccessible@.map_values(|e: InaccessibleArtifactClass| e.artifact_class) =~= Seq::<
            ArtifactClass,
        >::empty());
    }
    while i < found.len()
        invariant
            0 <= i <= found@.len(),
            found@.len() == probed_classes().len(),
            table@.len() == artifact_paths_spec().len(),
            forall|k: int| 0 <= k < table@.len() ==> (#[trigger] table@[k]).0 == artifact_paths_spec()[k].0,
            split_by_presence(accessible@, inaccessible@, found@.take(i as int), method, reason@),
        decreases found@.len() - i,
    {
        let class = table[i].0;
        proof {
            assert(probed_classes()[i as int] == class);
            assert(found@.take(i as int + 1).drop_last() =~= found@.take(i as int));
            assert(found@.take(i as int + 1).last() == found@[i as int]);
        }
        let ghost old_acc = accessible@;
        let ghost old_inacc = inaccessible@;
        if found[i] {
            accessible.push(
                AccessibleArtifactClass {
                    artifact_class: class,
                    acquisition_method: method,
                    confidence_permille: class.baseline_reliability_permille(),
                },
            );
            proof {
                assert(accessible@.map_values(|e: AccessibleArtifactClass| e.artifact_class)
                    =~= old_acc.map_values(|e: AccessibleArtifactClass| e.artifact_class).push(class));
            }
        } else {
            inaccessible.push(InaccessibleArtifactClass { artifact_class: class, reason: owned(reason) });
            proof {
                assert(inaccessible@.map_values(|e: InaccessibleArtifactClass| e.artifact_class)
                    =~= old_inacc.map_values(|e: InaccessibleArtifactClass| e.artifact_class).push(
                    class,
                ));
            }
        }
        i = i + 1;
    }
    proof {
        assert(found@.take(found@.len() as int) =~= found@);
    }
    (accessible, inaccessible)
}

/// The capability detection engine. It holds no state: everything it finds
/// goes into the profile it returns.
#[derive(Debug, Clone, Copy)]
pub struct CapabilityDetector;

impl CapabilityDetector {
    /// A detector.
    pub fn new() -> CapabilityDetector {
        CapabilityDetector
    }

    /// The encryption zone of an artifact class: device-encrypted classes
    /// can be read before first unlock, credential-encrypted ones cannot.
    /// The zone does not depend on the API level.
    pub fn classify_artifact_encryption_zone(artifact_class: ArtifactClass, api_level: u32) -> (z:
        EncryptionZone)
        ensures
            z == zone_of(artifact_class),
    {
        match artifact_class {
            ArtifactClass::WpaSupplicant => EncryptionZone::DeviceEncrypted,
            ArtifactClass::WifiConfigStore => EncryptionZone::DeviceEncrypted,
            ArtifactClass::DhcpLeases => EncryptionZone::DeviceEncrypted,
            ArtifactClass::NetworkPolicy => EncryptionZone::DeviceEncrypted,
            ArtifactClass::BuildProp => EncryptionZone::DeviceEncrypted,
            ArtifactClass::KernelLogs => EncryptionZone::DeviceEncrypted,
            ArtifactClass::DnsCache => EncryptionZone::DeviceEncrypted,
            ArtifactClass::BatteryStats => EncryptionZone::CredentialEncrypted,
            ArtifactClass::ConnectivityLogs => EncryptionZone::DeAndCe,
            ArtifactClass::HostapdLogs => EncryptionZone::DeviceEncrypted,
            _ => EncryptionZone::UnknownEncryption,
        }
    }

    /// The acquisition methods available to a device, most capable first:
    /// a rooted device offers privileged logical acquisition and content
    /// providers; an unrooted one content providers, unprivileged logical
    /// acquisition and ADB backup. SELinux and encryption do not change it.
    pub fn determine_acquisition_methods(
        root_method: RootMethod,
        selinux_mode: SelinuxMode,
        encryption_state: EncryptionState,
    ) -> (r: Vec<AcquisitionMethod>)
        ensures
            r@ == methods_for(root_method),
    {
        let mut methods: Vec<AcquisitionMethod> = Vec::new();
        if root_method != RootMethod::NoRoot {
            methods.push(AcquisitionMethod::PrivilegedLogical);
        }
        methods.push(AcquisitionMethod::ContentProvider);
        if root_method == RootMethod::NoRoot {
            methods.push(AcquisitionMethod::UnprivilegedLogical);
            methods.push(AcquisitionMethod::AdbBackup);
        }
        assert(methods@ =~= methods_for(root_method));
        methods
    }

    /// The forensic justification for an inaccessible artifact class.
    pub fn determine_inaccessibility_reason(
        root_method: RootMethod,
        selinux_mode: SelinuxMode,
        artifact_class: &ArtifactClass,
    ) -> (s: String)
        ensures
            s@ == inaccessibility_reason(root_method, selinux_mode),
    {
        if root_method == RootMethod::NoRoot {
            owned("Requires root access \u{2014} file resides in privileged partition")
        } else if selinux_mode == SelinuxMode::Enforcing {
            owned("SELinux enforcing \u{2014} MAC policy blocks access even with root")
        } else {
            owned("File not found on device")
        }
    }

    /// The value of `key` in the contents of a build property file: the
    /// first line that gives it a value decides (empty when none does).
    pub fn parse_build_prop_value(&self, content: &str, key: &str) -> (v: String)
        ensures
            v@ == prop_value_in(lines_of(content@), key@),
    {
        let lines = split_lines(content);
        let ghost ls = lines_of(content@);
        let mut i: usize = 0;
        assert(ls.subrange(0, ls.len() as int) =~= ls);
        while i < lines.len()
            invariant
                0 <= i <= lines.len(),
                ls == lines_of(content@),
                lines@.len() == ls.len(),
                forall|k: int| 0 <= k < lines@.len() ==> (#[trigger] lines@[k])@ == ls[k],
                prop_value_in(ls, key@) == prop_value_in(ls.subrange(i as int, ls.len() as int), key@),
            decreases lines.len() - i,
        {
            let ghost rest = ls.subrange(i as int, ls.len() as int);
            assert(rest[0] == ls[i as int]);
            assert(rest.drop_first() =~= ls.subrange(i + 1, ls.len() as int));
            assert(lines@[i as int]@ == ls[i as int]);
            match line_value(lines[i].as_str(), key) {
                Some(v) => {
                    assert(prop_line_value(rest[0], key@) == Some(v@));
                    assert(prop_value_in(rest, key@) == v@);
                    return v;
                },
                None => {},
            }
            i = i + 1;
        }
        String::new()
    }

    /// The root method of the device, probing in priority order and stopping
    /// at the first finding. A failing `which` or existence probe counts as
    /// no finding; a failing `id` probe is returned as the error.
    pub fn detect_root_method<A: AdbInterface>(&self, adb: &A, serial: &str) -> (r: OracleResult<
        RootMethod,
    >) {
        let magisk = match adb.shell_command(serial, "which magisk") {
            Ok(s) => s,
            Err(_) => String::new(),
        };
        if names_binary_text(magisk.as_str()) {
            return Ok(RootMethod::Magisk);
        }
        let ksu = match adb.check_file_exists(serial, "/data/adb/ksu") {
            Ok(b) => b,
            Err(_) => false,
        };
        if ksu {
            return Ok(RootMethod::KernelSU);
        }
        let su = match adb.shell_command(serial, "which su") {
            Ok(s) => s,
            Err(_) => String::new(),
        };
        if names_binary_text(su.as_str()) {
            return Ok(RootMethod::SystemRoot);
        }
        let id = match adb.shell_command(serial, "id") {
            Ok(s) => s,
            Err(e) => {
                return Err(e);
            },
        };
        Ok(Self::root_method_from_probes(magisk.as_str(), ksu, su.as_str(), id.as_str()))
    }

    /// The root method that the probe answers reveal.
    pub fn root_method_from_probes(magisk: &str, ksu: bool, su: &str, id: &str) -> (r: RootMethod)
        ensures
            r == root_method_of(magisk@, ksu, su@, id@),
    {
        if names_binary_text(magisk) {
            RootMethod::Magisk
        } else if ksu {
            RootMethod::KernelSU
        } else if names_binary_text(su) {
            RootMethod::SystemRoot
        } else if str_contains(id, "uid=0") {
            RootMethod::AdbRoot
        } else {
            RootMethod::NoRoot
        }
    }

    /// The SELinux mode of the device: `getenforce`, then the enforce node.
    /// A failing probe counts as an empty answer, so this never fails.
    pub fn detect_selinux_mode<A: AdbInterface>(&self, adb: &A, serial: &str) -> (r: OracleResult<
        SelinuxMode,
    >)
        ensures
            r is Ok,
    {
        let getenforce = match adb.shell_command(serial, "getenforce") {
            Ok(s) => s,
            Err(_) => String::new(),
        };
        let g = lowercase(trim(getenforce.as_str()));
        if str_contains(g.as_str(), "enforcing") || str_contains(g.as_str(), "permissive")
            || str_contains(g.as_str(), "disabled") {
            return Ok(Self::selinux_mode_from_probes(getenforce.as_str(), ""));
        }
        let node = match adb.shell_command(serial, "cat /sys/fs/selinux/enforce") {
            Ok(s) => s,
            Err(_) => String::new(),
        };
        Ok(Self::selinux_mode_from_probes(getenforce.as_str(), node.as_str()))
    }

    /// The SELinux mode that the probe answers reveal.
    pub fn selinux_mode_from_probes(getenforce: &str, enforce_node: &str) -> (r: SelinuxMode)
        ensures
            r == selinux_mode_of(getenforce@, enforce_node@),
    {
        let g = lowercase(trim(getenforce));
        if str_contains(g.as_str(), "enforcing") {
            SelinuxMode::Enforcing
        } else if str_contains(g.as_str(), "permissive") {
            SelinuxMode::Permissive
        } else if str_contains(g.as_str(), "disabled") {
            SelinuxMode::Disabled
        } else {
            let n = trim(enforce_node);
            if str_eq(n, "1") {
                SelinuxMode::Enforcing
            } else if str_eq(n, "0") {
                SelinuxMode::Permissive
            } else {
                SelinuxMode::Unknown
            }
        }
    }

    /// The bootloader state from `ro.boot.verifiedbootstate`: green is
    /// locked, orange unlocked, yellow or red tampered.
    pub fn detect_bootloader_state<A: AdbInterface>(&self, adb: &A, serial: &str) -> (r: OracleResult<
        BootloaderState,
    >) {
        let vb = match adb.get_prop(serial, "ro.boot.verifiedbootstate") {
            Ok(s) => s,
            Err(e) => {
                return Err(e);
            },
        };
        Ok(Self::bootloader_state_from_prop(vb.as_str()))
    }

    /// The bootloader state that a verified-boot state text denotes.
    pub fn bootloader_state_from_prop(vb: &str) -> (r: BootloaderState)
        ensures
            r == bootloader_state_of(vb@),
    {
        let t = lowercase(trim(vb));
        if str_eq(t.as_str(), "green") {
            BootloaderState::Locked
        } else if str_eq(t.as_str(), "orange") {
            BootloaderState::Unlocked
        } else if str_eq(t.as_str(), "yellow") || str_eq(t.as_str(), "red") {
            BootloaderState::Tampered
        } else {
            BootloaderState::Unknown
        }
    }

    /// The encryption state, probing tier by tier and stopping as soon as
    /// a tier decides. A failing property read is returned as the error; a
    /// failing listing of `/data/user/0/` counts as an empty answer.
    pub fn detect_encryption_state<A: AdbInterface>(&self, adb: &A, serial: &str) -> (r: OracleResult<
        EncryptionState,
    >) {
        let crypto_state = match adb.get_prop(serial, "ro.crypto.state") {
            Ok(s) => s,
            Err(e) => {
                return Err(e);
            },
        };
        let st = lowercase(trim(crypto_state.as_str()));
        if !str_eq(st.as_str(), "encrypted") {
            return Ok(Self::encryption_state_from_probes(crypto_state.as_str(), "", "", ""));
        }
        let crypto_type = match adb.get_prop(serial, "ro.crypto.type") {
            Ok(s) => s,
            Err(e) => {
                return Err(e);
            },
        };
        if str_eq(lowercase(trim(crypto_type.as_str())).as_str(), "block") {
            return Ok(
                Self::encryption_state_from_probes(crypto_state.as_str(), crypto_type.as_str(), "", ""),
            );
        }
        let vold = match adb.get_prop(serial, "vold.decrypt") {
            Ok(s) => s,
            Err(e) => {
                return Err(e);
            },
        };
        let v = lowercase(trim(vold.as_str()));
        if str_contains(v.as_str(), "trigger_restart_min_framework") || str_contains(v.as_str(), "1") {
            return Ok(
                Self::encryption_state_from_probes(
                    crypto_state.as_str(),
                    crypto_type.as_str(),
                    vold.as_str(),
                    "",
                ),
            );
        }
        let ce = match adb.shell_command(serial, "ls /data/user/0/ 2>&1") {
            Ok(s) => s,
            Err(_) => String::new(),
        };
        Ok(
            Self::encryption_state_from_probes(
                crypto_state.as_str(),
                crypto_type.as_str(),
                vold.as_str(),
                ce.as_str(),
            ),
        )
    }

    /// The encryption state that the probe answers reveal.
    pub fn encryption_state_from_probes(
        crypto_state: &str,
        crypto_type: &str,
        vold: &str,
        ce_probe: &str,
    ) -> (r: EncryptionState)
        ensures
            r == encryption_state_of(crypto_state@, crypto_type@, vold@, ce_probe@),
    {
        let st = lowercase(trim(crypto_state));
        if str_eq(st.as_str(), "encrypted") {
            if str_eq(lowercase(trim(crypto_type)).as_str(), "block") {
                EncryptionState::FullDiskEncryption
            } else {
                let v = lowercase(trim(vold));
                if str_contains(v.as_str(), "trigger_restart_min_framework") || str_contains(
                    v.as_str(),
                    "1",
                ) {
                    EncryptionState::BeforeFirstUnlock
                } else {
                    let c = lowercase(ce_probe);
                    if str_contains(c.as_str(), "permission denied") || str_contains(
                        c.as_str(),
                        "no such file",
                    ) || trim(ce_probe).is_empty() {
                        EncryptionState::BeforeFirstUnlock
                    } else {
                        EncryptionState::AfterFirstUnlock
                    }
                }
            }
        } else if str_eq(st.as_str(), "unencrypted") {
            EncryptionState::AfterFirstUnlock
        } else {
            EncryptionState::Unknown
        }
    }

    /// The OEM skin and its version for a manufacturer.
    pub fn oem_skin_from(manufacturer: &str, pda: &str, miui: &str) -> (r: (
        Option<String>,
        Option<String>,
    ))
        ensures
            opt_is(r.0, oem_skin_of(manufacturer@, pda@, miui@).0),
            opt_is(r.1, oem_skin_of(manufacturer@, pda@, miui@).1),
    {
        let m = lowercase(manufacturer);
        if str_contains(m.as_str(), "samsung") {
            (Some(owned("One UI")), if pda.is_empty() { None } else { Some(owned(pda)) })
        } else if str_contains(m.as_str(), "xiaomi") || str_contains(m.as_str(), "redmi")
            || str_contains(m.as_str(), "poco") {
            if miui.is_empty() {
                (None, None)
            } else if str_starts_with(miui, "OS") {
                (Some(owned("HyperOS")), Some(owned(miui)))
            } else {
                (Some(owned("MIUI")), Some(owned(miui)))
            }
        } else {
            (None, None)
        }
    }

    /// The OEM skin of the device, reading the PDA version for Samsung and
    /// the MIUI version for the Xiaomi family.
    pub fn detect_oem_skin<A: AdbInterface>(&self, adb: &A, serial: &str, manufacturer: &str) -> (r:
        OracleResult<(Option<String>, Option<String>)>)
        ensures
            !skinned_manufacturer(manufacturer@) ==> (r matches Ok(p) && p.0 is None && p.1 is None),
            r matches Ok(p) ==> oem_skin_possible(manufacturer@, p),
    {
        let m = lowercase(manufacturer);
        if str_contains(m.as_str(), "samsung") {
            let pda = match adb.get_prop(serial, "ro.build.PDA") {
                Ok(s) => s,
                Err(e) => {
                    return Err(e);
                },
            };
            let p = Self::oem_skin_from(manufacturer, pda.as_str(), "");
            proof {
                reveal_strlit("");
                let w = oem_skin_of(manufacturer@, pda@, ""@);
                assert(opt_is(p.0, w.0) && opt_is(p.1, w.1));
            }
            Ok(p)
        } else if str_contains(m.as_str(), "xiaomi") || str_contains(m.as_str(), "redmi")
            || str_contains(m.as_str(), "poco") {
            let miui = match adb.get_prop(serial, "ro.miui.ui.version.name") {
                Ok(s) => s,
                Err(e) => {
                    return Err(e);
                },
            };
            let p = Self::oem_skin_from(manufacturer, "", miui.as_str());
            proof {
                reveal_strlit("");
                let w = oem_skin_of(manufacturer@, ""@, miui@);
                assert(opt_is(p.0, w.0) && opt_is(p.1, w.1));
            }
            Ok(p)
        } else {
            proof {
                let w = oem_skin_of(manufacturer@, ""@, ""@);
                assert(w.0 is None && w.1 is None);
            }
            Ok((None, None))
        }
    }

    /// The identity of the device from its properties. The serial is
    /// `ro.serialno`, or the ADB serial when that is empty; the API level is
    /// `ro.build.version.sdk` parsed as a number, or 0.
    pub fn detect_device_identity<A: AdbInterface>(&self, adb: &A, serial: &str) -> (r: OracleResult<
        DeviceIdentity,
    >)
        ensures
            r matches Ok(d) ==> {
                &&& (d.serial@.len() > 0 || d.serial@ == serial@)
                &&& oem_skin_possible(d.manufacturer@, (d.oem_skin, d.oem_skin_version))
            },
    {
        let prop_serial = match adb.get_prop(serial, "ro.serialno") {
            Ok(s) => s,
            Err(e) => {
                return Err(e);
            },
        };
        let device_serial = if prop_serial.as_str().is_empty() {
            owned(serial)
        } else {
            prop_serial
        };
        let manufacturer = match adb.get_prop(serial, "ro.product.manufacturer") {
            Ok(s) => s,
            Err(e) => {
                return Err(e);
            },
        };
        let model = match adb.get_prop(serial, "ro.product.model") {
            Ok(s) => s,
            Err(e) => {
                return Err(e);
            },
        };
        let android_version = match adb.get_prop(serial, "ro.build.version.release") {
            Ok(s) => s,
            Err(e) => {
                return Err(e);
            },
        };
        let sdk = match adb.get_prop(serial, "ro.build.version.sdk") {
            Ok(s) => s,
            Err(e) => {
                return Err(e);
            },
        };
        let api_level = api_level_of_text(sdk.as_str());
        let security_patch_level = match adb.get_prop(serial, "ro.build.version.security_patch") {
            Ok(s) => s,
            Err(e) => {
                return Err(e);
            },
        };
        let build_fingerprint = match adb.get_prop(serial, "ro.build.fingerprint") {
            Ok(s) => s,
            Err(e) => {
                return Err(e);
            },
        };
        let (oem_skin, oem_skin_version) = match self.detect_oem_skin(
            adb,
            serial,
            manufacturer.as_str(),
        ) {
            Ok(p) => p,
            Err(e) => {
                return Err(e);
            },
        };
        Ok(
            DeviceIdentity {
                serial: device_serial,
                manufacturer,
                model,
                android_version,
                api_level,
                security_patch_level,
                build_fingerprint,
                oem_skin,
                oem_skin_version,
            },
        )
    }

    /// Checks that the device with `serial` is listed and authorised.
    pub fn verify_device_authorized<A: AdbInterface>(&self, adb: &A, serial: &str) -> (r: OracleResult<
        (),
    >) {
        let devices = match adb.list_devices() {
            Ok(d) => d,
            Err(e) => {
                return Err(e);
            },
        };
        Self::authorization_outcome(&devices, serial)
    }

    /// Whether the device with `serial` among `devices` may be examined: it
    /// must be listed (else `NoDeviceDetected`) and in the `device` state
    /// (else `DeviceUnauthorized`, or `DeviceOffline` with its state).
    pub fn authorization_outcome(devices: &Vec<crate::adb::AdbDevice>, serial: &str) -> (r:
        OracleResult<()>)
        ensures
            r is Ok <==> authorization_ok(devices@, serial@),
            r matches Err(e) ==> authorization_error(e, devices@, serial@),
            first_with_serial(devices@, serial@, 0) is None ==> r matches Err(
                OracleError::NoDeviceDetected,
            ),
            first_with_serial(devices@, serial@, 0) matches Some(p) ==> match devices@[p].state {
                AdbDeviceState::Device => r is Ok,
                AdbDeviceState::Unauthorized => r matches Err(
                    OracleError::DeviceUnauthorized { serial: s },
                ) && s@ == serial@,
                AdbDeviceState::Offline => r matches Err(OracleError::DeviceOffline { serial: s, state })
                    && s@ == serial@ && state@ == "offline"@,
                AdbDeviceState::Unknown(t) => r matches Err(
                    OracleError::DeviceOffline { serial: s, state },
                ) && s@ == serial@ && state@ == t@,
            },
    {
        let mut i: usize = 0;
        while i < devices.len()
            invariant
                0 <= i <= devices.len(),
                first_with_serial(devices@, serial@, 0) == first_with_serial(devices@, serial@, i as int),
            decreases devices.len() - i,
        {
            if str_eq(devices[i].serial.as_str(), serial) {
                return match &devices[i].state {
                    AdbDeviceState::Device => Ok(()),
                    AdbDeviceState::Unauthorized => Err(
                        OracleError::DeviceUnauthorized { serial: owned(serial) },
                    ),
                    AdbDeviceState::Offline => Err(
                        OracleError::DeviceOffline { serial: owned(serial), state: owned("offline") },
                    ),
                    AdbDeviceState::Unknown(t) => Err(
                        OracleError::DeviceOffline { serial: owned(serial), state: t.clone() },
                    ),
                };
            }
            i = i + 1;
        }
        Err(OracleError::NoDeviceDetected)
    }

    /// Asks, in order, whether each of `paths` is readable on the device,
    /// stopping at the first that is, and returns the answers received (a
    /// failing probe counts as unreadable).
    fn ask_readable<A: AdbInterface>(adb: &A, serial: &str, paths: &Vec<&str>) -> (answers: Vec<bool>)
        ensures
            answers_shaped(answers@, paths@.len()),
    {
        let mut answers: Vec<bool> = Vec::new();
        let mut j: usize = 0;
        while j < paths.len()
            invariant
                0 <= j <= paths@.len(),
                answers@.len() == j,
                forall|k: int| 0 <= k < j ==> !#[trigger] answers@[k],
            decreases paths@.len() - j,
        {
            let readable = match adb.check_file_readable(serial, paths[j]) {
                Ok(b) => b,
                Err(_) => false,
            };
            answers.push(readable);
            if readable {
                return answers;
            }
            j = j + 1;
        }
        answers
    }

    /// Whether one of the answers is "readable".
    fn any_readable(answers: &Vec<bool>) -> (r: bool)
        ensures
            r == answers@.contains(true),
    {
        let mut j: usize = 0;
        while j < answers.len()
            invariant
                0 <= j <= answers@.len(),
                forall|k: int| 0 <= k < j ==> !#[trigger] answers@[k],
            decreases answers@.len() - j,
        {
            if answers[j] {
                assert(answers@[j as int] == true);
                return true;
            }
            j = j + 1;
        }
        false
    }

    /// Probes the readability of every class of the path table, in order,
    /// asking each class's own paths until one is readable, and returns the
    /// two artifact lists together with the answers received per class:
    /// a class is accessible exactly when one of its own paths answered
    /// readable.
    pub fn probe_accessible_artifacts<A: AdbInterface>(
        &self,
        adb: &A,
        serial: &str,
        root_method: RootMethod,
        selinux_mode: SelinuxMode,
        available_methods: &Vec<AcquisitionMethod>,
    ) -> (r: (Vec<AccessibleArtifactClass>, Vec<InaccessibleArtifactClass>, Vec<Vec<bool>>))
        ensures
            probe_answers_shaped(answers_view(r.2@)),
            split_by_presence(
                r.0@,
                r.1@,
                found_of(answers_view(r.2@)),
                method_for_readable(available_methods@),
                inaccessibility_reason(root_method, selinux_mode),
            ),
    {
        let table = artifact_paths();
        let method = readable_method(available_methods);
        let mut found: Vec<bool> = Vec::new();
        let mut answers: Vec<Vec<bool>> = Vec::new();
        let mut i: usize = 0;
        while i < table.len()
            invariant
                0 <= i <= table.len(),
                table@.len() == artifact_paths_spec().len(),
                forall|k: int|
                    0 <= k < table@.len() ==> (#[trigger] table@[k]).1@.len()
                        == artifact_paths_spec()[k].1.len(),
                answers@.len() == i,
                found@ == found_of(answers_view(answers@)),
                forall|k: int|
                    0 <= k < i ==> answers_shaped(
                        #[trigger] answers@[k]@,
                        artifact_paths_spec()[k].1.len(),
                    ),
            decreases table.len() - i,
        {
            let row = Self::ask_readable(adb, serial, &table[i].1);
            let present = Self::any_readable(&row);
            let ghost before = answers@;
            found.push(present);
            answers.push(row);
            proof {
                assert(answers_view(answers@) =~= answers_view(before).push(answers@[i as int]@));
                assert(found@ =~= found_of(answers_view(answers@)));
            }
            i = i + 1;
        }
        let reason = Self::determine_inaccessibility_reason(
            root_method,
            selinux_mode,
            &ArtifactClass::WpaSupplicant,
        );
        proof {
            assert(probed_classes().len() == artifact_paths_spec().len());
            assert forall|k: int| 0 <= k < answers_view(answers@).len() implies answers_shaped(
                #[trigger] answers_view(answers@)[k],
                artifact_paths_spec()[k].1.len(),
            ) by {
                assert(answers_view(answers@)[k] == answers@[k]@);
            }
        }
        let (accessible, inaccessible) = classes_from_presence(&found, method, reason.as_str());
        (accessible, inaccessible, answers)
    }

    /// The accessible and inaccessible artifact classes: for each class of
    /// the path table, in order, the first readable path makes it
    /// accessible (a failing readability probe counts as unreadable);
    /// otherwise it is inaccessible with the justification for this device.
    /// The lists are those of `probe_accessible_artifacts`.
    pub fn determine_accessible_artifacts<A: AdbInterface>(
        &self,
        adb: &A,
        serial: &str,
        root_method: RootMethod,
        selinux_mode: SelinuxMode,
        available_methods: &Vec<AcquisitionMethod>,
    ) -> (r: OracleResult<(Vec<AccessibleArtifactClass>, Vec<InaccessibleArtifactClass>)>)
        ensures
            r is Ok,
            r matches Ok(lists) ==> exists|found: Seq<bool>|
                #![trigger split_by_presence(lists.0@, lists.1@, found, method_for_readable(available_methods@), inaccessibility_reason(root_method, selinux_mode))]
                found.len() == probed_classes().len() && split_by_presence(
                    lists.0@,
                    lists.1@,
                    found,
                    method_for_readable(available_methods@),
                    inaccessibility_reason(root_method, selinux_mode),
                ),
            r matches Ok(lists) ==> exists|answers: Seq<Seq<bool>>|
                #![trigger split_by_presence(lists.0@, lists.1@, found_of(answers), method_for_readable(available_methods@), inaccessibility_reason(root_method, selinux_mode))]
                probe_answers_shaped(answers) && split_by_presence(
                    lists.0@,
                    lists.1@,
                    found_of(answers),
                    method_for_readable(available_methods@),
                    inaccessibility_reason(root_method, selinux_mode),
                ),
    {
        let (accessible, inaccessible, answers) = self.probe_accessible_artifacts(
            adb,
            serial,
            root_method,
            selinux_mode,
            available_methods,
        );
        let res: OracleResult<(Vec<AccessibleArtifactClass>, Vec<InaccessibleArtifactClass>)> = Ok(
            (accessible, inaccessible),
        );
        proof {
            let f = found_of(answers_view(answers@));
            assert(f.len() == probed_classes().len());
            assert(res matches Ok(lists) ==> split_by_presence(
                lists.0@,
                lists.1@,
                f,
                method_for_readable(available_methods@),
                inaccessibility_reason(root_method, selinux_mode),
            ));
        }
        res
    }

    /// Runs the full detection sequence on the device with `serial`: lists
    /// the devices, then detects as `detect_listed` does on that listing.
    pub fn detect<A: AdbInterface>(&self, adb: &A, serial: &str) -> (r: OracleResult<CapabilityProfile>)
        ensures
            r matches Ok(p) ==> live_profile_fits(p, serial@),
    {
        let devices = match adb.list_devices() {
            Ok(d) => d,
            Err(e) => {
                return Err(e);
            },
        };
        self.detect_listed(adb, serial, &devices)
    }

    /// The detection sequence once ADB has listed `devices`: authorisation
    /// of `serial` among them, identity, root method, SELinux mode,
    /// bootloader and encryption state, acquisition methods and accessible
    /// artifacts. A device that is not listed and authorised is refused with
    /// the error `authorization_outcome` gives; otherwise the methods are
    /// those of the detected root method, and each artifact class is
    /// accessible or inaccessible as the probes found.
    pub fn detect_listed<A: AdbInterface>(
        &self,
        adb: &A,
        serial: &str,
        devices: &Vec<crate::adb::AdbDevice>,
    ) -> (r: OracleResult<CapabilityProfile>)
        ensures
            !authorization_ok(devices@, serial@) ==> (r matches Err(e) && authorization_error(
                e,
                devices@,
                serial@,
            )),
            r matches Ok(p) ==> authorization_ok(devices@, serial@) && live_profile_fits(p, serial@),
    {
        if let Err(e) = Self::authorization_outcome(devices, serial) {
            return Err(e);
        }
        let device = match self.detect_device_identity(adb, serial) {
            Ok(d) => d,
            Err(e) => {
                return Err(e);
            },
        };
        let root_method = match self.detect_root_method(adb, serial) {
            Ok(m) => m,
            Err(e) => {
                return Err(e);
            },
        };
        let selinux_mode = match self.detect_selinux_mode(adb, serial) {
            Ok(m) => m,
            Err(e) => {
                return Err(e);
            },
        };
        let bootloader_state = match self.detect_bootloader_state(adb, serial) {
            Ok(s) => s,
            Err(e) => {
                return Err(e);
            },
        };
        let encryption_state = match self.detect_encryption_state(adb, serial) {
            Ok(s) => s,
            Err(e) => {
                return Err(e);
            },
        };
        let available_methods = Self::determine_acquisition_methods(
            root_method,
            selinux_mode,
            encryption_state,
        );
        let (accessible, inaccessible) = match self.determine_accessible_artifacts(
            adb,
            serial,
            root_method,
            selinux_mode,
            &available_methods,
        ) {
            Ok(p) => p,
            Err(e) => {
                return Err(e);
            },
        };
        let ghost found = choose|found: Seq<bool>|
            found.len() == probed_classes().len() && #[trigger] split_by_presence(
                accessible@,
                inaccessible@,
                found,
                method_for_readable(available_methods@),
                inaccessibility_reason(root_method, selinux_mode),
            );
        let p = CapabilityProfile {
            device,
            usb_debugging_enabled: true,
            adb_authorized: true,
            root_method,
            selinux_mode,
            bootloader_state,
            encryption_state,
            available_methods,
            accessible_artifact_classes: accessible,
            inaccessible_artifact_classes: inaccessible,
            detected_at: utc_now_millis(),
            acknowledged: false,
        };
        proof {
            assert(split_by_presence(
                p.accessible_artifact_classes@,
                p.inaccessible_artifact_classes@,
                found,
                method_for_readable(p.available_methods@),
                inaccessibility_reason(p.root_method, p.selinux_mode),
            ));
        }
        Ok(p)
    }
}

/// Whether a probe answer names a binary.
fn names_binary_text(out: &str) -> (r: bool)
    ensures
        r == names_binary(out@),
{
    !trim(out).is_empty() && !str_contains(out, "not found")
}

/// The API level that an SDK property text gives: its trimmed text parsed
/// as a number, or 0.
pub open spec fn api_level_of(sdk: Seq<char>) -> u32 {
    match parsed_u32(trimmed(sdk)) {
        Some(n) => n,
        None => 0,
    }
}

/// The API level that an SDK property text gives.
pub fn api_level_of_text(sdk: &str) -> (r: u32)
    ensures
        r == api_level_of(sdk@),
{
    match parse_u32(trim(sdk)) {
        Some(n) => n,
        None => 0,
    }
}

fn readable_method(methods: &Vec<AcquisitionMethod>) -> (m: AcquisitionMethod)
    ensures
        m == method_for_readable(methods@),
{
    let mut i: usize = 0;
    while i < methods.len()
        invariant
            0 <= i <= methods.len(),
            forall|k: int| 0 <= k < i ==> methods@[k] != AcquisitionMethod::PrivilegedLogical,
        decreases methods.len() - i,
    {
        if methods[i] == AcquisitionMethod::PrivilegedLogical {
            assert(methods@.contains(AcquisitionMethod::PrivilegedLogical));
            return AcquisitionMethod::PrivilegedLogical;
        }
        i = i + 1;
    }
    AcquisitionMethod::UnprivilegedLogical
}

/// The value that one line of a build property file gives to `key`.
fn line_value(line: &str, key: &str) -> (r: Option<String>)
    ensures
        match r {
            None => prop_line_value(line@, key@) is None,
            Some(v) => prop_line_value(line@, key@) == Some(v@),
        },
{
    let t = trim(line);
    let cs = chars_of(t);
    if cs.len() > 0 && cs[0] == '#' {
        return None;
    }
    match find_char(cs.as_slice(), '=') {
        None => None,
        Some(pos) => {
            let k = string_from_range(cs.as_slice(), 0, pos);
            proof {
                assert(cs@.subrange(0, pos as int) =~= t@.subrange(0, pos as int));
            }
            if str_eq(trim(k.as_str()), key) {
                let after = string_from_range(cs.as_slice(), pos + 1, cs.len());
                proof {
                    assert(cs@.subrange(pos + 1, cs@.len() as int) =~= t@.subrange(
                        pos + 1,
                        t@.len() as int,
                    ));
                }
                let v1 = trim_matches_char(trim(after.as_str()), '"');
                let v2 = trim_matches_char(v1.as_str(), '\'');
                Some(v2)
            } else {
                None
            }
        },
    }
}


/// The root method that a static image shows: KernelSU (`data/adb/ksu`),
/// then Magisk (`data/adb/magisk`), then an `su` binary, else none.
pub open spec fn static_root_method_of(ksu: bool, magisk: bool, su: bool) -> RootMethod {
    if ksu {
        RootMethod::KernelSU
    } else if magisk {
        RootMethod::Magisk
    } else if su {
        RootMethod::SystemRoot
    } else {
        RootMethod::NoRoot
    }
}

/// The text an optional string holds.
pub open spec fn opt_view(f: Option<String>) -> Option<Seq<char>> {
    match f {
        Some(s) => Some(s@),
        None => None,
    }
}

/// The text of file contents read as UTF-8, or `None` when there are no
/// contents or they are not valid UTF-8.
pub open spec fn text_of(c: Option<Seq<u8>>) -> Option<Seq<char>> {
    match c {
        Some(b) => if vstd::utf8::valid_utf8(b) {
            Some(vstd::utf8::decode_utf8(b))
        } else {
            None
        },
        None => None,
    }
}

/// The value of `key` in the first of the texts that gives it a
/// non-empty value, or the empty text.
pub open spec fn first_prop_value_in(cs: Seq<Option<Seq<char>>>, key: Seq<char>) -> Seq<char>
    decreases cs.len(),
{
    if cs.len() == 0 {
        Seq::empty()
    } else {
        match cs[0] {
            Some(c) if prop_value_in(lines_of(c), key).len() > 0 => prop_value_in(lines_of(c), key),
            _ => first_prop_value_in(cs.drop_first(), key),
        }
    }
}

/// The build property files of an image, in the order they are looked at.
pub open spec fn static_prop_paths() -> Seq<Seq<char>> {
    seq![
        "/system/build.prop"@,
        "/vendor/build.prop"@,
        "/build.prop"@,
        "system/build.prop"@,
        "vendor/build.prop"@,
        "build.prop"@,
    ]
}

/// The texts of the image's build property files.
pub open spec fn image_prop_texts<V: VirtualFileSystem>(vfs: &V) -> Seq<Option<Seq<char>>> {
    static_prop_paths().map_values(|path: Seq<char>| text_of(vfs.contents(path)))
}

/// Whether one of `paths` is present in the image.
pub open spec fn any_present<V: VirtualFileSystem>(vfs: &V, paths: Seq<Seq<char>>) -> bool {
    exists|j: int| 0 <= j < paths.len() && vfs.present(#[trigger] paths[j])
}

/// For each class of the path table, whether one of its paths is present.
pub open spec fn image_found<V: VirtualFileSystem>(vfs: &V) -> Seq<bool> {
    artifact_paths_spec().map_values(|e: (ArtifactClass, Seq<Seq<char>>)| any_present(vfs, e.1))
}

/// The SELinux mode a static image shows: permissive exactly when
/// `ro.boot.selinux` is `permissive`, enforcing otherwise.
pub open spec fn static_selinux_of(prop: Seq<char>) -> SelinuxMode {
    if prop == "permissive"@ {
        SelinuxMode::Permissive
    } else {
        SelinuxMode::Enforcing
    }
}

/// The encryption state a static image shows: after first unlock exactly
/// when credential-encrypted data (the settings app's directory) is present.
pub open spec fn static_encryption_of(ce_present: bool) -> EncryptionState {
    if ce_present {
        EncryptionState::AfterFirstUnlock
    } else {
        EncryptionState::BeforeFirstUnlock
    }
}

/// `p` is the profile of a static image whose build property files hold
/// `files`, whose root files are present as `ksu`, `magisk` and `su` say,
/// whose settings directory is present when `ce_present`, and whose artifact
/// classes are present as `found` says.
pub open spec fn static_profile_fits(
    p: CapabilityProfile,
    files: Seq<Option<Seq<char>>>,
    ksu: bool,
    magisk: bool,
    su: bool,
    ce_present: bool,
    found: Seq<bool>,
) -> bool {
    let manufacturer = first_prop_value_in(files, "ro.product.manufacturer"@);
    let skin = oem_skin_of(
        manufacturer,
        first_prop_value_in(files, "ro.build.PDA"@),
        first_prop_value_in(files, "ro.miui.ui.version.name"@),
    );
    &&& p.device.serial@ == "OFFLINE_IMAGE"@
    &&& p.device.manufacturer@ == manufacturer
    &&& p.device.model@ == first_prop_value_in(files, "ro.product.model"@)
    &&& p.device.android_version@ == first_prop_value_in(files, "ro.build.version.release"@)
    &&& p.device.api_level == api_level_of(first_prop_value_in(files, "ro.build.version.sdk"@))
    &&& p.device.security_patch_level@ == first_prop_value_in(
        files,
        "ro.build.version.security_patch"@,
    )
    &&& p.device.build_fingerprint@ == first_prop_value_in(files, "ro.build.fingerprint"@)
    &&& opt_is(p.device.oem_skin, skin.0)
    &&& opt_is(p.device.oem_skin_version, skin.1)
    &&& !p.usb_debugging_enabled
    &&& !p.adb_authorized
    &&& !p.acknowledged
    &&& p.root_method == static_root_method_of(ksu, magisk, su)
    &&& p.selinux_mode == static_selinux_of(first_prop_value_in(files, "ro.boot.selinux"@))
    &&& p.bootloader_state == bootloader_state_of(
        first_prop_value_in(files, "ro.boot.verifiedbootstate"@),
    )
    &&& p.encryption_state == static_encryption_of(ce_present)
    &&& p.available_methods@ == seq![AcquisitionMethod::OfflineImage]
    &&& split_by_presence(
        p.accessible_artifact_classes@,
        p.inaccessible_artifact_classes@,
        found,
        AcquisitionMethod::OfflineImage,
        "File not present in forensic image"@,
    )
}


/// Calls `String::from_utf8`, which succeeds exactly on valid UTF-8 and then
/// holds the text those bytes encode.
#[verifier::external_body]
fn utf8_text(bytes: Vec<u8>) -> (r: Option<String>)
    ensures
        r is Some <==> vstd::utf8::valid_utf8(bytes@),
        r matches Some(s) ==> vstd::utf8::encode_utf8(s@) == bytes@ && s@ == vstd::utf8::decode_utf8(
            bytes@,
        ),
{
    String::from_utf8(bytes).ok()
}

impl CapabilityDetector {
    /// The root method that the presence of root files in an image shows.
    pub fn static_root_method(ksu: bool, magisk: bool, su: bool) -> (r: RootMethod)
        ensures
            r == static_root_method_of(ksu, magisk, su),
    {
        if ksu {
            RootMethod::KernelSU
        } else if magisk {
            RootMethod::Magisk
        } else if su {
            RootMethod::SystemRoot
        } else {
            RootMethod::NoRoot
        }
    }

    /// The value of `key` in the first of the files' contents that gives
    /// it a non-empty value (empty when none does); a file that could not
    /// be read as text is `None` and skipped.
    pub fn first_prop_value(&self, contents: &Vec<Option<String>>, key: &str) -> (r: String)
        ensures
            r@ == first_prop_value_in(contents@.map_values(|f: Option<String>| opt_view(f)), key@),
    {
        let ghost texts = contents@.map_values(|f: Option<String>| opt_view(f));
        let mut i: usize = 0;
        proof {
            assert(texts.skip(0) =~= texts);
        }
        while i < contents.len()
            invariant
                i <= contents@.len(),
                texts == contents@.map_values(|f: Option<String>| opt_view(f)),
                first_prop_value_in(texts, key@) == first_prop_value_in(texts.skip(i as int), key@),
            decreases contents@.len() - i,
        {
            proof {
                assert(texts.skip(i as int).drop_first() =~= texts.skip(i as int + 1));
                assert(texts.skip(i as int)[0] == opt_view(contents@[i as int]));
            }
            match &contents[i] {
                Some(content) => {
                    let v = self.parse_build_prop_value(content.as_str(), key);
                    if !v.as_str().is_empty() {
                        return v;
                    }
                },
                None => {},
            }
            i = i + 1;
        }
        proof {
            assert(texts.skip(contents@.len() as int) =~= Seq::<Option<Seq<char>>>::empty());
        }
        String::new()
    }

    /// The text of the image file at `path`: `None` when it cannot be read
    /// or is not UTF-8.
    fn read_text<V: VirtualFileSystem>(vfs: &V, path: &str) -> (r: Option<String>)
        ensures
            opt_view(r) == text_of(vfs.contents(path@)),
    {
        match vfs.read_file(path) {
            Ok(bytes) => utf8_text(bytes),
            Err(_) => None,
        }
    }

    /// The contents of the image's build property files, read as text:
    /// `/system/build.prop`, `/vendor/build.prop`, `/build.prop` and the
    /// same three paths without the leading `/`, in that order. A file that
    /// cannot be read or is not UTF-8 is `None`.
    fn static_prop_files<V: VirtualFileSystem>(vfs: &V) -> (r: Vec<Option<String>>)
        ensures
            r@.map_values(|f: Option<String>| opt_view(f)) == image_prop_texts(vfs),
    {
        let mut contents: Vec<Option<String>> = Vec::new();
        contents.push(Self::read_text(vfs, "/system/build.prop"));
        contents.push(Self::read_text(vfs, "/vendor/build.prop"));
        contents.push(Self::read_text(vfs, "/build.prop"));
        contents.push(Self::read_text(vfs, "system/build.prop"));
        contents.push(Self::read_text(vfs, "vendor/build.prop"));
        contents.push(Self::read_text(vfs, "build.prop"));
        proof {
            assert(contents@.map_values(|f: Option<String>| opt_view(f)) =~= image_prop_texts(vfs));
        }
        contents
    }

    /// The value of `key` in the first build property file of the image
    /// that gives it a non-empty value (empty when none does); the files
    /// are those `static_prop_files` reads, and those that cannot be read
    /// or are not UTF-8 are skipped.
    pub fn get_static_prop<V: VirtualFileSystem>(&self, vfs: &V, key: &str) -> (r: String)
        ensures
            r@ == first_prop_value_in(image_prop_texts(vfs), key@),
    {
        let files = Self::static_prop_files(vfs);
        self.first_prop_value(&files, key)
    }

    /// The profile of a static image from what the image holds: the
    /// contents of its build property files (`None` for one that could not
    /// be read as text), whether the KernelSU, Magisk and `su` root files
    /// are present, whether the settings app's credential-encrypted
    /// directory is present, and for each class of the path table whether
    /// one of its paths is present.
    pub fn static_profile(
        &self,
        prop_files: &Vec<Option<String>>,
        ksu: bool,
        magisk: bool,
        su: bool,
        ce_present: bool,
        found: &Vec<bool>,
        detected_at: i64,
    ) -> (p: CapabilityProfile)
        requires
            found@.len() == probed_classes().len(),
        ensures
            static_profile_fits(
                p,
                prop_files@.map_values(|f: Option<String>| opt_view(f)),
                ksu,
                magisk,
                su,
                ce_present,
                found@,
            ),
            p.detected_at == detected_at,
    {
        let manufacturer = self.first_prop_value(prop_files, "ro.product.manufacturer");
        let model = self.first_prop_value(prop_files, "ro.product.model");
        let android_version = self.first_prop_value(prop_files, "ro.build.version.release");
        let sdk = self.first_prop_value(prop_files, "ro.build.version.sdk");
        let api_level = api_level_of_text(sdk.as_str());
        let security_patch_level = self.first_prop_value(prop_files, "ro.build.version.security_patch");
        let build_fingerprint = self.first_prop_value(prop_files, "ro.build.fingerprint");
        let pda = self.first_prop_value(prop_files, "ro.build.PDA");
        let miui = self.first_prop_value(prop_files, "ro.miui.ui.version.name");
        let (oem_skin, oem_skin_version) = Self::oem_skin_from(
            manufacturer.as_str(),
            pda.as_str(),
            miui.as_str(),
        );
        let device = DeviceIdentity {
            serial: owned("OFFLINE_IMAGE"),
            manufacturer,
            model,
            android_version,
            api_level,
            security_patch_level,
            build_fingerprint,
            oem_skin,
            oem_skin_version,
        };
        let root_method = Self::static_root_method(ksu, magisk, su);
        let selinux_prop = self.first_prop_value(prop_files, "ro.boot.selinux");
        let selinux_mode = if str_eq(selinux_prop.as_str(), "permissive") {
            SelinuxMode::Permissive
        } else {
            SelinuxMode::Enforcing
        };
        let bootloader_prop = self.first_prop_value(prop_files, "ro.boot.verifiedbootstate");
        let bootloader_state = Self::bootloader_state_from_prop(bootloader_prop.as_str());
        let encryption_state = if ce_present {
            EncryptionState::AfterFirstUnlock
        } else {
            EncryptionState::BeforeFirstUnlock
        };
        let available_methods = vec![AcquisitionMethod::OfflineImage];
        let (accessible, inaccessible) = classes_from_presence(
            found,
            AcquisitionMethod::OfflineImage,
            "File not present in forensic image",
        );
        proof {
            assert(available_methods@ =~= seq![AcquisitionMethod::OfflineImage]);
        }
        CapabilityProfile {
            device,
            usb_debugging_enabled: false,
            adb_authorized: false,
            root_method,
            selinux_mode,
            bootloader_state,
            encryption_state,
            available_methods,
            accessible_artifact_classes: accessible,
            inaccessible_artifact_classes: inaccessible,
            detected_at,
            acknowledged: false,
        }
    }

    /// Whether one of `paths` is present in the image, asking in order and
    /// stopping at the first that is.
    fn any_path_present<V: VirtualFileSystem>(vfs: &V, paths: &Vec<&str>) -> (r: bool)
        ensures
            r == any_present(vfs, paths@.map_values(|p: &str| p@)),
    {
        let ghost ps = paths@.map_values(|p: &str| p@);
        let mut j: usize = 0;
        while j < paths.len()
            invariant
                j <= paths@.len(),
                ps == paths@.map_values(|p: &str| p@),
                forall|k: int| 0 <= k < j ==> !vfs.present(#[trigger] ps[k]),
            decreases paths@.len() - j,
        {
            if vfs.path_exists(paths[j]) {
                proof {
                    assert(vfs.present(ps[j as int]));
                }
                return true;
            }
            j = j + 1;
        }
        false
    }

    /// Runs detection on a static image through the virtual filesystem: it
    /// reads the build property files, checks which root files, which
    /// credential-encrypted data and which artifact paths are present, and
    /// returns the `static_profile` of those answers. Always `Ok`.
    pub fn detect_static<V: VirtualFileSystem>(&self, vfs: &V) -> (r: OracleResult<CapabilityProfile>)
        ensures
            r matches Ok(p) && static_profile_fits(
                p,
                image_prop_texts(vfs),
                vfs.present("/data/adb/ksu"@) || vfs.present("data/adb/ksu"@),
                vfs.present("/data/adb/magisk"@) || vfs.present("data/adb/magisk"@),
                vfs.present("/system/bin/su"@) || vfs.present("system/bin/su"@) || vfs.present(
                    "/system/xbin/su"@,
                ) || vfs.present("system/xbin/su"@),
                vfs.present("/data/data/com.android.settings"@) || vfs.present(
                    "data/data/com.android.settings"@,
                ),
                image_found(vfs),
            ),
    {
        let files = Self::static_prop_files(vfs);
        let ksu = vfs.path_exists("/data/adb/ksu") || vfs.path_exists("data/adb/ksu");
        let magisk = vfs.path_exists("/data/adb/magisk") || vfs.path_exists("data/adb/magisk");
        let su = vfs.path_exists("/system/bin/su") || vfs.path_exists("system/bin/su")
            || vfs.path_exists("/system/xbin/su") || vfs.path_exists("system/xbin/su");
        let ce_present = vfs.path_exists("/data/data/com.android.settings") || vfs.path_exists(
            "data/data/com.android.settings",
        );
        let table = artifact_paths();
        let mut found: Vec<bool> = Vec::new();
        let mut i: usize = 0;
        while i < table.len()
            invariant
                0 <= i <= table.len(),
                table@.len() == artifact_paths_spec().len(),
                forall|k: int|
                    0 <= k < table@.len() ==> (#[trigger] table@[k]).1@.map_values(|p: &str| p@)
                        == artifact_paths_spec()[k].1,
                found@.len() == i,
                forall|k: int| 0 <= k < i ==> found@[k] == #[trigger] image_found(vfs)[k],
            decreases table.len() - i,
        {
            let present = Self::any_path_present(vfs, &table[i].1);
            found.push(present);
            i = i + 1;
        }
        proof {
            assert(found@ =~= image_found(vfs));
            assert(probed_classes().len() == artifact_paths_spec().len());
        }
        let p = self.static_profile(&files, ksu, magisk, su, ce_present, &found, utc_now_millis());
        Ok(p)
    }
}
impl Default for CapabilityDetector {
    /// The detector, as `new` makes it.
    fn default() -> (d: CapabilityDetector)
        ensures
            d == CapabilityDetector,
    {
        CapabilityDetector::new()
    }
}

} // verus!
