//! The forensic ontology: identifiers, device state, artifact classes, the
//! security constraint model and the audit vocabulary.
//!
//! Identifiers are 128-bit UUID values; timestamps are milliseconds since the
//! Unix epoch (UTC); reliabilities are in thousandths.

use vstd::prelude::*;
use vstd::arithmetic::power::pow;
use crate::hash::hex_digit;
use crate::json::{json_quoted, json_string};
use crate::text::{
    append, ascii_lower, ascii_upper, ascii_upper_char, concat, has_infix, lowercase,
    lowercase_of, owned, str_contains,
};

verus! {

// ── Identifiers ──────────────────────────────────────────────────────────────

/// The value is a version 4 (random) UUID: its version nibble (bits 76 to
/// 79) is 4 and its variant (bits 62 and 63) is the RFC 4122 one, `10`.
pub open spec fn is_v4_uuid(v: u128) -> bool {
    (v >> 76u128) & 0xfu128 == 4u128 && (v >> 62u128) & 0x3u128 == 2u128
}

/// Calls `uuid::Uuid::new_v4` and returns its 128-bit value. The crate masks
/// random bits with `0xFFFFFFFFFFFF4FFFBFFFFFFFFFFFFFFF` and sets
/// `0x40008000000000000000`, so the value is a version 4 UUID; the other
/// 122 bits are random and nothing is stated of them.
#[verifier::external_body]
pub(crate) fn random_uuid() -> (r: u128)
    ensures
        is_v4_uuid(r),
{
    uuid::Uuid::new_v4().as_u128()
}

/// Hexadecimal digit `j` of the 128-bit value `v`, counting from the most
/// significant digit (`0 <= j < 32`).
pub open spec fn uuid_nibble(v: u128, j: int) -> int {
    (v as int / pow(16, (31 - j) as nat)) % 16
}

/// Digits `from` up to `to` of `v`, in lowercase hexadecimal.
pub open spec fn uuid_digits(v: u128, from: int, to: int) -> Seq<char> {
    Seq::new((to - from) as nat, |k: int| hex_digit(uuid_nibble(v, from + k)))
}

/// The hyphenated lowercase text of the UUID with value `v`, such as
/// `67e55044-10b1-426f-9247-bb680e5fe0c8`: groups of 8, 4, 4, 4 and 12
/// hexadecimal digits, most significant first.
pub open spec fn uuid_text(v: u128) -> Seq<char> {
    uuid_digits(v, 0, 8) + seq!['-'] + uuid_digits(v, 8, 12) + seq!['-'] + uuid_digits(v, 12, 16)
        + seq!['-'] + uuid_digits(v, 16, 20) + seq!['-'] + uuid_digits(v, 20, 32)
}

/// Calls `uuid::Uuid::from_u128`, which takes the value's bytes big-endian,
/// and renders the UUID with `hyphenated()`, whose `Display` writes the
/// bytes as lowercase hexadecimal in groups of 8-4-4-4-12 digits.
#[verifier::external_body]
pub(crate) fn uuid_string(v: u128) -> (r: String)
    ensures
        r@ == uuid_text(v),
{
    uuid::Uuid::from_u128(v).hyphenated().to_string()
}

/// Calls `chrono::Utc::now` and returns `timestamp_millis`, the milliseconds
/// since the Unix epoch. The instant is the clock's, so nothing is stated.
#[verifier::external_body]
pub(crate) fn utc_now_millis() -> i64 {
    chrono::Utc::now().timestamp_millis()
}

/// Calls `chrono::Utc::now` and renders the instant with
/// `to_rfc3339_opts(SecondsFormat::AutoSi, true)`: RFC 3339 in UTC with a
/// `Z` suffix, the form chrono's `Serialize` writes. The instant is the
/// clock's, so nothing is stated of the text.
#[verifier::external_body]
pub(crate) fn utc_now_text() -> String {
    chrono::Utc::now().to_rfc3339_opts(chrono::SecondsFormat::AutoSi, true)
}

/// Calls `chrono::Utc::now` and renders the instant with `to_rfc3339`:
/// RFC 3339 with a `+00:00` offset. The instant is the clock's, so nothing
/// is stated of the text.
#[verifier::external_body]
pub(crate) fn utc_now_rfc3339() -> String {
    chrono::Utc::now().to_rfc3339()
}

/// A unique investigation identifier (a UUID value).
#[derive(Debug, Clone, Copy, PartialEq, Eq, Hash)]
pub struct InvestigationId(pub u128);

impl InvestigationId {
    /// A fresh random (version 4) identifier.
    pub fn new() -> (id: InvestigationId)
        ensures
            is_v4_uuid(id.0),
    {
        InvestigationId(random_uuid())
    }

    /// The identifier in hyphenated lowercase hexadecimal.
    pub fn display_text(&self) -> (s: String)
        ensures
            s@ == uuid_text(self.0),
    {
        uuid_string(self.0)
    }
}

/// A unique artifact identifier (a UUID value).
#[derive(Debug, Clone, Copy, PartialEq, Eq, Hash)]
pub struct ArtifactId(pub u128);

impl ArtifactId {
    /// A fresh random (version 4) identifier.
    pub fn new() -> (id: ArtifactId)
        ensures
            is_v4_uuid(id.0),
    {
        ArtifactId(random_uuid())
    }

    /// The identifier in hyphenated lowercase hexadecimal.
    pub fn display_text(&self) -> (s: String)
        ensures
            s@ == uuid_text(self.0),
    {
        uuid_string(self.0)
    }
}

/// A unique evidence-record identifier (a UUID value).
#[derive(Debug, Clone, Copy, PartialEq, Eq, Hash)]
pub struct RecordId(pub u128);

impl RecordId {
    /// A fresh random (version 4) identifier.
    pub fn new() -> (id: RecordId)
        ensures
            is_v4_uuid(id.0),
    {
        RecordId(random_uuid())
    }

    /// The identifier in hyphenated lowercase hexadecimal.
    pub fn display_text(&self) -> (s: String)
        ensures
            s@ == uuid_text(self.0),
    {
        uuid_string(self.0)
    }
}

// ── Identities ───────────────────────────────────────────────────────────────

/// The forensic examiner operating the platform.
#[derive(Debug, Clone, PartialEq, Eq)]
pub struct ExaminerIdentity {
    pub name: String,
    pub badge_id: String,
    pub organization: String,
}

/// Identity profile of the target Android device.
#[derive(Debug, Clone, PartialEq, Eq)]
pub struct DeviceIdentity {
    pub serial: String,
    pub manufacturer: String,
    pub model: String,
    pub android_version: String,
    pub api_level: u32,
    pub security_patch_level: String,
    pub build_fingerprint: String,
    pub oem_skin: Option<String>,
    pub oem_skin_version: Option<String>,
}

// ── Device state ─────────────────────────────────────────────────────────────

/// The root access method detected on the device.
#[derive(Debug, Clone, Copy, PartialEq, Eq, Structural)]
pub enum RootMethod {
    /// No root access.
    NoRoot,
    Magisk,
    SystemRoot,
    AdbRoot,
    KernelSU,
}

/// SELinux enforcement mode.
#[derive(Debug, Clone, Copy, PartialEq, Eq, Structural)]
pub enum SelinuxMode {
    Enforcing,
    Permissive,
    Disabled,
    Unknown,
}

/// Bootloader lock state.
#[derive(Debug, Clone, Copy, PartialEq, Eq, Structural)]
pub enum BootloaderState {
    Locked,
    Unlocked,
    Tampered,
    Unknown,
}

/// File-based encryption state of the device.
#[derive(Debug, Clone, Copy, PartialEq, Eq, Structural)]
pub enum EncryptionState {
    BeforeFirstUnlock,
    AfterFirstUnlock,
    FullDiskEncryption,
    Unknown,
}

/// An acquisition method.
#[derive(Debug, Clone, Copy, PartialEq, Eq, Hash, Structural)]
pub enum AcquisitionMethod {
    PrivilegedLogical,
    AdbBackup,
    UnprivilegedLogical,
    ContentProvider,
    OfflineImage,
}

/// An artifact class accessible under an acquisition method.
#[derive(Debug, Clone, PartialEq, Eq)]
pub struct AccessibleArtifactClass {
    pub artifact_class: ArtifactClass,
    pub acquisition_method: AcquisitionMethod,
    /// Confidence in thousandths (0 to 1000).
    pub confidence_permille: u32,
}

/// An inaccessible artifact class with its forensic justification.
#[derive(Debug, Clone, PartialEq, Eq)]
pub struct InaccessibleArtifactClass {
    pub artifact_class: ArtifactClass,
    pub reason: String,
}

/// The capability profile that drives acquisition and parsing.
#[derive(Debug, Clone)]
pub struct CapabilityProfile {
    pub device: DeviceIdentity,
    pub usb_debugging_enabled: bool,
    pub adb_authorized: bool,
    pub root_method: RootMethod,
    pub selinux_mode: SelinuxMode,
    pub bootloader_state: BootloaderState,
    pub encryption_state: EncryptionState,
    pub available_methods: Vec<AcquisitionMethod>,
    pub accessible_artifact_classes: Vec<AccessibleArtifactClass>,
    pub inaccessible_artifact_classes: Vec<InaccessibleArtifactClass>,
    /// Detection time, milliseconds since the Unix epoch.
    pub detected_at: i64,
    pub acknowledged: bool,
}

// ── Acquisition ──────────────────────────────────────────────────────────────

/// Overall outcome of the acquisition stage.
#[derive(Debug, Clone, Copy, PartialEq, Eq, Structural)]
pub enum AcquisitionState {
    Complete,
    Partial,
    Failed,
}

impl AcquisitionState {
    /// The display label (`ACQUISITION_COMPLETE`, ...).
    pub fn display_text(&self) -> (s: String)
        ensures
            s@ == match self {
                AcquisitionState::Complete => "ACQUISITION_COMPLETE"@,
                AcquisitionState::Partial => "ACQUISITION_PARTIAL"@,
                AcquisitionState::Failed => "ACQUISITION_FAILED"@,
            },
    {
        match self {
            AcquisitionState::Complete => owned("ACQUISITION_COMPLETE"),
            AcquisitionState::Partial => owned("ACQUISITION_PARTIAL"),
            AcquisitionState::Failed => owned("ACQUISITION_FAILED"),
        }
    }
}

/// Why an artifact could not be acquired.
#[derive(Debug, Clone, PartialEq, Eq)]
pub enum ArtifactFailureReason {
    PermissionDenied,
    SeLinuxBlocked,
    NotFound,
    BfuLocked,
    DeviceDisconnected,
    Timeout,
    RootRequired,
    IsDirectory,
    Unknown(String),
}

/// The failure reason for an error text whose lowercase form is `lower`.
pub open spec fn classify_spec(lower: Seq<char>, raw: Seq<char>) -> ArtifactFailureReason {
    if has_infix(lower, "permission denied"@) {
        ArtifactFailureReason::PermissionDenied
    } else if has_infix(lower, "selinux"@) || has_infix(lower, "avc:"@) {
        ArtifactFailureReason::SeLinuxBlocked
    } else if has_infix(lower, "no such file"@) || has_infix(lower, "does not exist"@) {
        ArtifactFailureReason::NotFound
    } else if has_infix(lower, "is a directory"@) || has_infix(lower, "remote object"@) {
        ArtifactFailureReason::IsDirectory
    } else if has_infix(lower, "device not found"@) || has_infix(lower, "device offline"@)
        || has_infix(lower, "closed"@) {
        ArtifactFailureReason::DeviceDisconnected
    } else if has_infix(lower, "timeout"@) {
        ArtifactFailureReason::Timeout
    } else {
        ArtifactFailureReason::Unknown(arbitrary())
    }
}

/// `r` is the classification of an error text with lowercase form `lower`
/// and unmodified form `raw`.
pub open spec fn classified_as(r: ArtifactFailureReason, lower: Seq<char>, raw: Seq<char>) -> bool {
    match classify_spec(lower, raw) {
        ArtifactFailureReason::Unknown(_) => r matches ArtifactFailureReason::Unknown(s) && s@ == raw,
        other => r == other,
    }
}

/// Classification ignores letter case on ASCII text: an ASCII error text
/// and its upper-cased form fall into the same reason, which is never
/// "before first unlock" nor "root required" (no error text names those),
/// and an unrecognised text keeps its own letters.
pub proof fn law_classify_ignores_ascii_case(
    s: Seq<char>,
    r: ArtifactFailureReason,
    r_upper: ArtifactFailureReason,
)
    requires
        vstd::utf8::is_ascii_chars(s),
        classified_as(r, ascii_lower(s), s),
        classified_as(r_upper, ascii_lower(ascii_upper(s)), ascii_upper(s)),
    ensures
        (r is Unknown) == (r_upper is Unknown),
        !(r is Unknown) ==> r == r_upper,
        !(r is BfuLocked) && !(r is RootRequired),
        r matches ArtifactFailureReason::Unknown(t) ==> t@ == s,
        r_upper matches ArtifactFailureReason::Unknown(t) ==> t@ == ascii_upper(s),
{
    assert forall|i: int| 0 <= i < s.len() implies #[trigger] ascii_lower(ascii_upper(s))[i]
        == ascii_lower(s)[i] by {
        let c = s[i];
        assert('\0' <= c <= '\u{7f}');
        if 'a' <= c <= 'z' {
            assert(ascii_upper_char(c) as u32 == (c as u32) - 32);
        }
    }
    assert(ascii_lower(ascii_upper(s)) =~= ascii_lower(s));
}

impl ArtifactFailureReason {
    /// Classifies an ADB error text, matching case-insensitively.
    pub fn classify(error_str: &str) -> (r: ArtifactFailureReason)
        ensures
            classified_as(r, lowercase_of(error_str@), error_str@),
            vstd::utf8::is_ascii_chars(error_str@) ==> classified_as(
                r,
                ascii_lower(error_str@),
                error_str@,
            ),
    {
        let lower = lowercase(error_str);
        Self::classify_lowercase(lower.as_str(), error_str)
    }

    /// Classifies an ADB error text `raw` given its lowercase form `lower`.
    pub fn classify_lowercase(lower: &str, raw: &str) -> (r: ArtifactFailureReason)
        ensures
            classified_as(r, lower@, raw@),
    {
        if str_contains(lower, "permission denied") {
            ArtifactFailureReason::PermissionDenied
        } else if str_contains(lower, "selinux") || str_contains(lower, "avc:") {
            ArtifactFailureReason::SeLinuxBlocked
        } else if str_contains(lower, "no such file") || str_contains(lower, "does not exist") {
            ArtifactFailureReason::NotFound
        } else if str_contains(lower, "is a directory") || str_contains(lower, "remote object") {
            ArtifactFailureReason::IsDirectory
        } else if str_contains(lower, "device not found") || str_contains(lower, "device offline")
            || str_contains(lower, "closed") {
            ArtifactFailureReason::DeviceDisconnected
        } else if str_contains(lower, "timeout") {
            ArtifactFailureReason::Timeout
        } else {
            ArtifactFailureReason::Unknown(owned(raw))
        }
    }

    /// The display label (`PERMISSION_DENIED`, ..., `UNKNOWN: <text>`).
    pub fn display_text(&self) -> (s: String)
        ensures
            s@ == match self {
                ArtifactFailureReason::PermissionDenied => "PERMISSION_DENIED"@,
                ArtifactFailureReason::SeLinuxBlocked => "SELINUX_BLOCKED"@,
                ArtifactFailureReason::NotFound => "NOT_FOUND"@,
                ArtifactFailureReason::BfuLocked => "BFU_LOCKED"@,
                ArtifactFailureReason::DeviceDisconnected => "DEVICE_DISCONNECTED"@,
                ArtifactFailureReason::Timeout => "TIMEOUT"@,
                ArtifactFailureReason::RootRequired => "ROOT_REQUIRED"@,
                ArtifactFailureReason::IsDirectory => "IS_DIRECTORY"@,
                ArtifactFailureReason::Unknown(t) => "UNKNOWN: "@ + t@,
            },
    {
        match self {
            ArtifactFailureReason::PermissionDenied => owned("PERMISSION_DENIED"),
            ArtifactFailureReason::SeLinuxBlocked => owned("SELINUX_BLOCKED"),
            ArtifactFailureReason::NotFound => owned("NOT_FOUND"),
            ArtifactFailureReason::BfuLocked => owned("BFU_LOCKED"),
            ArtifactFailureReason::DeviceDisconnected => owned("DEVICE_DISCONNECTED"),
            ArtifactFailureReason::Timeout => owned("TIMEOUT"),
            ArtifactFailureReason::RootRequired => owned("ROOT_REQUIRED"),
            ArtifactFailureReason::IsDirectory => owned("IS_DIRECTORY"),
            ArtifactFailureReason::Unknown(t) => concat("UNKNOWN: ", t.as_str()),
        }
    }
}

/// Encryption zone of an artifact under file-based encryption.
#[derive(Debug, Clone, Copy, PartialEq, Eq, Structural)]
pub enum EncryptionZone {
    DeviceEncrypted,
    CredentialEncrypted,
    DeAndCe,
    UnknownEncryption,
}

impl EncryptionZone {
    /// The display label.
    pub fn display_text(&self) -> (s: String)
        ensures
            s@ == match self {
                EncryptionZone::DeviceEncrypted => "DE (Device Encrypted)"@,
                EncryptionZone::CredentialEncrypted => "CE (Credential Encrypted)"@,
                EncryptionZone::DeAndCe => "DE+CE (Mixed)"@,
                EncryptionZone::UnknownEncryption => "UNKNOWN"@,
            },
    {
        match self {
            EncryptionZone::DeviceEncrypted => owned("DE (Device Encrypted)"),
            EncryptionZone::CredentialEncrypted => owned("CE (Credential Encrypted)"),
            EncryptionZone::DeAndCe => owned("DE+CE (Mixed)"),
            EncryptionZone::UnknownEncryption => owned("UNKNOWN"),
        }
    }
}

/// Record of one artifact acquisition attempt.
#[derive(Debug, Clone)]
pub struct AcquisitionAttemptRecord {
    pub artifact_class: ArtifactClass,
    pub device_path: String,
    pub command_executed: String,
    pub success: bool,
    pub error_detail: Option<String>,
    pub failure_reason: Option<ArtifactFailureReason>,
    pub security_mechanism: Option<String>,
    pub expected_given_profile: bool,
    pub sha256_hash: Option<String>,
    pub acquired_bytes: Option<u64>,
    /// Attempt time, milliseconds since the Unix epoch.
    pub attempted_at: i64,
}

/// The examiner's decision at a before-first-unlock or partial acquisition prompt.
#[derive(Debug, Clone, Copy, PartialEq, Eq, Structural)]
pub enum ExaminerDecision {
    UnlockDevice,
    ProceedPartial,
    AbortInvestigation,
}

// ── Artifact classification ──────────────────────────────────────────────────

/// Forensic artifact classes recognised by the platform.
#[derive(Debug, Clone, Copy, PartialEq, Eq, Hash, Structural)]
pub enum ArtifactClass {
    WpaSupplicant,
    WifiConfigStore,
    DhcpLeases,
    BatteryStats,
    ConnectivityLogs,
    KernelLogs,
    HostapdLogs,
    DnsCache,
    NetworkPolicy,
    BuildProp,
    Unknown,
}

/// The baseline reliability of an artifact class, in thousandths.
pub open spec fn reliability_permille(c: ArtifactClass) -> u32 {
    match c {
        ArtifactClass::KernelLogs => 990,
        ArtifactClass::WifiConfigStore => 950,
        ArtifactClass::WpaSupplicant => 900,
        ArtifactClass::DhcpLeases => 920,
        ArtifactClass::ConnectivityLogs => 850,
        ArtifactClass::BatteryStats => 800,
        ArtifactClass::HostapdLogs => 880,
        ArtifactClass::DnsCache => 700,
        ArtifactClass::NetworkPolicy => 850,
        ArtifactClass::BuildProp => 990,
        ArtifactClass::Unknown => 300,
    }
}

impl ArtifactClass {
    /// The baseline reliability of this class in thousandths (0.99 is 990).
    pub fn baseline_reliability_permille(&self) -> (r: u32)
        ensures
            r == reliability_permille(*self),
            r <= 1000,
    {
        match self {
            ArtifactClass::KernelLogs => 990,
            ArtifactClass::WifiConfigStore => 950,
            ArtifactClass::WpaSupplicant => 900,
            ArtifactClass::DhcpLeases => 920,
            ArtifactClass::ConnectivityLogs => 850,
            ArtifactClass::BatteryStats => 800,
            ArtifactClass::HostapdLogs => 880,
            ArtifactClass::DnsCache => 700,
            ArtifactClass::NetworkPolicy => 850,
            ArtifactClass::BuildProp => 990,
            ArtifactClass::Unknown => 300,
        }
    }

    /// The variant name, as `{:?}` prints it.
    pub fn debug_name(&self) -> (s: String)
        ensures
            s@ == artifact_class_name(*self),
    {
        match self {
            ArtifactClass::WpaSupplicant => owned("WpaSupplicant"),
            ArtifactClass::WifiConfigStore => owned("WifiConfigStore"),
            ArtifactClass::DhcpLeases => owned("DhcpLeases"),
            ArtifactClass::BatteryStats => owned("BatteryStats"),
            ArtifactClass::ConnectivityLogs => owned("ConnectivityLogs"),
            ArtifactClass::KernelLogs => owned("KernelLogs"),
            ArtifactClass::HostapdLogs => owned("HostapdLogs"),
            ArtifactClass::DnsCache => owned("DnsCache"),
            ArtifactClass::NetworkPolicy => owned("NetworkPolicy"),
            ArtifactClass::BuildProp => owned("BuildProp"),
            ArtifactClass::Unknown => owned("Unknown"),
        }
    }
}

/// The variant name of an artifact class.
pub open spec fn artifact_class_name(c: ArtifactClass) -> Seq<char> {
    match c {
        ArtifactClass::WpaSupplicant => "WpaSupplicant"@,
        ArtifactClass::WifiConfigStore => "WifiConfigStore"@,
        ArtifactClass::DhcpLeases => "DhcpLeases"@,
        ArtifactClass::BatteryStats => "BatteryStats"@,
        ArtifactClass::ConnectivityLogs => "ConnectivityLogs"@,
        ArtifactClass::KernelLogs => "KernelLogs"@,
        ArtifactClass::HostapdLogs => "HostapdLogs"@,
        ArtifactClass::DnsCache => "DnsCache"@,
        ArtifactClass::NetworkPolicy => "NetworkPolicy"@,
        ArtifactClass::BuildProp => "BuildProp"@,
        ArtifactClass::Unknown => "Unknown"@,
    }
}

/// Volatility of an artifact.
#[derive(Debug, Clone, Copy, PartialEq, Eq, Structural)]
pub enum VolatilityClass {
    Persistent,
    SemiVolatile,
    Volatile,
}

/// Supported forensic input types.
#[derive(Debug, Clone, Copy, PartialEq, Eq, Hash, Structural)]
pub enum InputType {
    PhysicalImage,
    FullFilesystem,
    LogicalExtraction,
    PartitionDump,
    DirectoryExtraction,
    ArtifactCollection,
    UfedExport,
    OxygenExport,
    MagnetExport,
    LiveDevice,
}

// ── Security constraint model ────────────────────────────────────────────────

/// Privilege levels, ordered `User < Shell < System < Root`.
#[derive(Debug, Clone, Copy, PartialEq, Eq, PartialOrd, Ord, Structural)]
pub enum PrivilegeLevel {
    User,
    Shell,
    System,
    Root,
}

/// The position of a privilege level in the order `User < Shell < System < Root`.
pub open spec fn privilege_rank(p: PrivilegeLevel) -> int {
    match p {
        PrivilegeLevel::User => 0,
        PrivilegeLevel::Shell => 1,
        PrivilegeLevel::System => 2,
        PrivilegeLevel::Root => 3,
    }
}

/// The variant name of a privilege level.
pub open spec fn privilege_name(p: PrivilegeLevel) -> Seq<char> {
    match p {
        PrivilegeLevel::User => "User"@,
        PrivilegeLevel::Shell => "Shell"@,
        PrivilegeLevel::System => "System"@,
        PrivilegeLevel::Root => "Root"@,
    }
}

impl PrivilegeLevel {
    /// The position of this level in the order.
    pub fn rank(&self) -> (r: u8)
        ensures
            r as int == privilege_rank(*self),
    {
        match self {
            PrivilegeLevel::User => 0,
            PrivilegeLevel::Shell => 1,
            PrivilegeLevel::System => 2,
            PrivilegeLevel::Root => 3,
        }
    }

    /// The variant name, as `{:?}` prints it.
    pub fn debug_name(&self) -> (s: String)
        ensures
            s@ == privilege_name(*self),
    {
        match self {
            PrivilegeLevel::User => owned("User"),
            PrivilegeLevel::Shell => owned("Shell"),
            PrivilegeLevel::System => owned("System"),
            PrivilegeLevel::Root => owned("Root"),
        }
    }
}

/// Encryption requirement of an artifact.
#[derive(Debug, Clone, Copy, PartialEq, Eq, Structural)]
pub enum EncryptionStateRequirement {
    Unencrypted,
    DeviceEncrypted,
    CredentialEncrypted,
    Any,
}

/// SELinux requirement of an artifact.
#[derive(Debug, Clone, Copy, PartialEq, Eq, Structural)]
pub enum SelinuxRequirement {
    Permissive,
    Enforcing,
    Any,
}

/// The security constraint of an artifact class.
#[derive(Debug, Clone, PartialEq, Eq, Structural)]
pub struct SecurityConstraint {
    pub min_privilege: PrivilegeLevel,
    pub encryption: EncryptionStateRequirement,
    pub selinux: SelinuxRequirement,
}

/// The security context of an analysis.
#[derive(Debug, Clone, PartialEq, Eq, Structural)]
pub struct SCMProfile {
    pub privilege: PrivilegeLevel,
    pub encryption: EncryptionState,
    pub selinux: SelinuxMode,
}

/// Why `profile` fails `c`, or `None` if it satisfies it.
pub open spec fn constraint_violation(c: SecurityConstraint, profile: SCMProfile) -> Option<Seq<char>> {
    if privilege_rank(profile.privilege) < privilege_rank(c.min_privilege) {
        Some(
            "Insufficient privilege: current is "@ + privilege_name(profile.privilege)
                + ", requires "@ + privilege_name(c.min_privilege),
        )
    } else if c.encryption == EncryptionStateRequirement::Unencrypted && profile.encryption
        == EncryptionState::BeforeFirstUnlock {
        Some("Target partition is encrypted and CE keys are evicted (BFU)"@)
    } else if c.encryption == EncryptionStateRequirement::DeviceEncrypted && profile.encryption
        == EncryptionState::Unknown {
        Some("Encryption state unknown"@)
    } else if c.encryption == EncryptionStateRequirement::CredentialEncrypted && profile.encryption
        != EncryptionState::AfterFirstUnlock {
        Some("Credential encrypted partition requires After First Unlock (AFU)"@)
    } else if c.selinux == SelinuxRequirement::Permissive && profile.selinux
        == SelinuxMode::Enforcing && profile.privilege != PrivilegeLevel::Root {
        Some("SELinux is enforcing and blocks non-root access to this domain"@)
    } else {
        None
    }
}

impl SecurityConstraint {
    /// Checks whether `profile` satisfies this constraint: privilege first,
    /// then encryption state, then SELinux mode. The error names the first
    /// requirement that fails.
    pub fn is_satisfied_by(&self, profile: &SCMProfile) -> (r: Result<(), String>)
        ensures
            match constraint_violation(*self, *profile) {
                None => r is Ok,
                Some(msg) => r matches Err(m) && m@ == msg,
            },
    {
        if profile.privilege.rank() < self.min_privilege.rank() {
            let mut m = concat("Insufficient privilege: current is ", profile.privilege.debug_name().as_str());
            crate::text::append(&mut m, ", requires ");
            crate::text::append(&mut m, self.min_privilege.debug_name().as_str());
            return Err(m);
        }
        match self.encryption {
            EncryptionStateRequirement::Unencrypted => {
                if profile.encryption == EncryptionState::BeforeFirstUnlock {
                    return Err(owned("Target partition is encrypted and CE keys are evicted (BFU)"));
                }
            },
            EncryptionStateRequirement::DeviceEncrypted => {
                if profile.encryption == EncryptionState::Unknown {
                    return Err(owned("Encryption state unknown"));
                }
            },
            EncryptionStateRequirement::CredentialEncrypted => {
                if profile.encryption != EncryptionState::AfterFirstUnlock {
                    return Err(owned("Credential encrypted partition requires After First Unlock (AFU)"));
                }
            },
            EncryptionStateRequirement::Any => {},
        }
        match self.selinux {
            SelinuxRequirement::Permissive => {
                if profile.selinux == SelinuxMode::Enforcing && profile.privilege != PrivilegeLevel::Root {
                    return Err(owned("SELinux is enforcing and blocks non-root access to this domain"));
                }
            },
            SelinuxRequirement::Enforcing => {},
            SelinuxRequirement::Any => {},
        }
        Ok(())
    }
}

/// Dynamic accessibility status of an artifact.
#[derive(Debug, Clone, PartialEq, Eq)]
pub enum AccessibilityStatus {
    Accessible,
    Inaccessible { required: SecurityConstraint, current_profile: SCMProfile, reason: String },
}

// ── Evidence records ─────────────────────────────────────────────────────────

/// Provenance of a record: the exact source bytes in the acquired artifact.
#[derive(Debug, Clone, PartialEq, Eq)]
pub struct SourceReference {
    pub artifact_id: ArtifactId,
    pub artifact_hash: String,
    pub parser_id: String,
    pub parser_version: String,
    pub byte_offset: Option<u64>,
    pub byte_length: Option<u64>,
    pub db_row_id: Option<i64>,
    /// Parse time, milliseconds since the Unix epoch.
    pub parsed_at: i64,
}

/// Wi-Fi security protocols.
#[derive(Debug, Clone, Copy, PartialEq, Eq, Hash, Structural)]
pub enum SecurityProtocol {
    Open,
    Wep,
    WpaPsk,
    Wpa2Psk,
    Wpa3Sae,
    Owe,
    EapPeap,
    EapTls,
    Unknown,
}

/// The display label of a security protocol.
pub open spec fn protocol_label(p: SecurityProtocol) -> Seq<char> {
    match p {
        SecurityProtocol::Open => "OPEN"@,
        SecurityProtocol::Wep => "WEP"@,
        SecurityProtocol::WpaPsk => "WPA-PSK"@,
        SecurityProtocol::Wpa2Psk => "WPA2-PSK"@,
        SecurityProtocol::Wpa3Sae => "WPA3-SAE"@,
        SecurityProtocol::Owe => "OWE"@,
        SecurityProtocol::EapPeap => "EAP-PEAP"@,
        SecurityProtocol::EapTls => "EAP-TLS"@,
        SecurityProtocol::Unknown => "UNKNOWN"@,
    }
}

impl SecurityProtocol {
    /// The display label (`OPEN`, `WPA2-PSK`, ...).
    pub fn display_text(&self) -> (s: String)
        ensures
            s@ == protocol_label(*self),
    {
        match self {
            SecurityProtocol::Open => owned("OPEN"),
            SecurityProtocol::Wep => owned("WEP"),
            SecurityProtocol::WpaPsk => owned("WPA-PSK"),
            SecurityProtocol::Wpa2Psk => owned("WPA2-PSK"),
            SecurityProtocol::Wpa3Sae => owned("WPA3-SAE"),
            SecurityProtocol::Owe => owned("OWE"),
            SecurityProtocol::EapPeap => owned("EAP-PEAP"),
            SecurityProtocol::EapTls => owned("EAP-TLS"),
            SecurityProtocol::Unknown => owned("UNKNOWN"),
        }
    }
}

/// Timestamp anomaly flags.
#[derive(Debug, Clone, Copy, PartialEq, Eq, Hash, Structural)]
pub enum TimestampAnomaly {
    /// No anomaly detected.
    NoAnomaly,
    Future,
    EpochDefault,
    PreAndroidEra,
    OemDefault,
    ClockSkewDetected,
    FormatAmbiguous,
}

/// Processing stage of a record.
#[derive(Debug, Clone, Copy, PartialEq, Eq, Hash, Structural)]
pub enum EvidenceLayer {
    Raw,
    Parsed,
    Normalized,
    Correlated,
}

/// Whether the device acted as a Wi-Fi client or as a hotspot.
#[derive(Debug, Clone, Copy, PartialEq, Eq, Structural)]
pub enum NetworkRole {
    DeviceAsClient,
    DeviceAsHotspot,
    Ambiguous,
}

/// Court-facing confidence classification.
#[derive(Debug, Clone, Copy, PartialEq, Eq, PartialOrd, Ord, Structural)]
pub enum ConfidenceClassification {
    Definitive,
    High,
    Moderate,
    Low,
    Contradicted,
}

impl ConfidenceClassification {
    /// The display label (`DEFINITIVE`, ...).
    pub fn display_text(&self) -> (s: String)
        ensures
            s@ == match self {
                ConfidenceClassification::Definitive => "DEFINITIVE"@,
                ConfidenceClassification::High => "HIGH"@,
                ConfidenceClassification::Moderate => "MODERATE"@,
                ConfidenceClassification::Low => "LOW"@,
                ConfidenceClassification::Contradicted => "CONTRADICTED"@,
            },
    {
        match self {
            ConfidenceClassification::Definitive => owned("DEFINITIVE"),
            ConfidenceClassification::High => owned("HIGH"),
            ConfidenceClassification::Moderate => owned("MODERATE"),
            ConfidenceClassification::Low => owned("LOW"),
            ConfidenceClassification::Contradicted => owned("CONTRADICTED"),
        }
    }
}

// ── Audit vocabulary ─────────────────────────────────────────────────────────

/// Operations recorded in the audit log.
#[derive(Debug, Clone, PartialEq, Eq)]
pub enum AuditOperationType {
    InvestigationCreated,
    InvestigationOpened,
    InvestigationClosed,
    DeviceConnected,
    DeviceDisconnected,
    CapabilityDetectionStarted,
    CapabilityDetectionCompleted,
    CapabilityProfileAcknowledged,
    ArtifactAcquisitionStarted,
    ArtifactAcquisitionCompleted,
    ArtifactAcquisitionFailed,
    ParserExecutionStarted,
    ParserExecutionCompleted,
    ParserExecutionFailed,
    NormalizationStarted,
    NormalizationCompleted,
    CorrelationStarted,
    CorrelationCompleted,
    ConfidenceScoreComputed,
    ExaminerOverrideApplied,
    ExaminerNoteAdded,
    ReportGenerationStarted,
    ReportGenerationCompleted,
    ReportExported,
    EvidenceStoreCreated,
    EvidenceStoreVerified,
    EvidenceIntegrityViolation,
    PluginLoaded,
    PluginValidationFailed,
    SystemStartup,
    SystemShutdown,
    SystemCrashRecovery,
    AuditChainVerified,
    VfsMounted,
    VfsFileRead,
    VfsIntegrityChecked,
    ScmValidationFailed,
    Custom(String),
}

/// Outcome of an audited operation.
#[derive(Debug, Clone, PartialEq, Eq)]
pub enum AuditResult {
    Success,
    Failure(String),
    Pending,
    Skipped(String),
}


/// The JSON text that `serde_json` writes for `op`: a unit variant as its
/// name in quotes, `Custom(s)` as `{"Custom":` and the string `s`, then `}`.
pub open spec fn operation_json(op: AuditOperationType) -> Seq<char> {
    match op {
        AuditOperationType::InvestigationCreated => "\"InvestigationCreated\""@,
        AuditOperationType::InvestigationOpened => "\"InvestigationOpened\""@,
        AuditOperationType::InvestigationClosed => "\"InvestigationClosed\""@,
        AuditOperationType::DeviceConnected => "\"DeviceConnected\""@,
        AuditOperationType::DeviceDisconnected => "\"DeviceDisconnected\""@,
        AuditOperationType::CapabilityDetectionStarted => "\"CapabilityDetectionStarted\""@,
        AuditOperationType::CapabilityDetectionCompleted => "\"CapabilityDetectionCompleted\""@,
        AuditOperationType::CapabilityProfileAcknowledged => "\"CapabilityProfileAcknowledged\""@,
        AuditOperationType::ArtifactAcquisitionStarted => "\"ArtifactAcquisitionStarted\""@,
        AuditOperationType::ArtifactAcquisitionCompleted => "\"ArtifactAcquisitionCompleted\""@,
        AuditOperationType::ArtifactAcquisitionFailed => "\"ArtifactAcquisitionFailed\""@,
        AuditOperationType::ParserExecutionStarted => "\"ParserExecutionStarted\""@,
        AuditOperationType::ParserExecutionCompleted => "\"ParserExecutionCompleted\""@,
        AuditOperationType::ParserExecutionFailed => "\"ParserExecutionFailed\""@,
        AuditOperationType::NormalizationStarted => "\"NormalizationStarted\""@,
        AuditOperationType::NormalizationCompleted => "\"NormalizationCompleted\""@,
        AuditOperationType::CorrelationStarted => "\"CorrelationStarted\""@,
        AuditOperationType::CorrelationCompleted => "\"CorrelationCompleted\""@,
        AuditOperationType::ConfidenceScoreComputed => "\"ConfidenceScoreComputed\""@,
        AuditOperationType::ExaminerOverrideApplied => "\"ExaminerOverrideApplied\""@,
        AuditOperationType::ExaminerNoteAdded => "\"ExaminerNoteAdded\""@,
        AuditOperationType::ReportGenerationStarted => "\"ReportGenerationStarted\""@,
        AuditOperationType::ReportGenerationCompleted => "\"ReportGenerationCompleted\""@,
        AuditOperationType::ReportExported => "\"ReportExported\""@,
        AuditOperationType::EvidenceStoreCreated => "\"EvidenceStoreCreated\""@,
        AuditOperationType::EvidenceStoreVerified => "\"EvidenceStoreVerified\""@,
        AuditOperationType::EvidenceIntegrityViolation => "\"EvidenceIntegrityViolation\""@,
        AuditOperationType::PluginLoaded => "\"PluginLoaded\""@,
        AuditOperationType::PluginValidationFailed => "\"PluginValidationFailed\""@,
        AuditOperationType::SystemStartup => "\"SystemStartup\""@,
        AuditOperationType::SystemShutdown => "\"SystemShutdown\""@,
        AuditOperationType::SystemCrashRecovery => "\"SystemCrashRecovery\""@,
        AuditOperationType::AuditChainVerified => "\"AuditChainVerified\""@,
        AuditOperationType::VfsMounted => "\"VfsMounted\""@,
        AuditOperationType::VfsFileRead => "\"VfsFileRead\""@,
        AuditOperationType::VfsIntegrityChecked => "\"VfsIntegrityChecked\""@,
        AuditOperationType::ScmValidationFailed => "\"ScmValidationFailed\""@,
        AuditOperationType::Custom(s) => "{\"Custom\":"@ + json_quoted(s@) + "}"@,
    }
}

/// The JSON text that `serde_json` writes for `r`.
pub open spec fn result_json(r: AuditResult) -> Seq<char> {
    match r {
        AuditResult::Success => "\"Success\""@,
        AuditResult::Pending => "\"Pending\""@,
        AuditResult::Failure(m) => "{\"Failure\":"@ + json_quoted(m@) + "}"@,
        AuditResult::Skipped(m) => "{\"Skipped\":"@ + json_quoted(m@) + "}"@,
    }
}

impl AuditOperationType {
    /// The JSON text of this operation.
    pub fn json_text(&self) -> (s: String)
        ensures
            s@ == operation_json(*self),
    {
        match self {
            AuditOperationType::InvestigationCreated => owned("\"InvestigationCreated\""),
            AuditOperationType::InvestigationOpened => owned("\"InvestigationOpened\""),
            AuditOperationType::InvestigationClosed => owned("\"InvestigationClosed\""),
            AuditOperationType::DeviceConnected => owned("\"DeviceConnected\""),
            AuditOperationType::DeviceDisconnected => owned("\"DeviceDisconnected\""),
            AuditOperationType::CapabilityDetectionStarted => owned("\"CapabilityDetectionStarted\""),
            AuditOperationType::CapabilityDetectionCompleted => owned("\"CapabilityDetectionCompleted\""),
            AuditOperationType::CapabilityProfileAcknowledged => owned("\"CapabilityProfileAcknowledged\""),
            AuditOperationType::ArtifactAcquisitionStarted => owned("\"ArtifactAcquisitionStarted\""),
            AuditOperationType::ArtifactAcquisitionCompleted => owned("\"ArtifactAcquisitionCompleted\""),
            AuditOperationType::ArtifactAcquisitionFailed => owned("\"ArtifactAcquisitionFailed\""),
            AuditOperationType::ParserExecutionStarted => owned("\"ParserExecutionStarted\""),
            AuditOperationType::ParserExecutionCompleted => owned("\"ParserExecutionCompleted\""),
            AuditOperationType::ParserExecutionFailed => owned("\"ParserExecutionFailed\""),
            AuditOperationType::NormalizationStarted => owned("\"NormalizationStarted\""),
            AuditOperationType::NormalizationCompleted => owned("\"NormalizationCompleted\""),
            AuditOperationType::CorrelationStarted => owned("\"CorrelationStarted\""),
            AuditOperationType::CorrelationCompleted => owned("\"CorrelationCompleted\""),
            AuditOperationType::ConfidenceScoreComputed => owned("\"ConfidenceScoreComputed\""),
            AuditOperationType::ExaminerOverrideApplied => owned("\"ExaminerOverrideApplied\""),
            AuditOperationType::ExaminerNoteAdded => owned("\"ExaminerNoteAdded\""),
            AuditOperationType::ReportGenerationStarted => owned("\"ReportGenerationStarted\""),
            AuditOperationType::ReportGenerationCompleted => owned("\"ReportGenerationCompleted\""),
            AuditOperationType::ReportExported => owned("\"ReportExported\""),
            AuditOperationType::EvidenceStoreCreated => owned("\"EvidenceStoreCreated\""),
            AuditOperationType::EvidenceStoreVerified => owned("\"EvidenceStoreVerified\""),
            AuditOperationType::EvidenceIntegrityViolation => owned("\"EvidenceIntegrityViolation\""),
            AuditOperationType::PluginLoaded => owned("\"PluginLoaded\""),
            AuditOperationType::PluginValidationFailed => owned("\"PluginValidationFailed\""),
            AuditOperationType::SystemStartup => owned("\"SystemStartup\""),
            AuditOperationType::SystemShutdown => owned("\"SystemShutdown\""),
            AuditOperationType::SystemCrashRecovery => owned("\"SystemCrashRecovery\""),
            AuditOperationType::AuditChainVerified => owned("\"AuditChainVerified\""),
            AuditOperationType::VfsMounted => owned("\"VfsMounted\""),
            AuditOperationType::VfsFileRead => owned("\"VfsFileRead\""),
            AuditOperationType::VfsIntegrityChecked => owned("\"VfsIntegrityChecked\""),
            AuditOperationType::ScmValidationFailed => owned("\"ScmValidationFailed\""),
            AuditOperationType::Custom(s) => {
                let mut t = owned("{\"Custom\":");
                let q = json_string(s.as_str());
                append(&mut t, q.as_str());
                append(&mut t, "}");
                t
            },
        }
    }

    /// A copy of this operation.
    pub fn duplicate(&self) -> (r: AuditOperationType)
        ensures
            r == *self,
    {
        match self {
            AuditOperationType::InvestigationCreated => AuditOperationType::InvestigationCreated,
            AuditOperationType::InvestigationOpened => AuditOperationType::InvestigationOpened,
            AuditOperationType::InvestigationClosed => AuditOperationType::InvestigationClosed,
            AuditOperationType::DeviceConnected => AuditOperationType::DeviceConnected,
            AuditOperationType::DeviceDisconnected => AuditOperationType::DeviceDisconnected,
            AuditOperationType::CapabilityDetectionStarted => AuditOperationType::CapabilityDetectionStarted,
            AuditOperationType::CapabilityDetectionCompleted => AuditOperationType::CapabilityDetectionCompleted,
            AuditOperationType::CapabilityProfileAcknowledged => AuditOperationType::CapabilityProfileAcknowledged,
            AuditOperationType::ArtifactAcquisitionStarted => AuditOperationType::ArtifactAcquisitionStarted,
            AuditOperationType::ArtifactAcquisitionCompleted => AuditOperationType::ArtifactAcquisitionCompleted,
            AuditOperationType::ArtifactAcquisitionFailed => AuditOperationType::ArtifactAcquisitionFailed,
            AuditOperationType::ParserExecutionStarted => AuditOperationType::ParserExecutionStarted,
            AuditOperationType::ParserExecutionCompleted => AuditOperationType::ParserExecutionCompleted,
            AuditOperationType::ParserExecutionFailed => AuditOperationType::ParserExecutionFailed,
            AuditOperationType::NormalizationStarted => AuditOperationType::NormalizationStarted,
            AuditOperationType::NormalizationCompleted => AuditOperationType::NormalizationCompleted,
            AuditOperationType::CorrelationStarted => AuditOperationType::CorrelationStarted,
            AuditOperationType::CorrelationCompleted => AuditOperationType::CorrelationCompleted,
            AuditOperationType::ConfidenceScoreComputed => AuditOperationType::ConfidenceScoreComputed,
            AuditOperationType::ExaminerOverrideApplied => AuditOperationType::ExaminerOverrideApplied,
            AuditOperationType::ExaminerNoteAdded => AuditOperationType::ExaminerNoteAdded,
            AuditOperationType::ReportGenerationStarted => AuditOperationType::ReportGenerationStarted,
            AuditOperationType::ReportGenerationCompleted => AuditOperationType::ReportGenerationCompleted,
            AuditOperationType::ReportExported => AuditOperationType::ReportExported,
            AuditOperationType::EvidenceStoreCreated => AuditOperationType::EvidenceStoreCreated,
            AuditOperationType::EvidenceStoreVerified => AuditOperationType::EvidenceStoreVerified,
            AuditOperationType::EvidenceIntegrityViolation => AuditOperationType::EvidenceIntegrityViolation,
            AuditOperationType::PluginLoaded => AuditOperationType::PluginLoaded,
            AuditOperationType::PluginValidationFailed => AuditOperationType::PluginValidationFailed,
            AuditOperationType::SystemStartup => AuditOperationType::SystemStartup,
            AuditOperationType::SystemShutdown => AuditOperationType::SystemShutdown,
            AuditOperationType::SystemCrashRecovery => AuditOperationType::SystemCrashRecovery,
            AuditOperationType::AuditChainVerified => AuditOperationType::AuditChainVerified,
            AuditOperationType::VfsMounted => AuditOperationType::VfsMounted,
            AuditOperationType::VfsFileRead => AuditOperationType::VfsFileRead,
            AuditOperationType::VfsIntegrityChecked => AuditOperationType::VfsIntegrityChecked,
            AuditOperationType::ScmValidationFailed => AuditOperationType::ScmValidationFailed,
            AuditOperationType::Custom(s) => AuditOperationType::Custom(s.clone()),
        }
    }
}

impl AuditResult {
    /// The JSON text of this result.
    pub fn json_text(&self) -> (s: String)
        ensures
            s@ == result_json(*self),
    {
        match self {
            AuditResult::Success => owned("\"Success\""),
            AuditResult::Pending => owned("\"Pending\""),
            AuditResult::Failure(m) => {
                let mut t = owned("{\"Failure\":");
                let q = json_string(m.as_str());
                append(&mut t, q.as_str());
                append(&mut t, "}");
                t
            },
            AuditResult::Skipped(m) => {
                let mut t = owned("{\"Skipped\":");
                let q = json_string(m.as_str());
                append(&mut t, q.as_str());
                append(&mut t, "}");
                t
            },
        }
    }

    /// A copy of this result.
    pub fn duplicate(&self) -> (r: AuditResult)
        ensures
            r == *self,
    {
        match self {
            AuditResult::Success => AuditResult::Success,
            AuditResult::Pending => AuditResult::Pending,
            AuditResult::Failure(m) => AuditResult::Failure(m.clone()),
            AuditResult::Skipped(m) => AuditResult::Skipped(m.clone()),
        }
    }
}

/// The `Debug` text of a RootMethod value.
pub open spec fn root_method_name(v: RootMethod) -> Seq<char> {
    match v {
        RootMethod::NoRoot => "None"@,
        RootMethod::Magisk => "Magisk"@,
        RootMethod::SystemRoot => "SystemRoot"@,
        RootMethod::AdbRoot => "AdbRoot"@,
        RootMethod::KernelSU => "KernelSU"@,
    }
}

impl RootMethod {
    /// The `Debug` text of this value.
    pub fn debug_name(&self) -> (s: String)
        ensures
            s@ == root_method_name(*self),
    {
        match self {
            RootMethod::NoRoot => owned("None"),
            RootMethod::Magisk => owned("Magisk"),
            RootMethod::SystemRoot => owned("SystemRoot"),
            RootMethod::AdbRoot => owned("AdbRoot"),
            RootMethod::KernelSU => owned("KernelSU"),
        }
    }
}

/// The `Debug` text of a SelinuxMode value.
pub open spec fn selinux_mode_name(v: SelinuxMode) -> Seq<char> {
    match v {
        SelinuxMode::Enforcing => "Enforcing"@,
        SelinuxMode::Permissive => "Permissive"@,
        SelinuxMode::Disabled => "Disabled"@,
        SelinuxMode::Unknown => "Unknown"@,
    }
}

impl SelinuxMode {
    /// The `Debug` text of this value.
    pub fn debug_name(&self) -> (s: String)
        ensures
            s@ == selinux_mode_name(*self),
    {
        match self {
            SelinuxMode::Enforcing => owned("Enforcing"),
            SelinuxMode::Permissive => owned("Permissive"),
            SelinuxMode::Disabled => owned("Disabled"),
            SelinuxMode::Unknown => owned("Unknown"),
        }
    }
}

/// The `Debug` text of a BootloaderState value.
pub open spec fn bootloader_state_name(v: BootloaderState) -> Seq<char> {
    match v {
        BootloaderState::Locked => "Locked"@,
        BootloaderState::Unlocked => "Unlocked"@,
        BootloaderState::Tampered => "Tampered"@,
        BootloaderState::Unknown => "Unknown"@,
    }
}

impl BootloaderState {
    /// The `Debug` text of this value.
    pub fn debug_name(&self) -> (s: String)
        ensures
            s@ == bootloader_state_name(*self),
    {
        match self {
            BootloaderState::Locked => owned("Locked"),
            BootloaderState::Unlocked => owned("Unlocked"),
            BootloaderState::Tampered => owned("Tampered"),
            BootloaderState::Unknown => owned("Unknown"),
        }
    }
}

/// The `Debug` text of a EncryptionState value.
pub open spec fn encryption_state_name(v: EncryptionState) -> Seq<char> {
    match v {
        EncryptionState::BeforeFirstUnlock => "BeforeFirstUnlock"@,
        EncryptionState::AfterFirstUnlock => "AfterFirstUnlock"@,
        EncryptionState::FullDiskEncryption => "FullDiskEncryption"@,
        EncryptionState::Unknown => "Unknown"@,
    }
}

impl EncryptionState {
    /// The `Debug` text of this value.
    pub fn debug_name(&self) -> (s: String)
        ensures
            s@ == encryption_state_name(*self),
    {
        match self {
            EncryptionState::BeforeFirstUnlock => owned("BeforeFirstUnlock"),
            EncryptionState::AfterFirstUnlock => owned("AfterFirstUnlock"),
            EncryptionState::FullDiskEncryption => owned("FullDiskEncryption"),
            EncryptionState::Unknown => owned("Unknown"),
        }
    }
}

/// The `Debug` text of a AcquisitionMethod value.
pub open spec fn acquisition_method_name(v: AcquisitionMethod) -> Seq<char> {
    match v {
        AcquisitionMethod::PrivilegedLogical => "PrivilegedLogical"@,
        AcquisitionMethod::AdbBackup => "AdbBackup"@,
        AcquisitionMethod::UnprivilegedLogical => "UnprivilegedLogical"@,
        AcquisitionMethod::ContentProvider => "ContentProvider"@,
        AcquisitionMethod::OfflineImage => "OfflineImage"@,
    }
}

impl AcquisitionMethod {
    /// The `Debug` text of this value.
    pub fn debug_name(&self) -> (s: String)
        ensures
            s@ == acquisition_method_name(*self),
    {
        match self {
            AcquisitionMethod::PrivilegedLogical => owned("PrivilegedLogical"),
            AcquisitionMethod::AdbBackup => owned("AdbBackup"),
            AcquisitionMethod::UnprivilegedLogical => owned("UnprivilegedLogical"),
            AcquisitionMethod::ContentProvider => owned("ContentProvider"),
            AcquisitionMethod::OfflineImage => owned("OfflineImage"),
        }
    }
}

} // verus!
