//! Application configuration and its validation.
//!
//! Paths are held as text. Loading from and writing to TOML happens at the
//! edge of the application; this module holds the values and their rules.

use vstd::prelude::*;
use crate::error::OracleError;
use crate::text::owned;

verus! {

/// Top-level application configuration.
#[derive(Debug, Clone)]
pub struct OracleConfig {
    pub general: GeneralConfig,
    pub evidence_store: EvidenceStoreConfig,
    pub audit: AuditConfig,
    pub plugins: PluginConfig,
    pub adb: AdbConfig,
    pub report: ReportConfig,
}

/// General settings.
#[derive(Debug, Clone)]
pub struct GeneralConfig {
    pub investigations_dir: String,
    pub organization_name: String,
    pub log_level: String,
}

/// Evidence store settings.
#[derive(Debug, Clone)]
pub struct EvidenceStoreConfig {
    pub max_blob_size_bytes: u64,
    pub verify_on_read: bool,
}

/// Audit logger settings.
#[derive(Debug, Clone)]
pub struct AuditConfig {
    pub chain_batch_size: u32,
}

/// Plugin settings.
#[derive(Debug, Clone)]
pub struct PluginConfig {
    pub plugin_dir: String,
    pub enforce_signatures: bool,
}

/// ADB settings.
#[derive(Debug, Clone)]
pub struct AdbConfig {
    pub command_timeout_secs: u64,
    pub max_reconnect_attempts: u32,
    pub stream_chunk_size: u64,
}

/// Report settings.
#[derive(Debug, Clone)]
pub struct ReportConfig {
    pub output_dir: String,
    pub include_hex_dumps: bool,
}

/// `s` ends with `t`.
pub open spec fn ends_with(s: Seq<char>, t: Seq<char>) -> bool {
    s.len() >= t.len() && s.subrange(s.len() - t.len(), s.len() as int) == t
}

/// `s` is one plain path component: not empty, not `.` or `..`, and with no
/// separator (`/` or `\\`) nor drive colon in it.
pub open spec fn plain_component(s: Seq<char>) -> bool {
    &&& s.len() > 0
    &&& s != "."@
    &&& s != ".."@
    &&& forall|i: int| 0 <= i < s.len() ==> #[trigger] s[i] != '/' && s[i] != '\\' && s[i] != ':'
}

/// A name of three or more characters, each a lower-case ASCII letter, a
/// digit, `.` or `-`, is a plain component.
pub proof fn lemma_name_plain(s: Seq<char>)
    requires
        s.len() >= 3,
        forall|i: int|
            0 <= i < s.len() ==> ('a' <= #[trigger] s[i] <= 'z') || ('0' <= s[i] <= '9') || s[i]
                == '.' || s[i] == '-',
    ensures
        plain_component(s),
{
    reveal_strlit(".");
    reveal_strlit("..");
}

/// Calls `std::path::Path::join` and renders the result as text. For a
/// child that is one plain component, `join` appends it to `base` after a
/// separator when `base` does not end with one (a verbatim base included:
/// a plain component has nothing to normalise), so the path ends with
/// `child`; both inputs being UTF-8, the rendering loses nothing. The
/// separator depends on the platform, so nothing more is stated.
#[verifier::external_body]
pub(crate) fn join_path(base: &str, child: &str) -> (r: String)
    requires
        plain_component(child@),
    ensures
        ends_with(r@, child@),
{
    std::path::Path::new(base).join(child).to_string_lossy().into_owned()
}

/// The first rule that `c` breaks, or `None` if it is valid.
pub open spec fn config_violation(c: OracleConfig) -> Option<Seq<char>> {
    if c.general.organization_name@.len() == 0 {
        Some("Organization name must not be empty"@)
    } else if c.evidence_store.max_blob_size_bytes == 0 {
        Some("max_blob_size_bytes must be greater than zero"@)
    } else if c.adb.command_timeout_secs == 0 {
        Some("ADB command timeout must be greater than zero"@)
    } else if c.adb.stream_chunk_size < 4096 {
        Some("Stream chunk size must be at least 4096 bytes"@)
    } else if c.audit.chain_batch_size == 0 {
        Some("Audit chain batch size must be at least 1"@)
    } else {
        None
    }
}

impl OracleConfig {
    /// A default configuration rooted at `base_dir`, for development and tests.
    pub fn default_config(base_dir: &str) -> (c: OracleConfig)
        ensures
            c.general.organization_name@ == "ORACLE Forensic Lab"@,
            c.general.log_level@ == "info"@,
            c.evidence_store.max_blob_size_bytes == 4_294_967_296,
            c.evidence_store.verify_on_read,
            c.audit.chain_batch_size == 1,
            !c.plugins.enforce_signatures,
            c.adb.command_timeout_secs == 30,
            c.adb.max_reconnect_attempts == 5,
            c.adb.stream_chunk_size == 65536,
            !c.report.include_hex_dumps,
            config_violation(c) is None,
            ends_with(c.general.investigations_dir@, "investigations"@),
            ends_with(c.plugins.plugin_dir@, "plugins"@),
            ends_with(c.report.output_dir@, "reports"@),
    {
        proof {
            reveal_strlit("ORACLE Forensic Lab");
            reveal_strlit(".");
            reveal_strlit("..");
            reveal_strlit("investigations");
            reveal_strlit("plugins");
            reveal_strlit("reports");
            lemma_name_plain("investigations"@);
            lemma_name_plain("plugins"@);
            lemma_name_plain("reports"@);
        }
        OracleConfig {
            general: GeneralConfig {
                investigations_dir: join_path(base_dir, "investigations"),
                organization_name: owned("ORACLE Forensic Lab"),
                log_level: owned("info"),
            },
            evidence_store: EvidenceStoreConfig {
                max_blob_size_bytes: 4_294_967_296,
                verify_on_read: true,
            },
            audit: AuditConfig { chain_batch_size: 1 },
            plugins: PluginConfig {
                plugin_dir: join_path(base_dir, "plugins"),
                enforce_signatures: false,
            },
            adb: AdbConfig {
                command_timeout_secs: 30,
                max_reconnect_attempts: 5,
                stream_chunk_size: 65536,
            },
            report: ReportConfig {
                output_dir: join_path(base_dir, "reports"),
                include_hex_dumps: false,
            },
        }
    }

    /// Validates the configuration. Fails with `ConfigurationError` naming
    /// the first broken rule, checked in this order: non-empty organisation
    /// name, non-zero blob size, non-zero ADB timeout, stream chunk of at
    /// least 4096 bytes, audit batch size of at least 1.
    pub fn validate(&self) -> (r: Result<(), OracleError>)
        ensures
            match config_violation(*self) {
                None => r is Ok,
                Some(msg) => r matches Err(OracleError::ConfigurationError { reason })
                    && reason@ == msg,
            },
    {
        if self.general.organization_name.as_str().is_empty() {
            return Err(OracleError::ConfigurationError {
                reason: owned("Organization name must not be empty"),
            });
        }
        if self.evidence_store.max_blob_size_bytes == 0 {
            return Err(OracleError::ConfigurationError {
                reason: owned("max_blob_size_bytes must be greater than zero"),
            });
        }
        if self.adb.command_timeout_secs == 0 {
            return Err(OracleError::ConfigurationError {
                reason: owned("ADB command timeout must be greater than zero"),
            });
        }
        if self.adb.stream_chunk_size < 4096 {
            return Err(OracleError::ConfigurationError {
                reason: owned("Stream chunk size must be at least 4096 bytes"),
            });
        }
        if self.audit.chain_batch_size == 0 {
            return Err(OracleError::ConfigurationError {
                reason: owned("Audit chain batch size must be at least 1"),
            });
        }
        Ok(())
    }
}

} // verus!
