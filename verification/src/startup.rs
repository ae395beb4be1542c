//! Pre-flight checks before any command runs: the ADB tool, the SQLite
//! engine, the investigations directory and the required configuration.
//!
//! The probes themselves (running `adb version`, opening a database,
//! writing a file) happen at the application's edge; this module turns
//! what they found into check results and the report.

use vstd::prelude::*;
use crate::config::OracleConfig;
use crate::text::{append, decimal, decimal_string, lines_of, owned, split_lines, trim, trimmed};

verus! {

/// The outcome of one check.
#[derive(Debug, Clone, Copy, PartialEq, Eq, Structural)]
pub enum PreflightStatus {
    /// The subsystem is operational.
    Pass,
    /// The subsystem is missing or misconfigured.
    Fail,
}

impl PreflightStatus {
    /// The display text: `PASS` or `FAIL`.
    pub fn display_text(&self) -> (s: String)
        ensures
            s@ == (match *self {
                PreflightStatus::Pass => "PASS"@,
                PreflightStatus::Fail => "FAIL"@,
            }),
    {
        match self {
            PreflightStatus::Pass => owned("PASS"),
            PreflightStatus::Fail => owned("FAIL"),
        }
    }
}

/// One check result.
#[derive(Debug, Clone)]
pub struct PreflightCheck {
    /// The check's name.
    pub name: String,
    /// Whether it passed.
    pub status: PreflightStatus,
    /// What was found.
    pub message: String,
}

/// All check results.
#[derive(Debug, Clone)]
pub struct PreflightReport {
    /// The results, in the order the checks ran.
    pub checks: Vec<PreflightCheck>,
    /// Whether every check passed.
    pub all_passed: bool,
}

/// Every check of `cs` passed.
pub open spec fn every_passed(cs: Seq<PreflightCheck>) -> bool {
    forall|i: int| 0 <= i < cs.len() ==> (#[trigger] cs[i]).status == PreflightStatus::Pass
}

/// The number of failed checks of `cs`.
pub open spec fn failed_count(cs: Seq<PreflightCheck>) -> nat
    decreases cs.len(),
{
    if cs.len() == 0 {
        0
    } else {
        failed_count(cs.drop_last()) + if cs.last().status == PreflightStatus::Fail {
            1nat
        } else {
            0nat
        }
    }
}

impl PreflightReport {
    /// The report of `checks`; it has passed exactly when every check passed.
    pub fn from_checks(checks: Vec<PreflightCheck>) -> (r: PreflightReport)
        ensures
            r.checks@ == checks@,
            r.all_passed == every_passed(checks@),
    {
        let mut all_passed = true;
        let mut i: usize = 0;
        while i < checks.len()
            invariant
                0 <= i <= checks.len(),
                all_passed == every_passed(checks@.take(i as int)),
            decreases checks.len() - i,
        {
            if checks[i].status == PreflightStatus::Fail {
                assert(checks@.take(i + 1)[i as int].status == PreflightStatus::Fail);
            }
            all_passed = all_passed && checks[i].status == PreflightStatus::Pass;
            assert forall|k: int| 0 <= k < i + 1 implies checks@.take(i + 1)[k] == checks@[k] by {}
            assert forall|k: int| 0 <= k < i implies checks@.take(i as int)[k] == checks@[k] by {}
            i = i + 1;
        }
        assert(checks@.take(checks.len() as int) =~= checks@);
        PreflightReport { checks, all_passed }
    }

    /// The number of failed checks.
    pub fn failed(&self) -> (n: usize)
        ensures
            n == failed_count(self.checks@),
    {
        let mut n: usize = 0;
        let mut i: usize = 0;
        while i < self.checks.len()
            invariant
                0 <= i <= self.checks.len(),
                n == failed_count(self.checks@.take(i as int)),
                n <= i,
            decreases self.checks.len() - i,
        {
            assert(self.checks@.take(i + 1).drop_last() =~= self.checks@.take(i as int));
            if self.checks[i].status == PreflightStatus::Fail {
                n = n + 1;
            }
            i = i + 1;
        }
        assert(self.checks@.take(self.checks.len() as int) =~= self.checks@);
        n
    }
}

// ── The checks ───────────────────────────────────────────────────────────────

/// What running `adb version` gave.
#[derive(Debug, Clone)]
pub enum CommandOutcome {
    /// It ran and succeeded, printing this on standard output.
    Succeeded(String),
    /// It ran and failed, printing this on standard error.
    Failed(String),
    /// It could not be started, for this reason.
    NotStarted(String),
}

/// The result of the ADB tool check for an outcome of `adb version`: it
/// passes with the first output line, trimmed (`unknown version` when
/// there is none).
pub open spec fn adb_check_of(c: PreflightCheck, o: CommandOutcome) -> bool {
    &&& c.name@ == "ADB Binary"@
    &&& match o {
        CommandOutcome::Succeeded(out) => c.status == PreflightStatus::Pass && c.message@ == (if lines_of(
            out@,
        ).len() > 0 {
            trimmed(lines_of(out@)[0])
        } else {
            "unknown version"@
        }),
        CommandOutcome::Failed(err) => c.status == PreflightStatus::Fail && c.message@
            == "ADB returned error: "@ + trimmed(err@),
        CommandOutcome::NotStarted(e) => c.status == PreflightStatus::Fail && c.message@
            == "Not found on PATH ("@ + e@ + ")"@,
    }
}

/// The ADB tool check for an outcome of `adb version`.
pub fn check_adb_binary(outcome: &CommandOutcome) -> (c: PreflightCheck)
    ensures
        adb_check_of(c, *outcome),
{
    let name = owned("ADB Binary");
    match outcome {
        CommandOutcome::Succeeded(out) => {
            let lines = split_lines(out.as_str());
            let message = if lines.len() > 0 {
                owned(trim(lines[0].as_str()))
            } else {
                owned("unknown version")
            };
            PreflightCheck { name, status: PreflightStatus::Pass, message }
        },
        CommandOutcome::Failed(err) => {
            let mut message = owned("ADB returned error: ");
            append(&mut message, trim(err.as_str()));
            PreflightCheck { name, status: PreflightStatus::Fail, message }
        },
        CommandOutcome::NotStarted(e) => {
            let mut message = owned("Not found on PATH (");
            append(&mut message, e.as_str());
            append(&mut message, ")");
            PreflightCheck { name, status: PreflightStatus::Fail, message }
        },
    }
}

/// What probing the SQLite engine gave.
#[derive(Debug, Clone)]
pub enum SqliteOutcome {
    /// An in-memory database could not be opened, for this reason.
    OpenFailed(String),
    /// `SELECT 1 + 1` failed, for this reason.
    QueryFailed(String),
    /// `SELECT 1 + 1` answered this value; the engine reports this version.
    Answered(i64, String),
}

/// The decimal text of a signed number.
pub open spec fn signed_decimal(n: int) -> Seq<char> {
    if n < 0 {
        "-"@ + decimal((-n) as nat)
    } else {
        decimal(n as nat)
    }
}

/// The result of the SQLite check for an outcome of the probe: it passes
/// when `1 + 1` is 2, naming the version.
pub open spec fn sqlite_check_of(c: PreflightCheck, o: SqliteOutcome) -> bool {
    &&& c.name@ == "SQLite Engine"@
    &&& match o {
        SqliteOutcome::OpenFailed(e) => c.status == PreflightStatus::Fail && c.message@
            == "Cannot open in-memory DB: "@ + e@,
        SqliteOutcome::QueryFailed(e) => c.status == PreflightStatus::Fail && c.message@
            == "Query failed: "@ + e@,
        SqliteOutcome::Answered(v, version) => if v == 2 {
            c.status == PreflightStatus::Pass && c.message@ == "SQLite v"@ + version@
        } else {
            c.status == PreflightStatus::Fail && c.message@ == "Unexpected query result: "@
                + signed_decimal(v as int) + " (expected 2)"@
        },
    }
}

fn signed_decimal_string(n: i64) -> (s: String)
    ensures
        s@ == signed_decimal(n as int),
{
    if n < 0 {
        let m: u64 = if n == i64::MIN {
            0x8000_0000_0000_0000u64
        } else {
            (-n) as u64
        };
        let mut s = owned("-");
        append(&mut s, decimal_string(m).as_str());
        s
    } else {
        decimal_string(n as u64)
    }
}

/// The SQLite check for an outcome of the probe.
pub fn check_sqlite_functional(outcome: &SqliteOutcome) -> (c: PreflightCheck)
    ensures
        sqlite_check_of(c, *outcome),
{
    let name = owned("SQLite Engine");
    match outcome {
        SqliteOutcome::OpenFailed(e) => {
            let mut message = owned("Cannot open in-memory DB: ");
            append(&mut message, e.as_str());
            PreflightCheck { name, status: PreflightStatus::Fail, message }
        },
        SqliteOutcome::QueryFailed(e) => {
            let mut message = owned("Query failed: ");
            append(&mut message, e.as_str());
            PreflightCheck { name, status: PreflightStatus::Fail, message }
        },
        SqliteOutcome::Answered(v, version) => {
            if *v == 2 {
                let mut message = owned("SQLite v");
                append(&mut message, version.as_str());
                PreflightCheck { name, status: PreflightStatus::Pass, message }
            } else {
                let mut message = owned("Unexpected query result: ");
                append(&mut message, signed_decimal_string(*v).as_str());
                append(&mut message, " (expected 2)");
                PreflightCheck { name, status: PreflightStatus::Fail, message }
            }
        },
    }
}

/// What probing the investigations directory gave.
#[derive(Debug, Clone)]
pub enum DirectoryOutcome {
    /// The missing directory could not be created: its path and the reason.
    CreateFailed(String, String),
    /// A file could not be written in it, for this reason.
    WriteFailed(String),
    /// A file was written in the directory with this path.
    Writable(String),
}

/// The result of the directory check for an outcome of the probe.
pub open spec fn directory_check_of(c: PreflightCheck, o: DirectoryOutcome) -> bool {
    &&& c.name@ == "Investigations Dir"@
    &&& match o {
        DirectoryOutcome::CreateFailed(path, e) => c.status == PreflightStatus::Fail && c.message@
            == "Cannot create "@ + path@ + ": "@ + e@,
        DirectoryOutcome::WriteFailed(e) => c.status == PreflightStatus::Fail && c.message@
            == "Directory not writable: "@ + e@,
        DirectoryOutcome::Writable(path) => c.status == PreflightStatus::Pass && c.message@ == path@,
    }
}

/// The directory check for an outcome of the probe.
pub fn check_directory_writability(outcome: &DirectoryOutcome) -> (c: PreflightCheck)
    ensures
        directory_check_of(c, *outcome),
{
    let name = owned("Investigations Dir");
    match outcome {
        DirectoryOutcome::CreateFailed(path, e) => {
            let mut message = owned("Cannot create ");
            append(&mut message, path.as_str());
            append(&mut message, ": ");
            append(&mut message, e.as_str());
            PreflightCheck { name, status: PreflightStatus::Fail, message }
        },
        DirectoryOutcome::WriteFailed(e) => {
            let mut message = owned("Directory not writable: ");
            append(&mut message, e.as_str());
            PreflightCheck { name, status: PreflightStatus::Fail, message }
        },
        DirectoryOutcome::Writable(path) => PreflightCheck {
            name,
            status: PreflightStatus::Pass,
            message: path.clone(),
        },
    }
}

/// The configuration issues of `c`, in order.
pub open spec fn config_issues(c: OracleConfig) -> Seq<Seq<char>> {
    (if c.general.organization_name@.len() == 0 {
        seq!["organization_name is empty"@]
    } else {
        Seq::empty()
    }) + (if c.general.log_level@.len() == 0 {
        seq!["log_level is empty"@]
    } else {
        Seq::empty()
    }) + (if c.evidence_store.max_blob_size_bytes == 0 {
        seq!["max_blob_size_bytes is zero"@]
    } else {
        Seq::empty()
    }) + (if c.adb.command_timeout_secs == 0 {
        seq!["ADB command_timeout_secs is zero"@]
    } else {
        Seq::empty()
    }) + (if c.audit.chain_batch_size == 0 {
        seq!["audit chain_batch_size is zero"@]
    } else {
        Seq::empty()
    })
}

/// `items` joined with `sep` between them.
pub open spec fn joined_with(items: Seq<Seq<char>>, sep: Seq<char>) -> Seq<char>
    decreases items.len(),
{
    if items.len() == 0 {
        Seq::empty()
    } else if items.len() == 1 {
        items[0]
    } else {
        joined_with(items.drop_last(), sep) + sep + items.last()
    }
}

/// The result of the configuration check for `config`: it passes when
/// there is no issue, naming the organisation; otherwise it lists the
/// issues separated by `; `.
pub open spec fn config_check_of(c: PreflightCheck, config: OracleConfig) -> bool {
    &&& c.name@ == "Configuration"@
    &&& if config_issues(config).len() == 0 {
        c.status == PreflightStatus::Pass && c.message@ == "org=\""@
            + config.general.organization_name@ + "\""@
    } else {
        c.status == PreflightStatus::Fail && c.message@ == joined_with(config_issues(config), "; "@)
    }
}

/// The configuration check for `config`.
pub fn check_required_config_values(config: &OracleConfig) -> (c: PreflightCheck)
    ensures
        config_check_of(c, *config),
{
    let mut issues: Vec<&'static str> = Vec::new();
    if config.general.organization_name.as_str().is_empty() {
        issues.push("organization_name is empty");
    }
    let ghost i1 = issues@.map_values(|s: &str| s@);
    if config.general.log_level.as_str().is_empty() {
        issues.push("log_level is empty");
    }
    if config.evidence_store.max_blob_size_bytes == 0 {
        issues.push("max_blob_size_bytes is zero");
    }
    if config.adb.command_timeout_secs == 0 {
        issues.push("ADB command_timeout_secs is zero");
    }
    if config.audit.chain_batch_size == 0 {
        issues.push("audit chain_batch_size is zero");
    }
    assert(issues@.map_values(|s: &str| s@) =~= config_issues(*config));
    let name = owned("Configuration");
    if issues.len() == 0 {
        let mut message = owned("org=\"");
        append(&mut message, config.general.organization_name.as_str());
        append(&mut message, "\"");
        PreflightCheck { name, status: PreflightStatus::Pass, message }
    } else {
        let message = join_texts(&issues, "; ");
        PreflightCheck { name, status: PreflightStatus::Fail, message }
    }
}

fn join_texts(items: &Vec<&str>, sep: &str) -> (s: String)
    ensures
        s@ == joined_with(items@.map_values(|t: &str| t@), sep@),
{
    let ghost v = items@.map_values(|t: &str| t@);
    let mut s = String::new();
    let mut i: usize = 0;
    while i < items.len()
        invariant
            0 <= i <= items.len(),
            v == items@.map_values(|t: &str| t@),
            s@ == joined_with(v.take(i as int), sep@),
        decreases items.len() - i,
    {
        assert(v.take(i + 1).drop_last() =~= v.take(i as int));
        if i > 0 {
            append(&mut s, sep);
        }
        append(&mut s, items[i]);
        proof {
            if i == 0 {
                assert(s@ =~= joined_with(v.take(1), sep@));
            }
        }
        i = i + 1;
    }
    assert(v.take(items.len() as int) =~= v);
    s
}

/// Runs the checks in order (ADB tool, SQLite, investigations directory,
/// configuration) from the outcomes of the three probes, and reports on
/// them. Every check is recorded; the result is always `Ok`.
pub fn run_preflight_checks(
    config: &OracleConfig,
    adb: &CommandOutcome,
    sqlite: &SqliteOutcome,
    directory: &DirectoryOutcome,
) -> (r: Result<PreflightReport, String>)
    ensures
        r matches Ok(rep) && {
            &&& rep.checks@.len() == 4
            &&& adb_check_of(rep.checks@[0], *adb)
            &&& sqlite_check_of(rep.checks@[1], *sqlite)
            &&& directory_check_of(rep.checks@[2], *directory)
            &&& config_check_of(rep.checks@[3], *config)
            &&& rep.all_passed == every_passed(rep.checks@)
        },
{
    let mut checks: Vec<PreflightCheck> = Vec::new();
    checks.push(check_adb_binary(adb));
    checks.push(check_sqlite_functional(sqlite));
    checks.push(check_directory_writability(directory));
    checks.push(check_required_config_values(config));
    Ok(PreflightReport::from_checks(checks))
}

/// The report passed exactly when no check failed.
pub proof fn law_all_passed_iff_none_failed(cs: Seq<PreflightCheck>)
    ensures
        every_passed(cs) <==> failed_count(cs) == 0,
    decreases cs.len(),
{
    if cs.len() > 0 {
        law_all_passed_iff_none_failed(cs.drop_last());
        if every_passed(cs) {
            assert forall|i: int| 0 <= i < cs.drop_last().len() implies (#[trigger] cs.drop_last()[i]).status
                == PreflightStatus::Pass by {
                assert(cs.drop_last()[i] == cs[i]);
            }
            assert(cs[cs.len() - 1].status == PreflightStatus::Pass);
        }
        if failed_count(cs) == 0 {
            assert forall|i: int| 0 <= i < cs.len() implies (#[trigger] cs[i]).status == PreflightStatus::Pass by {
                if i < cs.len() - 1 {
                    assert(cs.drop_last()[i] == cs[i]);
                }
            }
        }
    }
}

} // verus!
