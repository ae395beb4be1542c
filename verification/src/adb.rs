//! The Android Debug Bridge as the capability engine sees it: device states,
//! the operations it needs, the text the `adb` tool prints, and a scripted
//! interface with configurable answers.

use vstd::prelude::*;
use crate::error::{OracleError, OracleResult};
use crate::text::{
    append, ascii_lower, has_infix, lines_of, lowercase, lowercase_of, owned, parse_u64, parsed_u64, split_lines,
    split_words, str_contains, str_eq, str_starts_with, trim, trimmed, has_prefix, words_of,
};

verus! {

// ── Device state ─────────────────────────────────────────────────────────────

/// The connection state of a device, as `adb devices` reports it.
#[derive(Debug, Clone, PartialEq, Eq)]
pub enum AdbDeviceState {
    /// Connected and authorised.
    Device,
    /// Connected but offline (recovery or sideload).
    Offline,
    /// Connected but the host key is not accepted.
    Unauthorized,
    /// Any other state text.
    Unknown(String),
}

/// `st` is the state that the lower-case state text `t` denotes: `device`,
/// `offline` and `unauthorized` name theirs; any other text is kept as the
/// text of `Unknown`.
pub open spec fn state_of_text(st: AdbDeviceState, t: Seq<char>) -> bool {
    if t == "device"@ {
        st == AdbDeviceState::Device
    } else if t == "offline"@ {
        st == AdbDeviceState::Offline
    } else if t == "unauthorized"@ {
        st == AdbDeviceState::Unauthorized
    } else {
        st matches AdbDeviceState::Unknown(s) && s@ == t
    }
}

/// `st` is the state that the text `raw` denotes: its trimmed lower-case
/// form read by `state_of_text`.
pub open spec fn state_parsed_as(st: AdbDeviceState, raw: Seq<char>) -> bool {
    state_of_text(st, lowercase_of(trimmed(raw)))
}

impl AdbDeviceState {
    /// Parses a state text of `adb devices`, ignoring surrounding white
    /// space and letter case.
    pub fn from_str_state(s: &str) -> (r: AdbDeviceState)
        ensures
            state_parsed_as(r, s@),
            vstd::utf8::is_ascii_chars(trimmed(s@)) ==> state_of_text(r, ascii_lower(trimmed(s@))),
    {
        let t = trim(s);
        let l = lowercase(t);
        if str_eq(l.as_str(), "device") {
            AdbDeviceState::Device
        } else if str_eq(l.as_str(), "offline") {
            AdbDeviceState::Offline
        } else if str_eq(l.as_str(), "unauthorized") {
            AdbDeviceState::Unauthorized
        } else {
            AdbDeviceState::Unknown(l)
        }
    }

    /// A copy of this state.
    pub fn duplicate(&self) -> (r: AdbDeviceState)
        ensures
            r == *self,
    {
        match self {
            AdbDeviceState::Device => AdbDeviceState::Device,
            AdbDeviceState::Offline => AdbDeviceState::Offline,
            AdbDeviceState::Unauthorized => AdbDeviceState::Unauthorized,
            AdbDeviceState::Unknown(s) => AdbDeviceState::Unknown(s.clone()),
        }
    }
}

/// A device visible to ADB.
#[derive(Debug, Clone)]
pub struct AdbDevice {
    /// The serial (such as `RFXXXXXXXX` or `host:port`).
    pub serial: String,
    /// The connection state.
    pub state: AdbDeviceState,
    /// The transport (`usb`, `tcp` or `unknown`).
    pub transport_type: String,
}

impl AdbDevice {
    /// A copy of this device.
    pub fn duplicate(&self) -> (r: AdbDevice)
        ensures
            r == *self,
    {
        AdbDevice {
            serial: self.serial.clone(),
            state: self.state.duplicate(),
            transport_type: self.transport_type.clone(),
        }
    }
}

/// The metadata of a device file, as `stat` reports it.
#[derive(Debug, Clone)]
pub struct FileStatResult {
    /// Whether the file exists.
    pub exists: bool,
    /// Unix permissions in octal (such as `644`).
    pub permissions: Option<String>,
    /// Size in bytes.
    pub size_bytes: Option<u64>,
    /// Owner.
    pub owner: Option<String>,
    /// Group.
    pub group: Option<String>,
    /// SELinux context.
    pub selinux_context: Option<String>,
}

// ── The operations ───────────────────────────────────────────────────────────

/// The ADB operations the capability engine uses. Every operation names the
/// device by its serial. What a device answers is the device's business:
/// the operations promise nothing of their results.
pub trait AdbInterface {
    /// Every device visible to ADB, with its state.
    fn list_devices(&self) -> OracleResult<Vec<AdbDevice>>;

    /// The trimmed output of a shell command on the device.
    fn shell_command(&self, serial: &str, command: &str) -> OracleResult<String>;

    /// A system property (empty when unset).
    fn get_prop(&self, serial: &str, prop_name: &str) -> OracleResult<String>;

    /// Copies a device file to a local path.
    fn pull_file(&self, serial: &str, remote_path: &str, local_path: &str) -> OracleResult<()>;

    /// Whether a path exists on the device.
    fn check_file_exists(&self, serial: &str, path: &str) -> OracleResult<bool>;

    /// Whether a path is readable by the ADB user.
    fn check_file_readable(&self, serial: &str, path: &str) -> OracleResult<bool>;

    /// The metadata of a device file.
    fn stat_file(&self, serial: &str, path: &str) -> OracleResult<FileStatResult>;

    /// Checks that the device is reachable, authorised and responsive, and
    /// returns its serial.
    fn verify_connection(&self, expected_serial: &str) -> OracleResult<String>;
}

// ── The adb tool ─────────────────────────────────────────────────────────────

/// The `adb` tool on the host, run as a child process.
#[derive(Debug, Clone)]
pub struct LiveAdbInterface {
    adb_path: String,
}

/// The pattern of a line of `adb devices -l`: the serial, whitespace, the
/// state word, optional whitespace, and the transport details.
pub const DEVICE_LINE_PATTERN: &'static str = "^(\\S+)\\s+(device|offline|unauthorized|[\\w]+)\\s*(.*)?$";

/// The texts of capture groups 1 to 3 (an absent group as empty text) of
/// the first match of the regular expression `pattern` in `text`, as the
/// `regex` crate finds it; `None` where there is no match or the pattern
/// does not compile.
pub uninterp spec fn regex_captures3(pattern: Seq<char>, text: Seq<char>) -> Option<(Seq<char>, Seq<char>, Seq<char>)>;

/// The fields that `DEVICE_LINE_PATTERN` captures in a line of
/// `adb devices -l`, or `None` where the line does not match.
pub open spec fn device_line_fields(line: Seq<char>) -> Option<(Seq<char>, Seq<char>, Seq<char>)> {
    regex_captures3(DEVICE_LINE_PATTERN@, line)
}

/// Compiles `pattern` with `regex::Regex::new` and matches `text` with
/// `captures`, taking the texts of groups 1 to 3 (empty when absent). The
/// result depends on the two texts alone; it is named `regex_captures3`.
#[verifier::external_body]
fn regex_captures(pattern: &str, text: &str) -> (r: Option<(String, String, String)>)
    ensures
        match r {
            None => regex_captures3(pattern@, text@) is None,
            Some((a, b, c)) => regex_captures3(pattern@, text@) == Some((a@, b@, c@)),
        },
{
    match regex::Regex::new(pattern) {
        Ok(re) => match re.captures(text) {
            Some(caps) => Some((
                caps.get(1).map_or(String::new(), |m| m.as_str().to_string()),
                caps.get(2).map_or(String::new(), |m| m.as_str().to_string()),
                caps.get(3).map_or(String::new(), |m| m.as_str().to_string()),
            )),
            None => None,
        },
        Err(_) => None,
    }
}

/// The transport of a device with the given serial and transport details.
pub open spec fn transport_of(serial: Seq<char>, info: Seq<char>) -> Seq<char> {
    if has_infix(info, "usb:"@) {
        "usb"@
    } else if has_infix(info, "tcp:"@) || has_infix(serial, ":"@) {
        "tcp"@
    } else {
        "unknown"@
    }
}

/// A line of `adb devices -l` that is skipped: the header or a blank line.
pub open spec fn skipped_line(line: Seq<char>) -> bool {
    has_prefix(line, "List of"@) || trimmed(line).len() == 0
}

/// `d` is the device that the captured fields `f` describe.
pub open spec fn device_from_fields(d: AdbDevice, f: (Seq<char>, Seq<char>, Seq<char>)) -> bool {
    &&& d.serial@ == f.0
    &&& state_parsed_as(d.state, f.1)
    &&& d.transport_type@ == transport_of(f.0, f.2)
}

/// The captured fields of the device lines among `ls`, in order.
pub open spec fn device_fields(ls: Seq<Seq<char>>) -> Seq<(Seq<char>, Seq<char>, Seq<char>)>
    decreases ls.len(),
{
    if ls.len() == 0 {
        Seq::empty()
    } else {
        let rest = device_fields(ls.drop_last());
        let l = ls.last();
        if !skipped_line(l) && device_line_fields(l) is Some {
            rest.push(device_line_fields(l)->0)
        } else {
            rest
        }
    }
}

/// The shell command that tells whether `path` exists.
pub open spec fn exists_command(path: Seq<char>) -> Seq<char> {
    "[ -e '"@ + path + "' ] && echo EXISTS || echo MISSING"@
}

/// The shell command that tells whether `path` is readable.
pub open spec fn readable_command(path: Seq<char>) -> Seq<char> {
    "[ -r '"@ + path + "' ] && echo READABLE || echo UNREADABLE"@
}

/// The shell command that prints the permissions, size, owner and group of `path`.
pub open spec fn stat_command(path: Seq<char>) -> Seq<char> {
    "stat -c '%a %s %U %G' '"@ + path + "' 2>&1"@
}

/// The shell command that prints the SELinux context of `path`.
pub open spec fn context_command(path: Seq<char>) -> Seq<char> {
    "ls -Z '"@ + path + "' 2>/dev/null"@
}

/// Word `k` of `ws` as an optional text.
pub open spec fn word_at(ws: Seq<Seq<char>>, k: int) -> Option<Seq<char>> {
    if 0 <= k < ws.len() {
        Some(ws[k])
    } else {
        None
    }
}

/// `o` holds the text `t`, or both are absent.
pub open spec fn opt_text_is(o: Option<String>, t: Option<Seq<char>>) -> bool {
    match (o, t) {
        (None, None) => true,
        (Some(a), Some(b)) => a@ == b,
        _ => false,
    }
}

/// `r` is the metadata that `stat` printed as `out` and `ls -Z` as `ls_out`.
pub open spec fn stat_parsed_as(r: FileStatResult, out: Seq<char>, ls_out: Seq<char>) -> bool {
    if has_infix(out, "No such file"@) || has_infix(out, "cannot stat"@) {
        &&& !r.exists
        &&& r.permissions is None
        &&& r.size_bytes is None
        &&& r.owner is None
        &&& r.group is None
        &&& r.selinux_context is None
    } else {
        let ws = words_of(out);
        &&& r.exists
        &&& opt_text_is(r.permissions, word_at(ws, 0))
        &&& r.size_bytes == (if ws.len() > 1 { parsed_u64(ws[1]) } else { None })
        &&& opt_text_is(r.owner, word_at(ws, 2))
        &&& opt_text_is(r.group, word_at(ws, 3))
        &&& opt_text_is(r.selinux_context, word_at(words_of(ls_out), 0))
    }
}

fn word_text(ws: &Vec<String>, k: usize) -> (r: Option<String>)
    ensures
        opt_text_is(r, word_at(ws@.map_values(|x: String| x@), k as int)),
{
    if k < ws.len() {
        Some(ws[k].clone())
    } else {
        None
    }
}

impl LiveAdbInterface {
    /// The tool found on the `PATH` as `adb`.
    pub fn new() -> (r: LiveAdbInterface)
        ensures
            r.tool_path() == "adb"@,
    {
        LiveAdbInterface { adb_path: owned("adb") }
    }

    /// The tool at `path`.
    pub fn with_adb_path(path: &str) -> (r: LiveAdbInterface)
        ensures
            r.tool_path() == path@,
    {
        LiveAdbInterface { adb_path: owned(path) }
    }

    /// The path of the tool.
    pub closed spec fn tool_path(&self) -> Seq<char> {
        self.adb_path@
    }

    /// The path of the tool.
    pub fn adb_path(&self) -> (r: &str)
        ensures
            r@ == self.tool_path(),
    {
        self.adb_path.as_str()
    }

    /// The devices listed in the output of `adb devices -l`: the header and
    /// blank lines are skipped, every other line that matches the
    /// device-list pattern gives one device, in order.
    pub fn parse_device_list(output: &str) -> (r: Vec<AdbDevice>)
        ensures
            r@.len() == device_fields(lines_of(output@)).len(),
            forall|k: int|
                0 <= k < r@.len() ==> device_from_fields(
                    #[trigger] r@[k],
                    device_fields(lines_of(output@))[k],
                ),
    {
        let lines = split_lines(output);
        let ghost ls = lines_of(output@);
        let mut out: Vec<AdbDevice> = Vec::new();
        let mut i: usize = 0;
        while i < lines.len()
            invariant
                0 <= i <= lines.len(),
                lines@.len() == ls.len(),
                forall|k: int| 0 <= k < lines@.len() ==> (#[trigger] lines@[k])@ == ls[k],
                out@.len() == device_fields(ls.take(i as int)).len(),
                forall|k: int|
                    0 <= k < out@.len() ==> device_from_fields(
                        #[trigger] out@[k],
                        device_fields(ls.take(i as int))[k],
                    ),
            decreases lines.len() - i,
        {
            let line = lines[i].as_str();
            assert(ls.take(i + 1).drop_last() =~= ls.take(i as int));
            assert(ls.take(i + 1).last() == line@);
            let skip = str_starts_with(line, "List of") || trim(line).is_empty();
            if !skip {
                match regex_captures(DEVICE_LINE_PATTERN, line) {
                    Some((serial, state_text, info)) => {
                        let transport_type = if str_contains(info.as_str(), "usb:") {
                            owned("usb")
                        } else if str_contains(info.as_str(), "tcp:") || str_contains(
                            serial.as_str(),
                            ":",
                        ) {
                            owned("tcp")
                        } else {
                            owned("unknown")
                        };
                        let state = AdbDeviceState::from_str_state(state_text.as_str());
                        out.push(AdbDevice { serial, state, transport_type });
                    },
                    None => {},
                }
            }
            i = i + 1;
        }
        assert(ls.take(lines.len() as int) =~= ls);
        out
    }

    /// The command asking whether `path` exists.
    pub fn exists_command_text(path: &str) -> (r: String)
        ensures
            r@ == exists_command(path@),
    {
        let mut s = owned("[ -e '");
        append(&mut s, path);
        append(&mut s, "' ] && echo EXISTS || echo MISSING");
        s
    }

    /// The command asking whether `path` is readable.
    pub fn readable_command_text(path: &str) -> (r: String)
        ensures
            r@ == readable_command(path@),
    {
        let mut s = owned("[ -r '");
        append(&mut s, path);
        append(&mut s, "' ] && echo READABLE || echo UNREADABLE");
        s
    }

    /// The command printing the `stat` fields of `path`.
    pub fn stat_command_text(path: &str) -> (r: String)
        ensures
            r@ == stat_command(path@),
    {
        let mut s = owned("stat -c '%a %s %U %G' '");
        append(&mut s, path);
        append(&mut s, "' 2>&1");
        s
    }

    /// The command printing the SELinux context of `path`.
    pub fn context_command_text(path: &str) -> (r: String)
        ensures
            r@ == context_command(path@),
    {
        let mut s = owned("ls -Z '");
        append(&mut s, path);
        append(&mut s, "' 2>/dev/null");
        s
    }

    /// Whether the output of the existence command reports `EXISTS`.
    pub fn exists_from_output(output: &str) -> (r: bool)
        ensures
            r == has_infix(output@, "EXISTS"@),
    {
        str_contains(output, "EXISTS")
    }

    /// Whether the output of the readability command reports the path
    /// readable: it holds `READABLE` and not `UNREADABLE`, the answer for an
    /// unreadable path.
    pub fn readable_from_output(output: &str) -> (r: bool)
        ensures
            r == (has_infix(output@, "READABLE"@) && !has_infix(output@, "UNREADABLE"@)),
    {
        str_contains(output, "READABLE") && !str_contains(output, "UNREADABLE")
    }

    /// The metadata that `stat` printed as `output`, with the context from
    /// the output of `ls -Z`.
    pub fn parse_stat(output: &str, ls_output: &str) -> (r: FileStatResult)
        ensures
            stat_parsed_as(r, output@, ls_output@),
    {
        if str_contains(output, "No such file") || str_contains(output, "cannot stat") {
            return FileStatResult {
                exists: false,
                permissions: None,
                size_bytes: None,
                owner: None,
                group: None,
                selinux_context: None,
            };
        }
        let ws = split_words(output);
        let ghost wv = ws@.map_values(|x: String| x@);
        assert(wv =~= words_of(output@));
        let size_bytes = if ws.len() > 1 {
            parse_u64(ws[1].as_str())
        } else {
            None
        };
        let ls = split_words(ls_output);
        assert(ls@.map_values(|x: String| x@) =~= words_of(ls_output@));
        FileStatResult {
            exists: true,
            permissions: word_text(&ws, 0),
            size_bytes,
            owner: word_text(&ws, 2),
            group: word_text(&ws, 3),
            selinux_context: word_text(&ls, 0),
        }
    }
}

// ── Connection checks ────────────────────────────────────────────────────────

/// The position of the first device of `ds` with serial `serial`, if any.
pub open spec fn first_with_serial(ds: Seq<AdbDevice>, serial: Seq<char>, i: int) -> Option<int>
    decreases ds.len() - i,
{
    if i < 0 || i >= ds.len() {
        None
    } else if ds[i].serial@ == serial {
        Some(i)
    } else {
        first_with_serial(ds, serial, i + 1)
    }
}

pub(crate) fn find_device(ds: &Vec<AdbDevice>, serial: &str) -> (r: Option<usize>)
    ensures
        match r {
            None => first_with_serial(ds@, serial@, 0) is None,
            Some(p) => first_with_serial(ds@, serial@, 0) == Some(p as int) && p < ds@.len(),
        },
{
    let mut i: usize = 0;
    while i < ds.len()
        invariant
            0 <= i <= ds.len(),
            first_with_serial(ds@, serial@, 0) == first_with_serial(ds@, serial@, i as int),
        decreases ds.len() - i,
    {
        if str_eq(ds[i].serial.as_str(), serial) {
            return Some(i);
        }
        i = i + 1;
    }
    None
}


/// The serials of `ds`, separated by `, `.
pub open spec fn serial_list(ds: Seq<AdbDevice>) -> Seq<char>
    decreases ds.len(),
{
    if ds.len() == 0 {
        Seq::empty()
    } else if ds.len() == 1 {
        ds[0].serial@
    } else {
        serial_list(ds.drop_last()) + ", "@ + ds.last().serial@
    }
}

/// Whether the device `expected` among `ds` may be used: the list must not
/// be empty (else `NoDeviceDetected`); the device must be listed (else, with
/// several devices, `AmbiguousDeviceSelection`, and with one, a failed
/// `devices` command naming the connected serials); and it must be in the
/// `device` state (else `DeviceUnauthorized` or `DeviceOffline`).
pub open spec fn connection_target_is(r: OracleResult<()>, ds: Seq<AdbDevice>, expected: Seq<char>) -> bool {
    if ds.len() == 0 {
        r matches Err(OracleError::NoDeviceDetected)
    } else {
        match first_with_serial(ds, expected, 0) {
            None => if ds.len() > 1 {
                r matches Err(OracleError::AmbiguousDeviceSelection { count }) && count == ds.len()
            } else {
                r matches Err(OracleError::AdbCommandFailed { serial, command, reason }) && serial@
                    == expected && command@ == "devices"@ && reason@ == "Device "@ + expected
                    + " not found. Connected devices: "@ + serial_list(ds)
            },
            Some(p) => match ds[p].state {
                AdbDeviceState::Device => r is Ok,
                AdbDeviceState::Unauthorized => r matches Err(OracleError::DeviceUnauthorized { serial })
                    && serial@ == expected,
                AdbDeviceState::Offline => r matches Err(OracleError::DeviceOffline { serial, state })
                    && serial@ == expected && state@ == "offline"@,
                AdbDeviceState::Unknown(t) => r matches Err(OracleError::DeviceOffline { serial, state })
                    && serial@ == expected && state@ == t@,
            },
        }
    }
}

/// The outcome of the shell echo test on `expected`: the output must hold
/// `ORACLE_VERIFY`.
pub open spec fn echo_outcome_is(r: OracleResult<String>, expected: Seq<char>, echo: OracleResult<String>) -> bool {
    match echo {
        Ok(out) => if has_infix(out@, "ORACLE_VERIFY"@) {
            r matches Ok(s) && s@ == expected
        } else {
            r matches Err(OracleError::AdbCommandFailed { serial, command, reason }) && serial@
                == expected && command@ == "shell echo ORACLE_VERIFY"@ && reason@
                == "Echo test returned unexpected output: "@ + out@
        },
        Err(e) => r matches Err(OracleError::AdbCommandFailed { serial, command, reason })
            && serial@ == expected && command@ == "shell echo ORACLE_VERIFY"@ && reason@
            == "Shell echo test failed: "@ + crate::error::error_text(e),
    }
}

fn serial_list_text(ds: &Vec<AdbDevice>) -> (s: String)
    ensures
        s@ == serial_list(ds@),
{
    let mut s = String::new();
    let mut i: usize = 0;
    while i < ds.len()
        invariant
            0 <= i <= ds.len(),
            s@ == serial_list(ds@.take(i as int)),
        decreases ds.len() - i,
    {
        assert(ds@.take(i + 1).drop_last() =~= ds@.take(i as int));
        if i > 0 {
            append(&mut s, ", ");
        }
        append(&mut s, ds[i].serial.as_str());
        proof {
            if i == 0 {
                assert(s@ =~= serial_list(ds@.take(1)));
            }
        }
        i = i + 1;
    }
    assert(ds@.take(ds.len() as int) =~= ds@);
    s
}

/// Whether the device `expected` among `devices` may be used.
pub fn connection_target(devices: &Vec<AdbDevice>, expected_serial: &str) -> (r: OracleResult<()>)
    ensures
        connection_target_is(r, devices@, expected_serial@),
{
    if devices.len() == 0 {
        return Err(OracleError::NoDeviceDetected);
    }
    match find_device(devices, expected_serial) {
        None => {
            if devices.len() > 1 {
                return Err(OracleError::AmbiguousDeviceSelection { count: devices.len() });
            }
            let mut reason = owned("Device ");
            append(&mut reason, expected_serial);
            append(&mut reason, " not found. Connected devices: ");
            append(&mut reason, serial_list_text(devices).as_str());
            Err(
                OracleError::AdbCommandFailed {
                    serial: owned(expected_serial),
                    command: owned("devices"),
                    reason,
                },
            )
        },
        Some(p) => match &devices[p].state {
            AdbDeviceState::Device => Ok(()),
            AdbDeviceState::Unauthorized => Err(
                OracleError::DeviceUnauthorized { serial: owned(expected_serial) },
            ),
            AdbDeviceState::Offline => Err(
                OracleError::DeviceOffline { serial: owned(expected_serial), state: owned("offline") },
            ),
            AdbDeviceState::Unknown(t) => Err(
                OracleError::DeviceOffline { serial: owned(expected_serial), state: t.clone() },
            ),
        },
    }
}

/// The outcome of the shell echo test on `expected_serial`.
pub fn echo_outcome(expected_serial: &str, echo: &OracleResult<String>) -> (r: OracleResult<String>)
    ensures
        echo_outcome_is(r, expected_serial@, *echo),
{
    let command = owned("shell echo ORACLE_VERIFY");
    match echo {
        Ok(out) => {
            if str_contains(out.as_str(), "ORACLE_VERIFY") {
                Ok(owned(expected_serial))
            } else {
                let mut reason = owned("Echo test returned unexpected output: ");
                append(&mut reason, out.as_str());
                Err(OracleError::AdbCommandFailed { serial: owned(expected_serial), command, reason })
            }
        },
        Err(e) => {
            let mut reason = owned("Shell echo test failed: ");
            append(&mut reason, e.display_text().as_str());
            Err(OracleError::AdbCommandFailed { serial: owned(expected_serial), command, reason })
        },
    }
}

/// The shell command of the echo test.
pub open spec fn echo_command() -> Seq<char> {
    "echo ORACLE_VERIFY"@
}

/// The shell command of the echo test, as text.
pub fn echo_command_text() -> (s: String)
    ensures
        s@ == echo_command(),
{
    owned("echo ORACLE_VERIFY")
}

/// Checks that the device `expected_serial` is listed, authorised and
/// answers the shell echo `echo_command()`, through any ADB interface; this is what the `adb`
/// tool's connection check does. On success the serial is returned.
pub fn verify_connection_via<A: AdbInterface>(adb: &A, expected_serial: &str) -> (r: OracleResult<String>)
    ensures
        r matches Ok(s) ==> s@ == expected_serial@,
{
    let devices = match adb.list_devices() {
        Ok(d) => d,
        Err(e) => {
            return Err(e);
        },
    };
    if let Err(e) = connection_target(&devices, expected_serial) {
        return Err(e);
    }
    let command = echo_command_text();
    let echo = adb.shell_command(expected_serial, command.as_str());
    echo_outcome(expected_serial, &echo)
}

// ── The scripted interface ───────────────────────────────────────────────────

/// The answer recorded last for `key` among `entries`, if any.
pub open spec fn latest<V>(entries: Seq<(String, V)>, key: Seq<char>) -> Option<V>
    decreases entries.len(),
{
    if entries.len() == 0 {
        None
    } else if entries.last().0@ == key {
        Some(entries.last().1)
    } else {
        latest(entries.drop_last(), key)
    }
}

/// The key of an answer: `serial:item`.
pub open spec fn answer_key(serial: Seq<char>, item: Seq<char>) -> Seq<char> {
    serial + ":"@ + item
}

fn answer_key_text(serial: &str, item: &str) -> (r: String)
    ensures
        r@ == answer_key(serial@, item@),
{
    let mut s = owned(serial);
    append(&mut s, ":");
    append(&mut s, item);
    s
}

fn latest_text(entries: &Vec<(String, String)>, key: &str) -> (r: String)
    ensures
        r@ == match latest(entries@, key@) {
            Some(v) => v@,
            None => Seq::<char>::empty(),
        },
{
    let mut i: usize = entries.len();
    assert(entries@.take(i as int) =~= entries@);
    while i > 0
        invariant
            0 <= i <= entries.len(),
            latest(entries@, key@) == latest(entries@.take(i as int), key@),
        decreases i,
    {
        assert(entries@.take(i as int).drop_last() =~= entries@.take(i - 1));
        if str_eq(entries[i - 1].0.as_str(), key) {
            return entries[i - 1].1.clone();
        }
        i = i - 1;
    }
    String::new()
}

fn latest_flag(entries: &Vec<(String, bool)>, key: &str) -> (r: bool)
    ensures
        r == match latest(entries@, key@) {
            Some(v) => v,
            None => false,
        },
{
    let mut i: usize = entries.len();
    assert(entries@.take(i as int) =~= entries@);
    while i > 0
        invariant
            0 <= i <= entries.len(),
            latest(entries@, key@) == latest(entries@.take(i as int), key@),
        decreases i,
    {
        assert(entries@.take(i as int).drop_last() =~= entries@.take(i - 1));
        if str_eq(entries[i - 1].0.as_str(), key) {
            return entries[i - 1].1;
        }
        i = i - 1;
    }
    false
}

/// An ADB interface with scripted answers, for tests and demonstrations.
/// Each answer is keyed by `serial:item`; a later answer for a key replaces
/// an earlier one.
#[derive(Debug, Clone)]
pub struct MockAdbInterface {
    /// The devices that `list_devices` returns.
    pub devices: Vec<AdbDevice>,
    /// Shell output keyed by `serial:command`.
    pub shell_responses: Vec<(String, String)>,
    /// Property values keyed by `serial:property`.
    pub prop_responses: Vec<(String, String)>,
    /// File existence keyed by `serial:path`.
    pub file_exists: Vec<(String, bool)>,
    /// File readability keyed by `serial:path`.
    pub file_readable: Vec<(String, bool)>,
    /// Whether `pull_file` fails.
    pub pull_should_fail: bool,
}

/// The shell answer of `m` for `command` on `serial` (empty when none).
pub open spec fn mock_shell(m: MockAdbInterface, serial: Seq<char>, command: Seq<char>) -> Seq<char> {
    match latest(m.shell_responses@, answer_key(serial, command)) {
        Some(v) => v@,
        None => Seq::empty(),
    }
}

/// The property answer of `m` for `prop` on `serial` (empty when none).
pub open spec fn mock_prop(m: MockAdbInterface, serial: Seq<char>, prop: Seq<char>) -> Seq<char> {
    match latest(m.prop_responses@, answer_key(serial, prop)) {
        Some(v) => v@,
        None => Seq::empty(),
    }
}

/// Whether `m` reports `path` on `serial` as existing.
pub open spec fn mock_exists(m: MockAdbInterface, serial: Seq<char>, path: Seq<char>) -> bool {
    match latest(m.file_exists@, answer_key(serial, path)) {
        Some(v) => v,
        None => false,
    }
}

/// Whether `m` reports `path` on `serial` as readable.
pub open spec fn mock_readable(m: MockAdbInterface, serial: Seq<char>, path: Seq<char>) -> bool {
    match latest(m.file_readable@, answer_key(serial, path)) {
        Some(v) => v,
        None => false,
    }
}

impl MockAdbInterface {
    /// An interface with no devices and no answers.
    pub fn new() -> (m: MockAdbInterface)
        ensures
            m.devices@.len() == 0,
            m.shell_responses@.len() == 0,
            m.prop_responses@.len() == 0,
            m.file_exists@.len() == 0,
            m.file_readable@.len() == 0,
            !m.pull_should_fail,
    {
        MockAdbInterface {
            devices: Vec::new(),
            shell_responses: Vec::new(),
            prop_responses: Vec::new(),
            file_exists: Vec::new(),
            file_readable: Vec::new(),
            pull_should_fail: false,
        }
    }

    /// Adds a USB device with the given serial and state.
    pub fn with_device(self, serial: &str, state: AdbDeviceState) -> (m: MockAdbInterface)
        ensures
            m.devices@.len() == self.devices@.len() + 1,
            m.devices@.drop_last() == self.devices@,
            m.devices@.last().serial@ == serial@,
            m.devices@.last().state == state,
            m.devices@.last().transport_type@ == "usb"@,
            m.shell_responses == self.shell_responses,
            m.prop_responses == self.prop_responses,
            m.file_exists == self.file_exists,
            m.file_readable == self.file_readable,
            m.pull_should_fail == self.pull_should_fail,
    {
        let mut m = self;
        m.devices.push(AdbDevice { serial: owned(serial), state, transport_type: owned("usb") });
        assert(m.devices@.drop_last() =~= self.devices@);
        m
    }

    /// Records the value of property `prop` on `serial`.
    pub fn with_prop(self, serial: &str, prop: &str, value: &str) -> (m: MockAdbInterface)
        ensures
            m.prop_responses@.len() == self.prop_responses@.len() + 1,
            m.prop_responses@.drop_last() == self.prop_responses@,
            m.prop_responses@.last().0@ == answer_key(serial@, prop@),
            m.prop_responses@.last().1@ == value@,
            m.devices == self.devices,
            m.shell_responses == self.shell_responses,
            m.file_exists == self.file_exists,
            m.file_readable == self.file_readable,
            m.pull_should_fail == self.pull_should_fail,
    {
        let mut m = self;
        m.prop_responses.push((answer_key_text(serial, prop), owned(value)));
        assert(m.prop_responses@.drop_last() =~= self.prop_responses@);
        m
    }

    /// Records the output of shell `command` on `serial`.
    pub fn with_shell_response(self, serial: &str, command: &str, response: &str) -> (m:
        MockAdbInterface)
        ensures
            m.shell_responses@.len() == self.shell_responses@.len() + 1,
            m.shell_responses@.drop_last() == self.shell_responses@,
            m.shell_responses@.last().0@ == answer_key(serial@, command@),
            m.shell_responses@.last().1@ == response@,
            m.devices == self.devices,
            m.prop_responses == self.prop_responses,
            m.file_exists == self.file_exists,
            m.file_readable == self.file_readable,
            m.pull_should_fail == self.pull_should_fail,
    {
        let mut m = self;
        m.shell_responses.push((answer_key_text(serial, command), owned(response)));
        assert(m.shell_responses@.drop_last() =~= self.shell_responses@);
        m
    }

    /// Records whether `path` exists on `serial`.
    pub fn with_file_exists(self, serial: &str, path: &str, exists: bool) -> (m: MockAdbInterface)
        ensures
            m.file_exists@.len() == self.file_exists@.len() + 1,
            m.file_exists@.drop_last() == self.file_exists@,
            m.file_exists@.last().0@ == answer_key(serial@, path@),
            m.file_exists@.last().1 == exists,
            m.devices == self.devices,
            m.shell_responses == self.shell_responses,
            m.prop_responses == self.prop_responses,
            m.file_readable == self.file_readable,
            m.pull_should_fail == self.pull_should_fail,
    {
        let mut m = self;
        m.file_exists.push((answer_key_text(serial, path), exists));
        assert(m.file_exists@.drop_last() =~= self.file_exists@);
        m
    }

    /// Records whether `path` is readable on `serial`.
    pub fn with_file_readable(self, serial: &str, path: &str, readable: bool) -> (m: MockAdbInterface)
        ensures
            m.file_readable@.len() == self.file_readable@.len() + 1,
            m.file_readable@.drop_last() == self.file_readable@,
            m.file_readable@.last().0@ == answer_key(serial@, path@),
            m.file_readable@.last().1 == readable,
            m.devices == self.devices,
            m.shell_responses == self.shell_responses,
            m.prop_responses == self.prop_responses,
            m.file_exists == self.file_exists,
            m.pull_should_fail == self.pull_should_fail,
    {
        let mut m = self;
        m.file_readable.push((answer_key_text(serial, path), readable));
        assert(m.file_readable@.drop_last() =~= self.file_readable@);
        m
    }
}

impl AdbInterface for MockAdbInterface {
    fn list_devices(&self) -> (r: OracleResult<Vec<AdbDevice>>)
        ensures
            r matches Ok(v) && v@ == self.devices@,
    {
        let mut out: Vec<AdbDevice> = Vec::new();
        let mut i: usize = 0;
        while i < self.devices.len()
            invariant
                0 <= i <= self.devices.len(),
                out@ == self.devices@.take(i as int),
            decreases self.devices.len() - i,
        {
            out.push(self.devices[i].duplicate());
            assert(self.devices@.take(i + 1) =~= self.devices@.take(i as int).push(self.devices@[i as int]));
            i = i + 1;
        }
        assert(self.devices@.take(self.devices.len() as int) =~= self.devices@);
        Ok(out)
    }

    fn shell_command(&self, serial: &str, command: &str) -> (r: OracleResult<String>)
        ensures
            r matches Ok(v) && v@ == mock_shell(*self, serial@, command@),
    {
        let key = answer_key_text(serial, command);
        Ok(latest_text(&self.shell_responses, key.as_str()))
    }

    fn get_prop(&self, serial: &str, prop_name: &str) -> (r: OracleResult<String>)
        ensures
            r matches Ok(v) && v@ == mock_prop(*self, serial@, prop_name@),
    {
        let key = answer_key_text(serial, prop_name);
        Ok(latest_text(&self.prop_responses, key.as_str()))
    }

    fn pull_file(&self, serial: &str, remote_path: &str, local_path: &str) -> (r: OracleResult<()>)
        ensures
            r is Ok <==> !self.pull_should_fail,
            r matches Err(e) ==> e matches OracleError::AdbCommandFailed { serial: s, command, reason }
                && s@ == serial@ && command@ == "pull "@ + remote_path@ && reason@ == "Mock pull failure"@,
    {
        if self.pull_should_fail {
            let mut command = owned("pull ");
            append(&mut command, remote_path);
            return Err(OracleError::AdbCommandFailed {
                serial: owned(serial),
                command,
                reason: owned("Mock pull failure"),
            });
        }
        Ok(())
    }

    fn check_file_exists(&self, serial: &str, path: &str) -> (r: OracleResult<bool>)
        ensures
            r == Ok::<bool, OracleError>(mock_exists(*self, serial@, path@)),
    {
        let key = answer_key_text(serial, path);
        Ok(latest_flag(&self.file_exists, key.as_str()))
    }

    fn check_file_readable(&self, serial: &str, path: &str) -> (r: OracleResult<bool>)
        ensures
            r == Ok::<bool, OracleError>(mock_readable(*self, serial@, path@)),
    {
        let key = answer_key_text(serial, path);
        Ok(latest_flag(&self.file_readable, key.as_str()))
    }

    fn stat_file(&self, serial: &str, path: &str) -> (r: OracleResult<FileStatResult>)
        ensures
            r matches Ok(st) && {
                &&& st.exists == mock_exists(*self, serial@, path@)
                &&& opt_text_is(st.permissions, if st.exists { Some("644"@) } else { None })
                &&& st.size_bytes == (if st.exists { Some(1024u64) } else { None })
                &&& opt_text_is(st.owner, if st.exists { Some("system"@) } else { None })
                &&& opt_text_is(st.group, if st.exists { Some("system"@) } else { None })
                &&& opt_text_is(
                    st.selinux_context,
                    if st.exists { Some("u:object_r:system_data_file:s0"@) } else { None },
                )
            },
    {
        let key = answer_key_text(serial, path);
        let exists = latest_flag(&self.file_exists, key.as_str());
        if exists {
            Ok(FileStatResult {
                exists,
                permissions: Some(owned("644")),
                size_bytes: Some(1024),
                owner: Some(owned("system")),
                group: Some(owned("system")),
                selinux_context: Some(owned("u:object_r:system_data_file:s0")),
            })
        } else {
            Ok(FileStatResult {
                exists,
                permissions: None,
                size_bytes: None,
                owner: None,
                group: None,
                selinux_context: None,
            })
        }
    }

    fn verify_connection(&self, expected_serial: &str) -> (r: OracleResult<String>)
        ensures
            match first_with_serial(self.devices@, expected_serial@, 0) {
                Some(p) => match self.devices@[p].state {
                    AdbDeviceState::Device => r matches Ok(s) && s@ == expected_serial@,
                    AdbDeviceState::Unauthorized => r matches Err(
                        OracleError::DeviceUnauthorized { serial },
                    ) && serial@ == expected_serial@,
                    _ => r matches Err(OracleError::DeviceOffline { serial, state }) && serial@
                        == expected_serial@ && state@ == "unknown"@,
                },
                None => if self.devices@.len() == 0 {
                    r matches Err(OracleError::NoDeviceDetected)
                } else {
                    r matches Err(OracleError::AdbCommandFailed { serial, command, reason })
                        && serial@ == expected_serial@ && command@ == "devices"@ && reason@
                        == "Device "@ + expected_serial@ + " not found"@
                },
            },
    {
        match find_device(&self.devices, expected_serial) {
            Some(p) => match self.devices[p].state {
                AdbDeviceState::Device => Ok(owned(expected_serial)),
                AdbDeviceState::Unauthorized => Err(
                    OracleError::DeviceUnauthorized { serial: owned(expected_serial) },
                ),
                _ => Err(
                    OracleError::DeviceOffline {
                        serial: owned(expected_serial),
                        state: owned("unknown"),
                    },
                ),
            },
            None => {
                if self.devices.len() == 0 {
                    Err(OracleError::NoDeviceDetected)
                } else {
                    let mut reason = owned("Device ");
                    append(&mut reason, expected_serial);
                    append(&mut reason, " not found");
                    Err(
                        OracleError::AdbCommandFailed {
                            serial: owned(expected_serial),
                            command: owned("devices"),
                            reason,
                        },
                    )
                }
            },
        }
    }
}

impl Default for LiveAdbInterface {
    /// The `adb` tool found on the search path, as `new` makes it.
    fn default() -> (r: LiveAdbInterface)
        ensures
            r.tool_path() == "adb"@,
    {
        LiveAdbInterface::new()
    }
}

} // verus!
