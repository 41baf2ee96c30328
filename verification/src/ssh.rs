//! SSH command lines and the diagnosis of failed remote commands.

use vstd::prelude::*;

use crate::error::HermesError;
use crate::models::ConnectionProfile;
use crate::text::{
    append_str, ascii_lowercase, chars_of, contains_seq, occurs_at, contains_str, int_decimal, int_to_string,
    is_ascii_text, lemma_ascii_lowercase_finds, lemma_ascii_subrange, lemma_trim_by_shape, nat_decimal, str_eq, string_of,
    to_lowercase, trim, trimmed, u64_decimal, unicode_lowercase, TrimSet,
};

verus! {

/// What a finished `ssh` process produced.
#[derive(Debug)]
pub struct SshCommandResult {
    pub stdout: String,
    pub stderr: String,
    pub exit_code: i32,
}

// ---------------------------------------------------------------------------
// Command line
// ---------------------------------------------------------------------------

/// The options passed to every `ssh` invocation.
pub open spec fn ssh_option_arguments() -> Seq<Seq<char>> {
    seq![
        "-o"@,
        "BatchMode=yes"@,
        "-o"@,
        "ConnectTimeout=10"@,
        "-o"@,
        "ServerAliveInterval=15"@,
        "-o"@,
        "ServerAliveCountMax=3"@,
    ]
}

/// The SSH target of a profile: its alias when one is set, else its host.
pub open spec fn spec_effective_target(profile: ConnectionProfile) -> Seq<char> {
    if trimmed(profile.ssh_alias@).len() > 0 {
        trimmed(profile.ssh_alias@)
    } else {
        trimmed(profile.ssh_host@)
    }
}

/// `user@target`, or the bare target when no user is set.
pub open spec fn spec_destination(profile: ConnectionProfile) -> Seq<char> {
    let user = trimmed(profile.ssh_user@);
    if user.len() == 0 {
        spec_effective_target(profile)
    } else {
        user + seq!['@'] + spec_effective_target(profile)
    }
}

pub open spec fn opt_view(s: Option<String>) -> Option<Seq<char>> {
    match s {
        Some(v) => Some(v@),
        None => None,
    }
}

/// The views of a list of texts.
pub open spec fn views(v: Seq<String>) -> Seq<Seq<char>> {
    v.map_values(|s: String| s@)
}

/// The arguments of an `ssh` invocation for `profile`.
pub open spec fn spec_shell_arguments(
    profile: ConnectionProfile,
    remote_command: Option<Seq<char>>,
    allocate_tty: bool,
) -> Seq<Seq<char>> {
    ssh_option_arguments() + seq![
        if allocate_tty {
            "-tt"@
        } else {
            "-T"@
        },
    ] + match profile.ssh_port {
        Some(port) => seq!["-p"@, nat_decimal(port as nat)],
        None => Seq::<Seq<char>>::empty(),
    } + seq!["--"@, spec_destination(profile)] + match remote_command {
        Some(c) => seq![c],
        None => Seq::<Seq<char>>::empty(),
    }
}

/// The SSH target of `profile`: its trimmed alias when that is not empty,
/// else its trimmed host.
pub fn effective_target(profile: &ConnectionProfile) -> (res: String)
    ensures
        res@ == spec_effective_target(*profile),
{
    let alias = trim(profile.ssh_alias.as_str());
    if alias.as_str().is_empty() {
        trim(profile.ssh_host.as_str())
    } else {
        alias
    }
}

/// Where `ssh` connects: `user@target`, or the target alone when the profile
/// names no user.
pub fn destination(profile: &ConnectionProfile) -> (res: String)
    ensures
        res@ == spec_destination(*profile),
{
    let target = effective_target(profile);
    let user = trim(profile.ssh_user.as_str());
    if user.as_str().is_empty() {
        target
    } else {
        let mut v = chars_of(user.as_str());
        v.push('@');
        append_str(&mut v, target.as_str());
        string_of(&v)
    }
}

/// The arguments of an `ssh` invocation: batch mode, a connect timeout and
/// keep-alives, `-tt` for an interactive session or `-T` otherwise, the port
/// when the profile sets one, `--`, the destination, and the remote command
/// when there is one.
pub fn shell_arguments(
    profile: &ConnectionProfile,
    remote_command: Option<String>,
    allocate_tty: bool,
) -> (res: Vec<String>)
    ensures
        views(res@) == spec_shell_arguments(*profile, opt_view(remote_command), allocate_tty),
{
    let mut arguments: Vec<String> = Vec::new();
    arguments.push("-o".to_owned());
    arguments.push("BatchMode=yes".to_owned());
    arguments.push("-o".to_owned());
    arguments.push("ConnectTimeout=10".to_owned());
    arguments.push("-o".to_owned());
    arguments.push("ServerAliveInterval=15".to_owned());
    arguments.push("-o".to_owned());
    arguments.push("ServerAliveCountMax=3".to_owned());
    let ghost base = views(arguments@);
    assert(base =~= ssh_option_arguments());
    if allocate_tty {
        arguments.push("-tt".to_owned());
    } else {
        arguments.push("-T".to_owned());
    }
    let ghost with_tty = views(arguments@);
    match profile.ssh_port {
        Some(port) => {
            arguments.push("-p".to_owned());
            let digits = u64_decimal(port as u64);
            arguments.push(string_of(&digits));
        },
        None => {},
    }
    let ghost with_port = views(arguments@);
    arguments.push("--".to_owned());
    arguments.push(destination(profile));
    let ghost with_dest = views(arguments@);
    let ghost remote_view = opt_view(remote_command);
    match remote_command {
        Some(command) => {
            arguments.push(command);
        },
        None => {},
    }
    proof {
        let tty: Seq<Seq<char>> = seq![
            if allocate_tty {
                "-tt"@
            } else {
                "-T"@
            },
        ];
        assert(with_tty =~= base + tty);
        let port_part = match profile.ssh_port {
            Some(port) => seq!["-p"@, nat_decimal(port as nat)],
            None => Seq::<Seq<char>>::empty(),
        };
        assert(with_port =~= base + tty + port_part);
        assert(with_dest =~= base + tty + port_part + seq!["--"@, spec_destination(*profile)]);
        let remote_part = match remote_view {
            Some(c) => seq![c],
            None => Seq::<Seq<char>>::empty(),
        };
        assert(views(arguments@) =~= with_dest + remote_part);
    }
    arguments
}

/// The destination always comes right after `--`, so a target that starts
/// with `-` is never read as an option; the remote command, when there is
/// one, comes last, else the destination does.
pub proof fn lemma_shell_arguments_shape(
    profile: ConnectionProfile,
    remote_command: Option<Seq<char>>,
    allocate_tty: bool,
)
    ensures
        ({
            let args = spec_shell_arguments(profile, remote_command, allocate_tty);
            let n = args.len();
            match remote_command {
                Some(c) => n >= 3 && args[n - 1] == c && args[n - 2] == spec_destination(profile)
                    && args[n - 3] == "--"@,
                None => n >= 2 && args[n - 1] == spec_destination(profile) && args[n - 2]
                    == "--"@,
            }
        }),
{
    let args = spec_shell_arguments(profile, remote_command, allocate_tty);
    let n = args.len();
    let port_part = match profile.ssh_port {
        Some(port) => seq!["-p"@, nat_decimal(port as nat)],
        None => Seq::<Seq<char>>::empty(),
    };
    let head = ssh_option_arguments() + seq![
        if allocate_tty {
            "-tt"@
        } else {
            "-T"@
        },
    ] + port_part;
    let with_dest = head + seq!["--"@, spec_destination(profile)];
    assert(with_dest[with_dest.len() - 1] == spec_destination(profile));
    assert(with_dest[with_dest.len() - 2] == "--"@);
    match remote_command {
        Some(c) => {
            assert(args =~= with_dest + seq![c]);
            assert(args[n - 2] == with_dest[with_dest.len() - 1]);
            assert(args[n - 3] == with_dest[with_dest.len() - 2]);
        },
        None => {
            assert(args =~= with_dest);
        },
    }
}

// ---------------------------------------------------------------------------
// Structured errors in remote output
// ---------------------------------------------------------------------------

/// A member of a JSON object, as far as the library reads it.
pub enum JsonMember {
    Bool(bool),
    Text(String),
    Other,
}

/// The view of a [`JsonMember`].
pub enum JsonMemberView {
    Bool(bool),
    Text(Seq<char>),
    Other,
}

impl View for JsonMember {
    type V = JsonMemberView;

    open spec fn view(&self) -> JsonMemberView {
        match self {
            JsonMember::Bool(b) => JsonMemberView::Bool(*b),
            JsonMember::Text(s) => JsonMemberView::Text(s@),
            JsonMember::Other => JsonMemberView::Other,
        }
    }
}

/// JSON white space: space, tab, line feed and carriage return.
pub open spec fn is_json_ws(c: char) -> bool {
    c == ' ' || c == '\t' || c == '\n' || c == '\r'
}

/// `s` is JSON white space only.
pub open spec fn json_ws(s: Seq<char>) -> bool {
    forall|i: int| 0 <= i < s.len() ==> is_json_ws(#[trigger] s[i])
}

/// The first character of `s` that is not JSON white space.
pub open spec fn first_non_ws(s: Seq<char>) -> Option<char>
    decreases s.len(),
{
    if s.len() == 0 {
        None
    } else if is_json_ws(s[0]) {
        first_non_ws(s.drop_first())
    } else {
        Some(s[0])
    }
}

/// `s` can only be a JSON object: its first character after white space
/// is `'{'`.
pub open spec fn opens_json_object(s: Seq<char>) -> bool {
    first_non_ws(s) == Some('{')
}

/// A JSON value of the kinds the remote programs' reports hold.
pub enum JsonScalar {
    Bool(bool),
    Text(Seq<char>),
    Null,
}

/// A character of a JSON string, escaped where JSON requires it.
pub open spec fn json_escape(c: char) -> Seq<char> {
    if c == '"' {
        seq!['\\', '"']
    } else if c == '\\' {
        seq!['\\', '\\']
    } else if c == '\n' {
        seq!['\\', 'n']
    } else if c == '\r' {
        seq!['\\', 'r']
    } else if c == '\t' {
        seq!['\\', 't']
    } else {
        seq![c]
    }
}

/// The escaped characters of a JSON string.
pub open spec fn json_string_body(s: Seq<char>) -> Seq<char>
    decreases s.len(),
{
    if s.len() == 0 {
        Seq::<char>::empty()
    } else {
        json_string_body(s.drop_last()) + json_escape(s.last())
    }
}

/// `s` written as a JSON string.
pub open spec fn json_string(s: Seq<char>) -> Seq<char> {
    seq!['"'] + json_string_body(s) + seq!['"']
}

/// `s` can be written as a JSON string with the escapes of
/// [`json_escape`]: it has no control character but line feed, carriage
/// return and tab.
pub open spec fn json_text_ok(s: Seq<char>) -> bool {
    forall|i: int|
        0 <= i < s.len() ==> (#[trigger] s[i] as u32) >= 0x20 || s[i] == '\n' || s[i] == '\r' || s[i]
            == '\t'
}

/// A value written as JSON.
pub open spec fn json_scalar(v: JsonScalar) -> Seq<char> {
    match v {
        JsonScalar::Bool(true) => seq!['t', 'r', 'u', 'e'],
        JsonScalar::Bool(false) => seq!['f', 'a', 'l', 's', 'e'],
        JsonScalar::Text(t) => json_string(t),
        JsonScalar::Null => seq!['n', 'u', 'l', 'l'],
    }
}

/// The members of a JSON object, `"key": value`, separated by `", "`.
pub open spec fn json_members(ms: Seq<(Seq<char>, JsonScalar)>) -> Seq<char>
    decreases ms.len(),
{
    if ms.len() == 0 {
        Seq::<char>::empty()
    } else {
        let member = json_string(ms.last().0) + seq![':', ' '] + json_scalar(ms.last().1);
        if ms.len() == 1 {
            member
        } else {
            json_members(ms.drop_last()) + seq![',', ' '] + member
        }
    }
}

/// A JSON object with the members `ms`, between white space `pre` and
/// `post` (the way `json.dumps` and `print` write a report).
pub open spec fn framed_json_object(
    pre: Seq<char>,
    ms: Seq<(Seq<char>, JsonScalar)>,
    post: Seq<char>,
) -> Seq<char> {
    pre + seq!['{'] + json_members(ms) + seq!['}'] + post
}

/// The members have distinct keys, and every key and text can be written.
pub open spec fn json_members_ok(ms: Seq<(Seq<char>, JsonScalar)>) -> bool {
    &&& forall|i: int, j: int| 0 <= i < j < ms.len() ==> ms[i].0 != ms[j].0
    &&& forall|i: int|
        0 <= i < ms.len() ==> json_text_ok(#[trigger] ms[i].0) && (ms[i].1 matches JsonScalar::Text(
            t,
        ) ==> json_text_ok(t))
}

/// How the library reads a JSON value.
pub open spec fn scalar_view(v: JsonScalar) -> JsonMemberView {
    match v {
        JsonScalar::Bool(b) => JsonMemberView::Bool(b),
        JsonScalar::Text(t) => JsonMemberView::Text(t),
        JsonScalar::Null => JsonMemberView::Other,
    }
}

/// The value of the member `key`, if the object has one.
pub open spec fn member_lookup(ms: Seq<(Seq<char>, JsonScalar)>, key: Seq<char>) -> Option<
    JsonMemberView,
>
    decreases ms.len(),
{
    if ms.len() == 0 {
        None
    } else if ms.last().0 == key {
        Some(scalar_view(ms.last().1))
    } else {
        member_lookup(ms.drop_last(), key)
    }
}

/// What `serde_json` finds under `key` when `text` parses as a JSON value:
/// `None` when the text is not JSON or has no such member at its top level.
pub uninterp spec fn json_top_level_member(text: Seq<char>, key: Seq<char>) -> Option<
    JsonMemberView,
>;

pub open spec fn member_view(m: Option<JsonMember>) -> Option<JsonMemberView> {
    match m {
        Some(v) => Some(v@),
        None => None,
    }
}

/// Parses `text` with `serde_json::from_str::<serde_json::Value>` and reads
/// the member `key` with `Value::get`. The outcome depends on `text` and
/// `key` alone. Text whose first character after JSON white space is not
/// `'{'` is no JSON object, so it has no member. A JSON object written with
/// the escapes of [`json_escape`], with white space around it, has exactly
/// its members.
#[verifier::external_body]
fn json_member(text: &str, key: &str) -> (res: Option<JsonMember>)
    ensures
        member_view(res) == json_top_level_member(text@, key@),
        !opens_json_object(text@) ==> res is None,
        forall|pre: Seq<char>, ms: Seq<(Seq<char>, JsonScalar)>, post: Seq<char>|
            json_ws(pre) && json_ws(post) && json_members_ok(ms) && text@
                == #[trigger] framed_json_object(pre, ms, post) ==> member_view(res)
                == member_lookup(ms, key@),
{
    match serde_json::from_str::<serde_json::Value>(text) {
        Ok(value) => match value.get(key) {
            Some(serde_json::Value::Bool(b)) => Some(JsonMember::Bool(*b)),
            Some(serde_json::Value::String(s)) => Some(JsonMember::Text(s.clone())),
            Some(_) => Some(JsonMember::Other),
            None => None,
        },
        Err(_) => None,
    }
}

/// The message of a structured failure report, given the top-level members
/// `ok` and `error` of the output: the `error` text when `ok` is `false`.
pub open spec fn spec_structured_error_of(
    ok: Option<JsonMemberView>,
    error: Option<JsonMemberView>,
) -> Option<Seq<char>> {
    match ok {
        Some(JsonMemberView::Bool(false)) => match error {
            Some(JsonMemberView::Text(message)) => Some(message),
            _ => None,
        },
        _ => None,
    }
}

/// The message of a structured failure report `{"ok": false, "error": ...}`.
pub open spec fn spec_structured_remote_error(output: Seq<char>) -> Option<Seq<char>> {
    spec_structured_error_of(
        json_top_level_member(output, "ok"@),
        json_top_level_member(output, "error"@),
    )
}

/// The `error` text of a report whose top-level `ok` member is `false` and
/// whose `error` member is a string; `None` for anything else.
pub fn structured_error_of(ok: Option<JsonMember>, error: Option<JsonMember>) -> (res: Option<
    String,
>)
    ensures
        opt_view(res) == spec_structured_error_of(member_view(ok), member_view(error)),
{
    match ok {
        Some(JsonMember::Bool(false)) => match error {
            Some(JsonMember::Text(message)) => Some(message),
            _ => None,
        },
        _ => None,
    }
}

/// The `error` text of output that is a JSON object with `"ok": false`.
pub fn structured_remote_error(output: &str) -> (res: Option<String>)
    ensures
        opt_view(res) == spec_structured_remote_error(output@),
        !opens_json_object(output@) ==> res is None,
        forall|pre: Seq<char>, ms: Seq<(Seq<char>, JsonScalar)>, post: Seq<char>|
            json_ws(pre) && json_ws(post) && json_members_ok(ms) && output@
                == #[trigger] framed_json_object(pre, ms, post) ==> opt_view(res)
                == spec_structured_error_of(member_lookup(ms, "ok"@), member_lookup(ms, "error"@)),
{
    let ok = json_member(output, "ok");
    let error = json_member(output, "error");
    structured_error_of(ok, error)
}

// ---------------------------------------------------------------------------
// Failure diagnosis
// ---------------------------------------------------------------------------

pub const AUTH_FAILED: &'static str =
    "SSH authentication failed. Verify the key, SSH agent, and user for this SSH target.";

pub const HOST_KEY_FAILED: &'static str =
    "SSH host key verification failed. Connect once in a terminal or update known_hosts before retrying.";

pub const HOST_KEY_CHANGED: &'static str =
    "The SSH host key changed for this target. Refresh the entry in known_hosts before retrying.";

pub const UNRESOLVED_TARGET: &'static str =
    "The SSH target could not be resolved. Check the alias, hostname, IP address, or SSH config entry in this profile.";

pub const REFUSED_LOCAL: &'static str =
    "The SSH server on this computer refused the connection. If you are connecting to localhost, make sure SSH access is enabled and retry.";

pub const REFUSED_REMOTE: &'static str =
    "The SSH server refused the connection. Confirm that SSH is enabled and reachable on the target host.";

pub const TIMED_OUT_LOCAL: &'static str =
    "The SSH connection to this computer timed out. If you are testing localhost, verify that SSH access is enabled and retry.";

pub const TIMED_OUT_REMOTE: &'static str =
    "The SSH connection timed out. Check that the target host is reachable and that your SSH route is correct.";

pub const UNREACHABLE_TARGET: &'static str =
    "The SSH target is unreachable. Check the hostname, IP address, VPN, or local network path and retry.";

pub const PYTHON_MISSING: &'static str =
    "SSH succeeded, but python3 is not available in the remote non-interactive SSH shell PATH. Install python3 or expose it in the SSH shell environment before retrying.";

pub const EXIT_CODE_PREFIX: &'static str = "SSH command failed with exit code ";

/// Whether `target` names this computer.
pub open spec fn spec_is_loopback_target(target: Seq<char>) -> bool {
    let normalized = unicode_lowercase(trimmed(target));
    normalized == "localhost"@ || normalized == "127.0.0.1"@ || normalized == "::1"@
        || normalized == "0:0:0:0:0:0:0:1"@
}

/// The trimmed standard error, or the trimmed standard output when the
/// former is empty.
pub open spec fn raw_failure_text(stdout: Seq<char>, stderr: Seq<char>) -> Seq<char> {
    if trimmed(stderr).len() > 0 {
        trimmed(stderr)
    } else {
        trimmed(stdout)
    }
}

pub open spec fn python_missing(lowered: Seq<char>) -> bool {
    contains_seq(lowered, "python3: command not found"@) || contains_seq(
        lowered,
        "command not found: python3"@,
    ) || contains_seq(lowered, "python3: not found"@) || contains_seq(
        lowered,
        "unknown command: python3"@,
    ) || contains_seq(lowered, "env: python3: no such file or directory"@)
}

/// The message for a failure without a structured report, given the raw
/// output, its lower-cased form, the exit code and whether the target is
/// this computer: a known SSH failure recognised in the lower-cased output,
/// else the raw output, else the exit code.
pub open spec fn spec_failure_message_of(
    raw: Seq<char>,
    lowered: Seq<char>,
    exit_code: int,
    loopback: bool,
) -> Seq<char> {
    if contains_seq(lowered, "permission denied"@) {
        AUTH_FAILED@
    } else if contains_seq(lowered, "host key verification failed"@) {
        HOST_KEY_FAILED@
    } else if contains_seq(lowered, "remote host identification has changed"@) {
        HOST_KEY_CHANGED@
    } else if contains_seq(lowered, "could not resolve hostname"@) || contains_seq(
        lowered,
        "name or service not known"@,
    ) {
        UNRESOLVED_TARGET@
    } else if contains_seq(lowered, "connection refused"@) {
        if loopback {
            REFUSED_LOCAL@
        } else {
            REFUSED_REMOTE@
        }
    } else if contains_seq(lowered, "operation timed out"@) || contains_seq(
        lowered,
        "connection timed out"@,
    ) {
        if loopback {
            TIMED_OUT_LOCAL@
        } else {
            TIMED_OUT_REMOTE@
        }
    } else if contains_seq(lowered, "no route to host"@) || contains_seq(
        lowered,
        "network is unreachable"@,
    ) {
        UNREACHABLE_TARGET@
    } else if python_missing(lowered) {
        PYTHON_MISSING@
    } else if raw.len() > 0 {
        raw
    } else {
        EXIT_CODE_PREFIX@ + int_decimal(exit_code) + seq!['.']
    }
}

/// The message for a failure without a structured report: the diagnosis of
/// the trimmed output (standard error first), lower-cased for matching.
pub open spec fn plain_failure_message(
    stdout: Seq<char>,
    stderr: Seq<char>,
    exit_code: int,
    target: Seq<char>,
) -> Seq<char> {
    let raw = raw_failure_text(stdout, stderr);
    spec_failure_message_of(
        raw,
        unicode_lowercase(raw),
        exit_code,
        spec_is_loopback_target(target),
    )
}

/// The message for a failed remote command: a structured report in standard
/// output, else one in standard error, else the plain diagnosis.
pub open spec fn spec_remote_failure(
    stdout: Seq<char>,
    stderr: Seq<char>,
    exit_code: int,
    target: Seq<char>,
) -> Seq<char> {
    match spec_structured_remote_error(stdout) {
        Some(message) => message,
        None => match spec_structured_remote_error(stderr) {
            Some(message) => message,
            None => plain_failure_message(stdout, stderr, exit_code, target),
        },
    }
}

/// The SSH target of the profile, or the empty text without one.
pub open spec fn target_of(profile: Option<&ConnectionProfile>) -> Seq<char> {
    match profile {
        Some(p) => spec_effective_target(*p),
        None => Seq::<char>::empty(),
    }
}

/// Whether ASCII `target` names this computer, lower-cased letter by letter.
pub open spec fn ascii_loopback(target: Seq<char>) -> bool {
    let normalized = ascii_lowercase(trimmed(target));
    normalized == "localhost"@ || normalized == "127.0.0.1"@ || normalized == "::1"@
        || normalized == "0:0:0:0:0:0:0:1"@
}

/// Whether `target` names this computer: after trimming and lower-casing it
/// is `localhost`, `127.0.0.1`, `::1` or `0:0:0:0:0:0:0:1`.
pub fn is_loopback_target(target: &str) -> (res: bool)
    ensures
        res == spec_is_loopback_target(target@),
        is_ascii_text(target@) ==> res == ascii_loopback(target@),
{
    proof {
        if is_ascii_text(target@) {
            let b = lemma_trim_by_shape(target@, TrimSet::Whitespace);
            lemma_ascii_subrange(target@, b.0, b.1);
        }
    }
    let trimmed_target = trim(target);
    let normalized = to_lowercase(trimmed_target.as_str());
    let n = normalized.as_str();
    str_eq(n, "localhost") || str_eq(n, "127.0.0.1") || str_eq(n, "::1") || str_eq(
        n,
        "0:0:0:0:0:0:0:1",
    )
}

fn python_missing_exec(lowered: &Vec<char>) -> (res: bool)
    ensures
        res == python_missing(lowered@),
{
    contains_str(lowered, "python3: command not found") || contains_str(
        lowered,
        "command not found: python3",
    ) || contains_str(lowered, "python3: not found") || contains_str(
        lowered,
        "unknown command: python3",
    ) || contains_str(lowered, "env: python3: no such file or directory")
}

/// Names the failure that `raw` (the trimmed output) shows, matching on
/// `lowered` (its lower-cased form): authentication, host keys, an
/// unresolved, refusing, timed-out or unreachable target (with advice for
/// this computer when `loopback`), or a missing `python3`; otherwise `raw`
/// itself, or the exit code when `raw` is empty.
pub fn failure_message_of(raw: String, lowered: &str, exit_code: i32, loopback: bool) -> (res:
    String)
    ensures
        res@ == spec_failure_message_of(raw@, lowered@, exit_code as int, loopback),
{
    let lowered = chars_of(lowered);
    if contains_str(&lowered, "permission denied") {
        return AUTH_FAILED.to_owned();
    }
    if contains_str(&lowered, "host key verification failed") {
        return HOST_KEY_FAILED.to_owned();
    }
    if contains_str(&lowered, "remote host identification has changed") {
        return HOST_KEY_CHANGED.to_owned();
    }
    if contains_str(&lowered, "could not resolve hostname") || contains_str(
        &lowered,
        "name or service not known",
    ) {
        return UNRESOLVED_TARGET.to_owned();
    }
    if contains_str(&lowered, "connection refused") {
        if loopback {
            return REFUSED_LOCAL.to_owned();
        }
        return REFUSED_REMOTE.to_owned();
    }
    if contains_str(&lowered, "operation timed out") || contains_str(
        &lowered,
        "connection timed out",
    ) {
        if loopback {
            return TIMED_OUT_LOCAL.to_owned();
        }
        return TIMED_OUT_REMOTE.to_owned();
    }
    if contains_str(&lowered, "no route to host") || contains_str(
        &lowered,
        "network is unreachable",
    ) {
        return UNREACHABLE_TARGET.to_owned();
    }
    if python_missing_exec(&lowered) {
        return PYTHON_MISSING.to_owned();
    }
    if !raw.as_str().is_empty() {
        return raw;
    }
    let mut v = chars_of(EXIT_CODE_PREFIX);
    let code = int_to_string(exit_code as i64);
    append_str(&mut v, code.as_str());
    v.push('.');
    string_of(&v)
}

fn plain_failure(result: &SshCommandResult, target: &String) -> (res: String)
    ensures
        res@ == plain_failure_message(
            result.stdout@,
            result.stderr@,
            result.exit_code as int,
            target@,
        ),
        is_ascii_text(raw_failure_text(result.stdout@, result.stderr@)) ==> res@
            == spec_failure_message_of(
            raw_failure_text(result.stdout@, result.stderr@),
            ascii_lowercase(raw_failure_text(result.stdout@, result.stderr@)),
            result.exit_code as int,
            spec_is_loopback_target(target@),
        ),
        is_ascii_text(target@) ==> spec_is_loopback_target(target@) == ascii_loopback(target@),
{
    let stderr_trimmed = trim(result.stderr.as_str());
    let raw = if stderr_trimmed.as_str().is_empty() {
        trim(result.stdout.as_str())
    } else {
        stderr_trimmed
    };
    let lowered = to_lowercase(raw.as_str());
    let loopback = is_loopback_target(target.as_str());
    failure_message_of(raw, lowered.as_str(), result.exit_code, loopback)
}

/// The report that the remote programs print when they fail:
/// `{"ok": false, "error": message}`.
pub open spec fn failure_report(message: Seq<char>) -> Seq<(Seq<char>, JsonScalar)> {
    seq![
        (seq!['o', 'k'], JsonScalar::Bool(false)),
        (seq!['e', 'r', 'r', 'o', 'r'], JsonScalar::Text(message)),
    ]
}

/// Explains why a remote command failed. A structured report
/// (`{"ok": false, "error": ...}`) in standard output, then in standard
/// error, wins, also with white space such as a final line feed around it;
/// otherwise common SSH failures found anywhere in the output (lower-cased
/// as a whole) are named (a refused or timed-out connection to this
/// computer gets its own advice), then the raw output is returned, then the
/// exit code.
pub fn describe_remote_failure(
    result: &SshCommandResult,
    profile: Option<&ConnectionProfile>,
) -> (res: String)
    ensures
        res@ == spec_remote_failure(
            result.stdout@,
            result.stderr@,
            result.exit_code as int,
            target_of(profile),
        ),
        forall|pre: Seq<char>, message: Seq<char>, post: Seq<char>|
            json_ws(pre) && json_ws(post) && json_text_ok(message) && result.stdout@
                == #[trigger] framed_json_object(pre, failure_report(message), post) ==> res@
                == message,
        forall|pre: Seq<char>, message: Seq<char>, post: Seq<char>|
            !opens_json_object(result.stdout@) && json_ws(pre) && json_ws(post) && json_text_ok(
                message,
            ) && result.stderr@ == #[trigger] framed_json_object(pre, failure_report(message), post)
                ==> res@ == message,
        !opens_json_object(result.stdout@) && !opens_json_object(result.stderr@) && is_ascii_text(
            raw_failure_text(result.stdout@, result.stderr@),
        ) && is_ascii_text(target_of(profile)) ==> res@ == spec_failure_message_of(
            raw_failure_text(result.stdout@, result.stderr@),
            ascii_lowercase(raw_failure_text(result.stdout@, result.stderr@)),
            result.exit_code as int,
            ascii_loopback(target_of(profile)),
        ),
        !opens_json_object(result.stdout@) && !opens_json_object(result.stderr@) && is_ascii_text(
            raw_failure_text(result.stdout@, result.stderr@),
        ) && contains_seq(
            ascii_lowercase(raw_failure_text(result.stdout@, result.stderr@)),
            "permission denied"@,
        ) ==> res@ == AUTH_FAILED@,
{
    proof {
        assert forall|message: Seq<char>| json_text_ok(message) implies json_members_ok(
            #[trigger] failure_report(message),
        ) && spec_structured_error_of(
            member_lookup(failure_report(message), "ok"@),
            member_lookup(failure_report(message), "error"@),
        ) == Some(message) by {
            lemma_failure_report(message);
        }
        assert(is_ascii_text(Seq::<char>::empty()));
    }
    if let Some(structured) = structured_remote_error(result.stdout.as_str()) {
        return structured;
    }
    if let Some(structured) = structured_remote_error(result.stderr.as_str()) {
        return structured;
    }
    let target = match profile {
        Some(p) => effective_target(p),
        None => String::new(),
    };
    plain_failure(result, &target)
}

/// `Ok` for a zero exit code; otherwise a remote error with the diagnosis
/// of [`describe_remote_failure`].
pub fn validate_success(result: &SshCommandResult, profile: Option<&ConnectionProfile>) -> (res:
    Result<(), HermesError>)
    ensures
        result.exit_code == 0 <==> res is Ok,
        res matches Err(e) ==> e matches HermesError::Remote(m) && m@ == spec_remote_failure(
            result.stdout@,
            result.stderr@,
            result.exit_code as int,
            target_of(profile),
        ),
{
    if result.exit_code == 0 {
        return Ok(());
    }
    Err(HermesError::Remote(describe_remote_failure(result, profile)))
}

/// The text of the error raised when a successful command's output is not
/// the JSON that was expected: the parser's message, then the standard
/// output and standard error under headings.
pub fn invalid_json_details(parse_error: &str, result: &SshCommandResult) -> (res: String)
    ensures
        res@ == parse_error@ + "\n\nstdout:\n"@ + result.stdout@ + "\n\nstderr:\n"@
            + result.stderr@,
{
    let mut v = chars_of(parse_error);
    append_str(&mut v, "\n\nstdout:\n");
    append_str(&mut v, result.stdout.as_str());
    append_str(&mut v, "\n\nstderr:\n");
    append_str(&mut v, result.stderr.as_str());
    string_of(&v)
}

// ---------------------------------------------------------------------------
// Laws
// ---------------------------------------------------------------------------

/// The failure report of a writable message is a well-formed object whose
/// `ok` member is `false` and whose `error` member is the message, so it
/// reads as that message.
pub proof fn lemma_failure_report(message: Seq<char>)
    requires
        json_text_ok(message),
    ensures
        json_members_ok(failure_report(message)),
        member_lookup(failure_report(message), "ok"@) == Some(JsonMemberView::Bool(false)),
        member_lookup(failure_report(message), "error"@) == Some(JsonMemberView::Text(message)),
        spec_structured_error_of(
            member_lookup(failure_report(message), "ok"@),
            member_lookup(failure_report(message), "error"@),
        ) == Some(message),
{
    reveal_strlit("ok");
    reveal_strlit("error");
    let ms = failure_report(message);
    assert(seq!['o', 'k'] =~= "ok"@);
    assert(ms.last().0 == seq!['e', 'r', 'r', 'o', 'r']);
    assert(seq!['e', 'r', 'r', 'o', 'r'] =~= "error"@);
    assert(seq!['o', 'k'] != seq!['e', 'r', 'r', 'o', 'r']) by {
        assert(seq!['o', 'k'].len() != seq!['e', 'r', 'r', 'o', 'r'].len());
    }
    assert(ms.drop_last() =~= seq![(seq!['o', 'k'], JsonScalar::Bool(false))]);
    assert(member_lookup(ms.drop_last(), "ok"@) == Some(JsonMemberView::Bool(false)));
    assert(member_lookup(ms, "ok"@) == Some(JsonMemberView::Bool(false)));
    assert(member_lookup(ms, "error"@) == Some(JsonMemberView::Text(message)));
    assert(json_text_ok(seq!['o', 'k']));
    assert(json_text_ok(seq!['e', 'r', 'r', 'o', 'r']));
}

proof fn lemma_first_non_ws_after(pre: Seq<char>, rest: Seq<char>)
    requires
        json_ws(pre),
    ensures
        first_non_ws(pre + rest) == first_non_ws(rest),
    decreases pre.len(),
{
    if pre.len() > 0 {
        assert((pre + rest)[0] == pre[0]);
        assert((pre + rest).drop_first() =~= pre.drop_first() + rest);
        lemma_first_non_ws_after(pre.drop_first(), rest);
    } else {
        assert(pre + rest =~= rest);
    }
}

/// A written JSON object, with white space around it, opens a JSON object,
/// so the two descriptions of `json_member`'s result never meet.
pub proof fn lemma_framed_object_opens(
    pre: Seq<char>,
    ms: Seq<(Seq<char>, JsonScalar)>,
    post: Seq<char>,
)
    requires
        json_ws(pre),
    ensures
        opens_json_object(framed_json_object(pre, ms, post)),
{
    let rest = seq!['{'] + json_members(ms) + seq!['}'] + post;
    assert(framed_json_object(pre, ms, post) =~= pre + rest);
    lemma_first_non_ws_after(pre, rest);
    assert(rest[0] == '{');
}

/// Output that says `Permission denied` anywhere, on any of its lines and
/// whatever the case of the rest, is diagnosed as an authentication
/// failure.
pub proof fn lemma_permission_denied_anywhere(
    raw: Seq<char>,
    exit_code: int,
    loopback: bool,
    before: Seq<char>,
    after: Seq<char>,
)
    requires
        raw == before + "Permission denied"@ + after,
    ensures
        spec_failure_message_of(raw, ascii_lowercase(raw), exit_code, loopback) == AUTH_FAILED@,
{
    reveal_strlit("Permission denied");
    reveal_strlit("permission denied");
    let word = "Permission denied"@;
    assert(occurs_at(raw, word, before.len() as int)) by {
        assert(raw.subrange(before.len() as int, (before.len() + word.len()) as int) =~= word);
    }
    lemma_ascii_lowercase_finds(raw, word);
    assert(ascii_lowercase(word) =~= "permission denied"@);
}

} // verus!
