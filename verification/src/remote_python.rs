//! Framing of the Python programs that run on the remote host: the request
//! travels inside the program as Base64-encoded JSON, followed by helpers
//! shared by every program and the program's own body.

use base64::Engine;
use vstd::prelude::*;

use crate::text::{append_str, chars_of, string_of};

verus! {

/// The Base64 symbol for the six-bit value `v` (standard alphabet).
pub open spec fn base64_symbol(v: int) -> char {
    if v < 26 {
        (65 + v) as char
    } else if v < 52 {
        (97 + (v - 26)) as char
    } else if v < 62 {
        (48 + (v - 52)) as char
    } else if v == 62 {
        '+'
    } else {
        '/'
    }
}

/// Standard Base64 with `'='` padding (RFC 4648, section 4): each group of
/// three bytes becomes four symbols; a final group of one or two bytes
/// becomes two or three symbols and padding.
pub open spec fn base64_standard(bytes: Seq<u8>) -> Seq<char>
    decreases bytes.len(),
{
    if bytes.len() == 0 {
        Seq::<char>::empty()
    } else if bytes.len() == 1 {
        let b0 = bytes[0] as int;
        seq![base64_symbol(b0 / 4), base64_symbol((b0 % 4) * 16), '=', '=']
    } else if bytes.len() == 2 {
        let b0 = bytes[0] as int;
        let b1 = bytes[1] as int;
        seq![
            base64_symbol(b0 / 4),
            base64_symbol((b0 % 4) * 16 + b1 / 16),
            base64_symbol((b1 % 16) * 4),
            '=',
        ]
    } else {
        let b0 = bytes[0] as int;
        let b1 = bytes[1] as int;
        let b2 = bytes[2] as int;
        seq![
            base64_symbol(b0 / 4),
            base64_symbol((b0 % 4) * 16 + b1 / 16),
            base64_symbol((b1 % 16) * 4 + b2 / 64),
            base64_symbol(b2 % 64),
        ] + base64_standard(bytes.skip(3))
    }
}

/// The six-bit value of a symbol of the standard Base64 alphabet.
pub open spec fn base64_value(c: char) -> int {
    if 'A' <= c <= 'Z' {
        c as int - 65
    } else if 'a' <= c <= 'z' {
        c as int - 97 + 26
    } else if '0' <= c <= '9' {
        c as int - 48 + 52
    } else if c == '+' {
        62
    } else {
        63
    }
}

/// Standard Base64 decoding of well-formed, padded text: each group of four
/// symbols gives three bytes, or two or one byte when it ends in one or two
/// `'='`.
pub open spec fn base64_decode(text: Seq<char>) -> Seq<u8>
    decreases text.len(),
{
    if text.len() < 4 {
        Seq::<u8>::empty()
    } else {
        let v0 = base64_value(text[0]);
        let v1 = base64_value(text[1]);
        let v2 = base64_value(text[2]);
        let v3 = base64_value(text[3]);
        if text[2] == '=' {
            seq![(v0 * 4 + v1 / 16) as u8]
        } else if text[3] == '=' {
            seq![(v0 * 4 + v1 / 16) as u8, ((v1 % 16) * 16 + v2 / 4) as u8]
        } else {
            seq![
                (v0 * 4 + v1 / 16) as u8,
                ((v1 % 16) * 16 + v2 / 4) as u8,
                ((v2 % 4) * 64 + v3) as u8,
            ] + base64_decode(text.skip(4))
        }
    }
}

proof fn lemma_base64_symbol(v: int)
    requires
        0 <= v < 64,
    ensures
        base64_value(base64_symbol(v)) == v,
        base64_symbol(v) != '=',
        base64_symbol(v) != '"',
{
}

proof fn lemma_base64_group(b0: int, b1: int, b2: int)
    requires
        0 <= b0 < 256,
        0 <= b1 < 256,
        0 <= b2 < 256,
    ensures
        0 <= b0 / 4 < 64,
        0 <= (b0 % 4) * 16 + b1 / 16 < 64,
        0 <= (b1 % 16) * 4 + b2 / 64 < 64,
        0 <= b2 % 64 < 64,
        (b0 / 4) * 4 + ((b0 % 4) * 16 + b1 / 16) / 16 == b0,
        (((b0 % 4) * 16 + b1 / 16) % 16) * 16 + ((b1 % 16) * 4 + b2 / 64) / 4 == b1,
        (((b1 % 16) * 4 + b2 / 64) % 4) * 64 + b2 % 64 == b2,
{
}

/// Decoding the standard Base64 encoding of some bytes gives them back; the
/// encoding has the length [`base64_len`] and never holds a `'"'`.
pub proof fn lemma_base64_round_trip(bytes: Seq<u8>)
    ensures
        base64_decode(base64_standard(bytes)) == bytes,
        base64_standard(bytes).len() == base64_len(bytes.len()),
        !base64_standard(bytes).contains('"'),
    decreases bytes.len(),
{
    let e = base64_standard(bytes);
    if bytes.len() == 0 {
    } else if bytes.len() == 1 {
        let b0 = bytes[0] as int;
        lemma_base64_group(b0, 0, 0);
        lemma_base64_symbol(b0 / 4);
        lemma_base64_symbol((b0 % 4) * 16);
        assert(base64_decode(e) =~= bytes);
        assert(!e.contains('"')) by {
            if e.contains('"') {
                let k = choose|k: int| 0 <= k < e.len() && e[k] == '"';
                assert(k == 0 || k == 1 || k == 2 || k == 3);
            }
        }
    } else if bytes.len() == 2 {
        let b0 = bytes[0] as int;
        let b1 = bytes[1] as int;
        lemma_base64_group(b0, b1, 0);
        lemma_base64_symbol(b0 / 4);
        lemma_base64_symbol((b0 % 4) * 16 + b1 / 16);
        lemma_base64_symbol((b1 % 16) * 4);
        assert(base64_decode(e) =~= bytes);
        assert(!e.contains('"')) by {
            if e.contains('"') {
                let k = choose|k: int| 0 <= k < e.len() && e[k] == '"';
                assert(k == 0 || k == 1 || k == 2 || k == 3);
            }
        }
    } else {
        let b0 = bytes[0] as int;
        let b1 = bytes[1] as int;
        let b2 = bytes[2] as int;
        let rest = bytes.skip(3);
        lemma_base64_round_trip(rest);
        lemma_base64_group(b0, b1, b2);
        lemma_base64_symbol(b0 / 4);
        lemma_base64_symbol((b0 % 4) * 16 + b1 / 16);
        lemma_base64_symbol((b1 % 16) * 4 + b2 / 64);
        lemma_base64_symbol(b2 % 64);
        let head = seq![
            base64_symbol(b0 / 4),
            base64_symbol((b0 % 4) * 16 + b1 / 16),
            base64_symbol((b1 % 16) * 4 + b2 / 64),
            base64_symbol(b2 % 64),
        ];
        assert(e == head + base64_standard(rest));
        assert(e.skip(4) =~= base64_standard(rest));
        assert(base64_decode(e) =~= seq![bytes[0], bytes[1], bytes[2]] + rest);
        assert(seq![bytes[0], bytes[1], bytes[2]] + rest =~= bytes);
        assert(base64_len(bytes.len()) == base64_len(rest.len()) + 4) by {
            assert((bytes.len() + 2) / 3 == (rest.len() + 2) / 3 + 1);
        }
        assert(!e.contains('"')) by {
            if e.contains('"') {
                let k = choose|k: int| 0 <= k < e.len() && e[k] == '"';
                if k >= 4 {
                    assert(base64_standard(rest)[k - 4] == '"');
                } else {
                    assert(k == 0 || k == 1 || k == 2 || k == 3);
                }
            }
        }
    }
}

/// The length of the standard Base64 encoding of `n` bytes.
pub open spec fn base64_len(n: nat) -> nat {
    ((n + 2) / 3) * 4
}

/// `base64::engine::general_purpose::STANDARD.encode`: the standard alphabet
/// with padding. The crate panics when the encoded length overflows `usize`.
#[verifier::external_body]
fn base64_encode(bytes: &[u8]) -> (res: String)
    requires
        base64_len(bytes@.len()) <= usize::MAX,
    ensures
        res@ == base64_standard(bytes@),
{
    base64::engine::general_purpose::STANDARD.encode(bytes)
}

pub const SCRIPT_PREFIX: &'static str =
    "\nimport base64\nimport json\nimport pathlib\nimport sys\n\npayload = json.loads(base64.b64decode(\"";

pub const SCRIPT_AFTER_PAYLOAD: &'static str = "\").decode(\"utf-8\"))\n\n";

/// Python helpers that every remote program can call: failure reporting,
/// text normalisation, SQLite access, and resolution of remote paths, the
/// Hermes home and the Hermes binary.
pub const SHARED_HELPERS: &'static str = r#"
import os
import shutil
import sqlite3

def fail(message):
    print(json.dumps({
        "ok": False,
        "error": message,
    }, ensure_ascii=False))
    sys.exit(1)

def stringify(value):
    if value is None:
        return None
    if isinstance(value, bytes):
        return value.decode("utf-8", errors="replace")
    return str(value)

def normalize_text(value):
    text = stringify(value)
    if text is None:
        return None
    text = text.strip()
    return text or None

def choose_table(tables, needle):
    lowered = needle.lower()
    for name in tables:
        if name.lower() == lowered:
            return name
    for name in tables:
        if lowered in name.lower():
            return name
    return None

def choose_column(columns, choices):
    lowered = {column.lower(): column for column in columns}
    for choice in choices:
        if choice.lower() in lowered:
            return lowered[choice.lower()]
    for choice in choices:
        for column in columns:
            if choice.lower() in column.lower():
                return column
    return None

def quote_ident(value):
    return '"' + str(value).replace('"', '""') + '"'

def quote_text(value):
    return "'" + str(value).replace("'", "''") + "'"

def connect_sqlite_readonly(path):
    connection = None
    try:
        connection = sqlite3.connect(f"file:{path}?mode=ro", uri=True)
        connection.execute("PRAGMA schema_version").fetchone()
        return connection
    except sqlite3.OperationalError as exc:
        if connection is not None:
            try:
                connection.close()
            except Exception:
                pass
        message = str(exc).lower()
        if "unable to open database file" not in message and "readonly database" not in message:
            raise
        return sqlite3.connect(f"file:{path}?mode=ro&immutable=1", uri=True)

def expand_remote_path(value, home=None, base_dir=None):
    if home is None:
        home = pathlib.Path.home()

    normalized = normalize_text(value)
    if normalized is None:
        return None
    expanded = os.path.expandvars(normalized)
    try:
        path = pathlib.Path(expanded).expanduser()
    except Exception:
        path = pathlib.Path(expanded)

    if not path.is_absolute():
        if expanded == "~":
            return home
        if expanded.startswith("~/"):
            return home / expanded[2:]
        if base_dir is not None:
            return base_dir / path
    return path

def resolved_hermes_home(request=None):
    request_data = payload if request is None else request
    home = pathlib.Path.home()
    expanded = expand_remote_path(request_data.get("hermes_home"), home)
    if expanded is not None:
        return expanded
    env_home = expand_remote_path(os.environ.get("HERMES_HOME"), home)
    if env_home is not None:
        return env_home
    return home / ".hermes"

def hermes_search_path(request=None):
    home = pathlib.Path.home()
    hermes_home = resolved_hermes_home(request)
    candidates = [
        hermes_home / "hermes-agent" / "venv" / "bin",
        home / ".local" / "bin",
        home / ".hermes" / "hermes-agent" / "venv" / "bin",
        home / ".cargo" / "bin",
        pathlib.Path("/opt/homebrew/bin"),
        pathlib.Path("/usr/local/bin"),
    ]

    entries = []
    seen = set()
    for candidate in candidates:
        try:
            entry = str(candidate)
        except Exception:
            continue
        if not entry or entry in seen:
            continue
        seen.add(entry)
        entries.append(entry)

    env_path = os.environ.get("PATH", "")
    if env_path:
        entries.append(env_path)
    return os.pathsep.join(entries)

def find_hermes_binary(request=None):
    candidate = shutil.which("hermes", path=hermes_search_path(request))
    if candidate:
        return candidate
    return None

def tilde(path, home=None):
    if home is None:
        home = pathlib.Path.home()
    try:
        relative = path.relative_to(home)
        return "~/" + relative.as_posix() if relative.as_posix() != "." else "~"
    except ValueError:
        return path.as_posix()

def iter_session_store_candidates(hermes_home, home=None, hinted_path=None):
    if home is None:
        home = pathlib.Path.home()

    seen = set()

    def emit(candidate):
        if candidate is None:
            return None
        resolved = str(candidate)
        if resolved in seen or not candidate.is_file():
            return None
        seen.add(resolved)
        return candidate

    hinted_candidate = emit(expand_remote_path(hinted_path, home))
    if hinted_candidate is not None:
        yield hinted_candidate

    preferred = [
        hermes_home / "state.db",
        hermes_home / "state.sqlite",
        hermes_home / "state.sqlite3",
        hermes_home / "store.db",
        hermes_home / "store.sqlite",
        hermes_home / "store.sqlite3",
    ]

    for candidate in preferred:
        candidate = emit(candidate)
        if candidate is not None:
            yield candidate

    for candidate in sorted(
        [
            item
            for pattern in ("*.db", "*.sqlite", "*.sqlite3")
            for item in hermes_home.glob(pattern)
            if item.is_file()
        ],
        key=lambda item: item.stat().st_mtime,
        reverse=True,
    ):
        candidate = emit(candidate)
        if candidate is not None:
            yield candidate

    sessions_dir = hermes_home / "sessions"
    if sessions_dir.exists():
        for candidate in sorted(
            [
                item
                for pattern in ("*.db", "*.sqlite", "*.sqlite3")
                for item in sessions_dir.rglob(pattern)
                if item.is_file()
            ],
            key=lambda item: item.stat().st_mtime,
            reverse=True,
        ):
            candidate = emit(candidate)
            if candidate is not None:
                yield candidate
"#;

/// The remote program for a request whose JSON encoding is `payload_json`
/// and whose own code is `body`.
pub open spec fn spec_wrap_payload(payload_json: Seq<u8>, body: Seq<char>) -> Seq<char> {
    SCRIPT_PREFIX@ + base64_standard(payload_json) + SCRIPT_AFTER_PAYLOAD@ + SHARED_HELPERS@
        + "\n\n"@ + body + "\n"@
}

/// Frames `body` as a Python program that first decodes its request
/// (`payload_json`, the JSON encoding of the request, embedded in Base64)
/// into `payload`, then defines the shared helpers.
pub fn wrap_payload(payload_json: &[u8], body: &str) -> (res: String)
    requires
        base64_len(payload_json@.len()) <= usize::MAX,
    ensures
        res@ == spec_wrap_payload(payload_json@, body@),
{
    let encoded = base64_encode(payload_json);
    let mut out = chars_of(SCRIPT_PREFIX);
    append_str(&mut out, encoded.as_str());
    append_str(&mut out, SCRIPT_AFTER_PAYLOAD);
    append_str(&mut out, SHARED_HELPERS);
    append_str(&mut out, "\n\n");
    append_str(&mut out, body);
    append_str(&mut out, "\n");
    string_of(&out)
}

/// The program that frames a request starts with [`SCRIPT_PREFIX`]; the
/// Base64 text that follows, up to the closing `'"'` of its string literal,
/// decodes to exactly the request's JSON; then come
/// [`SCRIPT_AFTER_PAYLOAD`], the shared helpers, and the body with a final
/// line feed.
pub proof fn lemma_wrap_payload_round_trip(payload_json: Seq<u8>, body: Seq<char>)
    ensures
        ({
            let script = spec_wrap_payload(payload_json, body);
            let start = SCRIPT_PREFIX@.len() as int;
            let end = start + base64_len(payload_json.len());
            let encoded = script.subrange(start, end);
            &&& end <= script.len()
            &&& script.take(start) == SCRIPT_PREFIX@
            &&& base64_decode(encoded) == payload_json
            &&& !encoded.contains('"')
            &&& script.skip(end).take(SCRIPT_AFTER_PAYLOAD@.len() as int) == SCRIPT_AFTER_PAYLOAD@
            &&& script.skip(script.len() - body.len() - 1) == body + "\n"@
        }),
{
    lemma_base64_round_trip(payload_json);
    let e = base64_standard(payload_json);
    let script = spec_wrap_payload(payload_json, body);
    let start = SCRIPT_PREFIX@.len() as int;
    let end = start + base64_len(payload_json.len());
    let tail = SCRIPT_AFTER_PAYLOAD@ + SHARED_HELPERS@ + "\n\n"@ + body + "\n"@;
    assert(script =~= SCRIPT_PREFIX@ + e + tail);
    assert(script.take(start) =~= SCRIPT_PREFIX@);
    assert(script.subrange(start, end) =~= e);
    assert(script.skip(end) =~= tail);
    assert(tail.take(SCRIPT_AFTER_PAYLOAD@.len() as int) =~= SCRIPT_AFTER_PAYLOAD@);
    reveal_strlit("\n");
    assert(script.skip(script.len() - body.len() - 1) =~= body + "\n"@);
}

} // verus!
