//! The skill inventory: parsing the table that `hermes skills list` prints,
//! choosing which skills can be launched, and the remote programs that read
//! and write skills.

use vstd::prelude::*;

use crate::error::HermesError;
use crate::sort::{
    distinct_by, lemma_sort_contains, lemma_sort_distinct, lemma_sort_members, lemma_sort_sorted,
    seconds, sort_by_key, sort_by_view_key, sorted_by, view_seq, KeyView, SortKey,
};
use crate::ssh::{opt_view, SshCommandResult};
use crate::text::{
    append_str, chars_eq, chars_of, lines, lines_of, split_chars, split_on, str_eq, string_of,
    to_lowercase, trim, trim_chars, trimmed, unicode_lowercase, TrimSet,
};

verus! {

/// A skill that `hermes skills list --enabled-only` reports as enabled.
#[derive(Debug)]
pub struct LaunchableSkillRecord {
    pub name: String,
    pub category: Option<String>,
}

/// The view of a [`LaunchableSkillRecord`].
pub struct RecordView {
    pub name: Seq<char>,
    pub category: Option<Seq<char>>,
}

impl View for LaunchableSkillRecord {
    type V = RecordView;

    open spec fn view(&self) -> RecordView {
        RecordView { name: self.name@, category: opt_view(self.category) }
    }
}

/// The column separator of the table (U+2502, box drawings light vertical).
pub const COLUMN_SEPARATOR: char = '\u{2502}';

/// The `k`-th column of a table row split at its separators.
pub open spec fn column(pieces: Seq<Seq<char>>, k: int) -> Seq<char> {
    trimmed(pieces[k + 1])
}

/// The record of a table row: a trimmed line that starts and ends with the
/// separator and has at least five columns, whose first column (the name) is
/// neither empty nor the header `Name` and whose fifth column is `enabled`.
/// The second column, when not empty, is the category.
pub open spec fn spec_parse_record(raw_line: Seq<char>) -> Option<RecordView> {
    let line = trimmed(raw_line);
    if line.len() == 0 || line[0] != COLUMN_SEPARATOR || line.last() != COLUMN_SEPARATOR {
        None
    } else {
        let pieces = split_on(line, COLUMN_SEPARATOR);
        if pieces.len() < 6 {
            None
        } else if column(pieces, 0) == "Name"@ || column(pieces, 4) != "enabled"@ || column(
            pieces,
            0,
        ).len() == 0 {
            None
        } else {
            Some(
                RecordView {
                    name: column(pieces, 0),
                    category: if column(pieces, 1).len() > 0 {
                        Some(column(pieces, 1))
                    } else {
                        None
                    },
                },
            )
        }
    }
}

/// The records of the rows among `ls`, in order.
pub open spec fn records_of_lines(ls: Seq<Seq<char>>) -> Seq<RecordView>
    decreases ls.len(),
{
    if ls.len() == 0 {
        Seq::<RecordView>::empty()
    } else {
        let rest = records_of_lines(ls.drop_last());
        match spec_parse_record(ls.last()) {
            Some(r) => rest.push(r),
            None => rest,
        }
    }
}

/// The identifier under which Hermes launches a skill: `category/name`, or
/// the name alone without a category.
pub open spec fn spec_launch_identifier(r: RecordView) -> Seq<char> {
    match r.category {
        Some(c) => if trimmed(c).len() > 0 {
            c + seq!['/'] + r.name
        } else {
            r.name
        },
        None => r.name,
    }
}

/// A launchable record always has a name, and the table header is never
/// taken for a record.
pub proof fn lemma_records_are_named(raw_line: Seq<char>)
    ensures
        spec_parse_record(raw_line) matches Some(r) ==> r.name.len() > 0 && r.name != "Name"@,
{
}

fn column_text(pieces: &Vec<Vec<char>>, k: usize) -> (res: Vec<char>)
    requires
        k <= 4,
        k + 1 < pieces@.len(),
    ensures
        res@ == trimmed(pieces@[k as int + 1]@),
{
    trim_chars(&pieces[k + 1], &TrimSet::Whitespace)
}

/// Parses one line of the skills table into a launchable record.
pub fn parse_launchable_record(raw_line: &str) -> (res: Option<LaunchableSkillRecord>)
    ensures
        match spec_parse_record(raw_line@) {
            Some(r) => res matches Some(x) && x@ == r,
            None => res is None,
        },
{
    let raw = chars_of(raw_line);
    let line = trim_chars(&raw, &TrimSet::Whitespace);
    if line.len() == 0 || line[0] != COLUMN_SEPARATOR || line[line.len() - 1] != COLUMN_SEPARATOR {
        return None;
    }
    let pieces = split_chars(&line, COLUMN_SEPARATOR);
    let ghost ps = split_on(line@, COLUMN_SEPARATOR);
    if pieces.len() < 6 {
        return None;
    }
    let name = column_text(&pieces, 0);
    let category = column_text(&pieces, 1);
    let status = column_text(&pieces, 4);
    let header = chars_of("Name");
    let enabled = chars_of("enabled");
    if chars_eq(&name, &header) || !chars_eq(&status, &enabled) || name.len() == 0 {
        return None;
    }
    let category_text = if category.len() > 0 {
        Some(string_of(&category))
    } else {
        None
    };
    Some(LaunchableSkillRecord { name: string_of(&name), category: category_text })
}

/// The launchable records among the lines of `output`, in order.
pub fn parse_launchable_skill_records(output: &str) -> (res: Vec<LaunchableSkillRecord>)
    ensures
        view_seq(res@) == records_of_lines(lines_of(output@)),
{
    let all = lines(output);
    let ghost ls = lines_of(output@);
    let mut out: Vec<LaunchableSkillRecord> = Vec::new();
    let mut i: usize = 0;
    while i < all.len()
        invariant
            i <= all@.len(),
            all@.len() == ls.len(),
            forall|k: int| 0 <= k < all@.len() ==> #[trigger] all@[k]@ == ls[k],
            view_seq(out@) == records_of_lines(ls.take(i as int)),
        decreases all.len() - i,
    {
        let text = string_of(&all[i]);
        let parsed = parse_launchable_record(text.as_str());
        let ghost before = view_seq(out@);
        proof {
            let q = ls.take(i + 1);
            assert(q.drop_last() =~= ls.take(i as int));
            assert(q.last() == ls[i as int]);
        }
        match parsed {
            Some(r) => {
                out.push(r);
                assert(view_seq(out@) =~= before.push(out@.last()@));
            },
            None => {},
        }
        i = i + 1;
    }
    assert(ls.take(all@.len() as int) =~= ls);
    out
}

impl LaunchableSkillRecord {
    /// `category/name` when the record has a non-blank category, else the
    /// name.
    pub fn launch_identifier(self) -> (res: String)
        ensures
            res@ == spec_launch_identifier(self@),
    {
        match self.category {
            Some(category) => {
                let t = trim(category.as_str());
                if t.as_str().is_empty() {
                    self.name
                } else {
                    let mut v = chars_of(category.as_str());
                    v.push('/');
                    append_str(&mut v, self.name.as_str());
                    string_of(&v)
                }
            },
            None => self.name,
        }
    }
}

/// The shell command that lists the enabled skills with the remote Hermes
/// CLI (exit status 127 when the CLI is missing).
pub const LAUNCHABLE_SKILLS_COMMAND: &'static str = r#"if command -v hermes >/dev/null 2>&1; then HERMES_BIN="$(command -v hermes)"; else printf 'Hermes CLI not found.\n' >&2; exit 127; fi; COLUMNS=240 "$HERMES_BIN" skills list --enabled-only"#;

pub const INVENTORY_FAILED: &'static str = "Unable to load launchable skill inventory.";

/// The records of a finished skills listing: parsed from its standard output
/// when it exited with status 0; otherwise a remote error with its trimmed
/// standard error, else its trimmed standard output, else a generic message.
pub fn launchable_records_from_result(result: &SshCommandResult) -> (res: Result<
    Vec<LaunchableSkillRecord>,
    HermesError,
>)
    ensures
        result.exit_code == 0 <==> res is Ok,
        res matches Ok(records) ==> view_seq(records@) == records_of_lines(
            lines_of(result.stdout@),
        ),
        res matches Err(e) ==> e matches HermesError::Remote(m) && m@ == (if trimmed(
            result.stderr@,
        ).len() > 0 {
            trimmed(result.stderr@)
        } else if trimmed(result.stdout@).len() > 0 {
            trimmed(result.stdout@)
        } else {
            INVENTORY_FAILED@
        }),
{
    if result.exit_code != 0 {
        let stderr = trim(result.stderr.as_str());
        if !stderr.as_str().is_empty() {
            return Err(HermesError::Remote(stderr));
        }
        let stdout = trim(result.stdout.as_str());
        if !stdout.as_str().is_empty() {
            return Err(HermesError::Remote(stdout));
        }
        return Err(HermesError::Remote(INVENTORY_FAILED.to_owned()));
    }
    Ok(parse_launchable_skill_records(result.stdout.as_str()))
}

/// What the skill listing reads of a skill: its slug and its path.
#[derive(Debug)]
pub struct SkillSummaryKey {
    pub slug: String,
    pub relative_path: String,
}

/// The view of a [`SkillSummaryKey`].
pub struct SkillSummaryKeyView {
    pub slug: Seq<char>,
    pub relative_path: Seq<char>,
}

impl View for SkillSummaryKey {
    type V = SkillSummaryKeyView;

    open spec fn view(&self) -> SkillSummaryKeyView {
        SkillSummaryKeyView { slug: self.slug@, relative_path: self.relative_path@ }
    }
}

/// The positions of the skills whose path is the launch identifier of a
/// record, in order.
pub open spec fn launchable_positions(
    skills: Seq<SkillSummaryKeyView>,
    allowed: Seq<Seq<char>>,
    n: int,
) -> Seq<usize>
    decreases n,
{
    if n <= 0 {
        Seq::<usize>::empty()
    } else {
        let rest = launchable_positions(skills, allowed, n - 1);
        if allowed.contains(skills[n - 1].relative_path) {
            rest.push((n - 1) as usize)
        } else {
            rest
        }
    }
}

/// Skills are listed by lower-cased slug, then lower-cased path.
pub open spec fn skill_position_key(skills: Seq<SkillSummaryKeyView>) -> spec_fn(usize) -> KeyView {
    |i: usize|
        (
            unicode_lowercase(skills[i as int].slug),
            unicode_lowercase(skills[i as int].relative_path),
            0u128,
        )
}

/// The launch identifiers of the records.
pub open spec fn identifiers(records: Seq<RecordView>) -> Seq<Seq<char>> {
    records.map_values(|r: RecordView| spec_launch_identifier(r))
}

fn has_text(texts: &Vec<String>, t: &str) -> (res: bool)
    ensures
        res == texts@.map_values(|s: String| s@).contains(t@),
{
    let ghost tv = texts@.map_values(|s: String| s@);
    let mut i: usize = 0;
    while i < texts.len()
        invariant
            i <= texts@.len(),
            tv == texts@.map_values(|s: String| s@),
            forall|k: int| 0 <= k < i ==> tv[k] != t@,
        decreases texts.len() - i,
    {
        if str_eq(texts[i].as_str(), t) {
            assert(tv[i as int] == t@);
            return true;
        }
        i = i + 1;
    }
    false
}

/// Which skills of a listing can be launched, and in which order: the
/// positions of the skills whose path is the launch identifier of one of the
/// enabled `records`, sorted by slug then path, case-insensitively, stably.
pub fn launchable_skill_order(skills: &Vec<SkillSummaryKey>, records: Vec<LaunchableSkillRecord>) -> (res:
    Vec<usize>)
    ensures
        res@ == sort_by_key(
            launchable_positions(
                view_seq(skills@),
                identifiers(view_seq(records@)),
                skills@.len() as int,
            ),
            skill_position_key(view_seq(skills@)),
        ),
{
    let ghost rv = view_seq(records@);
    let mut allowed: Vec<String> = Vec::new();
    let mut pending = records;
    let total = pending.len();
    let ghost all = pending@;
    let mut count: usize = 0;
    while pending.len() > 0
        invariant
            count + pending@.len() == all.len(),
            all.len() == total,
            pending@ == all.skip(count as int),
            rv == view_seq(all),
            allowed@.map_values(|s: String| s@) == identifiers(rv.take(count as int)),
        decreases pending@.len(),
    {
        let r = pending.remove(0);
        let ghost before = allowed@;
        assert(r@ == rv[count as int]);
        allowed.push(r.launch_identifier());
        assert(rv.take(count + 1) =~= rv.take(count as int).push(rv[count as int]));
        assert(identifiers(rv.take(count + 1)) =~= identifiers(rv.take(count as int)).push(
            spec_launch_identifier(rv[count as int]),
        ));
        assert(allowed@.map_values(|s: String| s@) =~= before.map_values(|s: String| s@).push(
            spec_launch_identifier(rv[count as int]),
        ));
        count = count + 1;
        assert(pending@ =~= all.skip(count as int));
    }
    assert(rv.take(count as int) =~= rv);
    let ghost sv = view_seq(skills@);
    let ghost ids = identifiers(rv);
    let ghost key = skill_position_key(sv);
    let mut pairs: Vec<(SortKey, usize)> = Vec::new();
    let mut i: usize = 0;
    while i < skills.len()
        invariant
            i <= skills@.len(),
            sv == view_seq(skills@),
            allowed@.map_values(|s: String| s@) == ids,
            key == skill_position_key(sv),
            view_seq(seconds(pairs@)) == launchable_positions(sv, ids, i as int),
            forall|k: int| 0 <= k < pairs@.len() ==> (#[trigger] pairs@[k]).0@ == key(pairs@[k].1@),
        decreases skills.len() - i,
    {
        let ghost before = pairs@;
        if has_text(&allowed, skills[i].relative_path.as_str()) {
            let slug = to_lowercase(skills[i].slug.as_str());
            let path = to_lowercase(skills[i].relative_path.as_str());
            let k = SortKey {
                primary: chars_of(slug.as_str()),
                secondary: chars_of(path.as_str()),
                tiebreak: 0,
            };
            pairs.push((k, i));
            assert(view_seq(seconds(pairs@)) =~= view_seq(seconds(before)).push(i));
        }
        i = i + 1;
    }
    let res = sort_by_view_key(pairs, Ghost(key));
    assert(view_seq(res@) =~= res@);
    assert(view_seq(seconds(pairs@)) =~= seconds(pairs@));
    res
}

proof fn lemma_launchable_positions(skills: Seq<SkillSummaryKeyView>, allowed: Seq<Seq<char>>, n: int)
    requires
        n <= skills.len(),
        skills.len() <= usize::MAX,
    ensures
        ({
            let p = launchable_positions(skills, allowed, n);
            &&& forall|k: int|
                0 <= k < p.len() ==> (#[trigger] p[k]) < n && allowed.contains(
                    skills[p[k] as int].relative_path,
                )
            &&& forall|i: int, j: int| 0 <= i < j < p.len() ==> p[i] < p[j]
            &&& forall|i: int|
                0 <= i < n && allowed.contains(#[trigger] skills[i].relative_path) ==> p.contains(
                    i as usize,
                )
        }),
    decreases n,
{
    if n > 0 {
        lemma_launchable_positions(skills, allowed, n - 1);
        let rest = launchable_positions(skills, allowed, n - 1);
        let p = launchable_positions(skills, allowed, n);
        if allowed.contains(skills[n - 1].relative_path) {
            assert forall|i: int|
                0 <= i < n && allowed.contains(#[trigger] skills[i].relative_path) implies p.contains(
                i as usize,
            ) by {
                if i == n - 1 {
                    assert(p[p.len() - 1] == (n - 1) as usize);
                } else {
                    let k = choose|k: int| 0 <= k < rest.len() && rest[k] == i as usize;
                    assert(p[k] == rest[k]);
                }
            }
            assert forall|k: int| 0 <= k < p.len() implies (#[trigger] p[k]) < n && allowed.contains(
                skills[p[k] as int].relative_path,
            ) by {
                if k < rest.len() {
                    assert(p[k] == rest[k]);
                }
            }
            assert forall|i: int, j: int| 0 <= i < j < p.len() implies p[i] < p[j] by {
                if j < rest.len() {
                    assert(p[i] == rest[i] && p[j] == rest[j]);
                } else {
                    assert(p[i] == rest[i]);
                }
            }
        }
    }
}

pub open spec fn position_fn() -> spec_fn(usize) -> int {
    |i: usize| i as int
}

/// The launchable order lists each launchable skill exactly once, no other
/// skill, ordered by slug then path.
pub proof fn lemma_launchable_order_law(skills: Seq<SkillSummaryKeyView>, allowed: Seq<Seq<char>>)
    requires
        skills.len() <= usize::MAX,
    ensures
        ({
            let r = sort_by_key(
                launchable_positions(skills, allowed, skills.len() as int),
                skill_position_key(skills),
            );
            &&& sorted_by(r, skill_position_key(skills))
            &&& forall|k: int|
                0 <= k < r.len() ==> (#[trigger] r[k]) < skills.len() && allowed.contains(
                    skills[r[k] as int].relative_path,
                )
            &&& forall|i: int, j: int| 0 <= i < j < r.len() ==> r[i] != r[j]
            &&& forall|i: int|
                0 <= i < skills.len() && allowed.contains(#[trigger] skills[i].relative_path)
                    ==> r.contains(i as usize)
        }),
{
    let p = launchable_positions(skills, allowed, skills.len() as int);
    let key = skill_position_key(skills);
    let r = sort_by_key(p, key);
    lemma_launchable_positions(skills, allowed, skills.len() as int);
    lemma_sort_sorted(p, key);
    lemma_sort_members(p, key);
    lemma_sort_contains(p, key);
    assert(distinct_by(p, position_fn())) by {
        assert forall|i: int, j: int| 0 <= i < j < p.len() implies (position_fn())(p[i]) != (
        position_fn())(p[j]) by {
            assert(p[i] < p[j]);
        }
    }
    lemma_sort_distinct(p, key, position_fn());
    assert forall|i: int, j: int| 0 <= i < j < r.len() implies r[i] != r[j] by {
        assert((position_fn())(r[i]) != (position_fn())(r[j]));
    }
    assert forall|k: int| 0 <= k < r.len() implies (#[trigger] r[k]) < skills.len()
        && allowed.contains(skills[r[k] as int].relative_path) by {
        let m = choose|m: int| 0 <= m < p.len() && p[m] == r[k];
    }
}

/// A skill program: the shared skill helpers, then `body`.
pub fn skill_body(body: &str) -> (res: String)
    ensures
        res@ == SHARED_SKILL_HELPERS@ + seq!['\n'] + body@,
{
    let mut v = chars_of(SHARED_SKILL_HELPERS);
    v.push('\n');
    append_str(&mut v, body);
    string_of(&v)
}

/// Lists the skills of every configured source.
pub const SKILL_LIST_BODY: &'static str = r#"
try:
    items = discover_skill_items()
    print(json.dumps({
        "ok": True,
        "items": items,
    }, ensure_ascii=False))
except Exception as exc:
    fail(f"Unable to read the remote Hermes skill library: {exc}")
"#;

/// Reads one skill with its Markdown and content hash.
pub const SKILL_DETAIL_BODY: &'static str = r#"
try:
    item = build_skill_detail(payload.get("source_id"), payload["relative_path"])
    print(json.dumps({
        "ok": True,
        "item": item,
    }, ensure_ascii=False))
except Exception as exc:
    fail(f"Unable to read the remote Hermes skill detail: {exc}")
"#;

/// Creates or updates a skill, refusing to overwrite a skill that changed since it was read.
pub const SKILL_WRITE_BODY: &'static str = r#"
import tempfile

def write_atomic_utf8(target, content):
    temp_name = None
    directory_fd = None
    content_bytes = content.encode("utf-8")

    try:
        target.parent.mkdir(parents=True, exist_ok=True)
        fd, temp_name = tempfile.mkstemp(
            dir=str(target.parent),
            prefix=f".{target.name}.",
            suffix=".tmp",
        )

        with os.fdopen(fd, "wb") as handle:
            handle.write(content_bytes)
            handle.flush()
            os.fsync(handle.fileno())

        if target.exists():
            os.chmod(temp_name, target.stat().st_mode)

        os.replace(temp_name, target)
        directory_fd = os.open(target.parent, os.O_RDONLY)
        os.fsync(directory_fd)
    finally:
        if directory_fd is not None:
            os.close(directory_fd)
        if temp_name and os.path.exists(temp_name):
            os.unlink(temp_name)

    return hashlib.sha256(content_bytes).hexdigest()

try:
    relative_path = normalize_text(payload.get("relative_path"))
    if relative_path is None:
        fail("The skill path is required.")

    markdown_content = payload.get("markdown_content")
    if not isinstance(markdown_content, str) or not markdown_content.strip():
        fail("SKILL.md content is required.")

    root = local_skills_root()
    root.mkdir(parents=True, exist_ok=True)

    requested_source_id = normalize_text(payload.get("source_id"))
    if requested_source_id is not None:
        source = resolve_skill_source(requested_source_id)
        if source["is_read_only"]:
            fail("External skill directories are read-only in Hermes. Create a local skill with the same path to override it.")

    skill_file, _ = resolve_skill_file("local", relative_path)
    skill_dir = skill_file.parent
    expected_hash = normalize_text(payload.get("expected_content_hash"))

    if expected_hash is None:
        if skill_file.exists():
            fail(f"A skill already exists at {relative_path}.")
    else:
        if not skill_file.exists():
            fail(f"{relative_path} no longer exists. Reload the skill list and try again.")
        if not skill_file.is_file():
            fail(f"{relative_path} does not resolve to a writable SKILL.md file.")

        current_hash = hashlib.sha256(skill_file.read_bytes()).hexdigest()
        if current_hash != expected_hash:
            fail(f"{relative_path} changed on the active host after it was loaded. Reload the skill before saving.")

    if payload.get("create_references_folder"):
        (skill_dir / "references").mkdir(parents=True, exist_ok=True)
    if payload.get("create_scripts_folder"):
        (skill_dir / "scripts").mkdir(parents=True, exist_ok=True)
    if payload.get("create_templates_folder"):
        (skill_dir / "templates").mkdir(parents=True, exist_ok=True)

    write_atomic_utf8(skill_file, markdown_content)
    item = build_skill_detail("local", relative_path)

    print(json.dumps({
        "ok": True,
        "item": item,
    }, ensure_ascii=False))
except Exception as exc:
    fail(f"Unable to save the remote Hermes skill: {exc}")
"#;

/// Python helpers of the skill programs: skill sources, front matter and summaries.
pub const SHARED_SKILL_HELPERS: &'static str = r##"
import ast
import hashlib
import json
import os
import re

def local_skills_root():
    return resolved_hermes_home() / "skills"

def hermes_config_path():
    return resolved_hermes_home() / "config.yaml"

def normalize_text_list(value):
    if value is None:
        return []
    if isinstance(value, (list, tuple, set)):
        result = []
        for item in value:
            normalized = normalize_text(item)
            if normalized is not None:
                result.append(normalized)
        return result

    normalized = normalize_text(value)
    return [normalized] if normalized is not None else []

def compact_text(value):
    normalized = normalize_text(value)
    if normalized is None:
        return None
    return re.sub(r"\s+", " ", normalized)

def parse_scalar(value):
    stripped = str(value).strip()
    if not stripped or stripped in {"null", "Null", "NULL", "~"}:
        return None
    if (stripped.startswith("'") and stripped.endswith("'")) or (
        stripped.startswith('"') and stripped.endswith('"')
    ):
        try:
            return normalize_text(ast.literal_eval(stripped))
        except Exception:
            return normalize_text(stripped[1:-1])
    return normalize_text(stripped)

def parse_inline_list(value):
    stripped = str(value).strip()
    if not stripped.startswith("[") or not stripped.endswith("]"):
        return None
    try:
        parsed = ast.literal_eval(stripped)
        if isinstance(parsed, list):
            return normalize_text_list(parsed)
    except Exception:
        pass
    inner = stripped[1:-1].strip()
    if not inner:
        return []
    return [item.strip().strip("'\"") for item in inner.split(",") if item.strip()]

def extract_frontmatter(content):
    lines = content.splitlines()
    if not lines or lines[0].strip() != "---":
        return None
    for index in range(1, len(lines)):
        if lines[index].strip() == "---":
            return "\n".join(lines[1:index])
    return None

def fallback_frontmatter_dict(frontmatter_text):
    data = {}
    metadata = {}
    lines = frontmatter_text.splitlines()
    current_parent = None

    for raw_line in lines:
        if not raw_line.strip() or raw_line.lstrip().startswith("#"):
            continue
        indent = len(raw_line) - len(raw_line.lstrip(" "))
        stripped = raw_line.strip()
        if indent == 0 and ":" in stripped:
            key, raw_value = stripped.split(":", 1)
            current_parent = key.strip()
            value = raw_value.strip()
            if not value:
                continue
            inline_list = parse_inline_list(value)
            data[current_parent] = inline_list if inline_list is not None else parse_scalar(value)
        elif current_parent == "metadata" and indent > 0 and ":" in stripped:
            key, raw_value = stripped.split(":", 1)
            value = raw_value.strip()
            inline_list = parse_inline_list(value)
            metadata[key.strip()] = inline_list if inline_list is not None else parse_scalar(value)

    if metadata:
        data["metadata"] = metadata
    return data

def parse_frontmatter(content):
    frontmatter_text = extract_frontmatter(content)
    if frontmatter_text is None:
        return {
            "name": None,
            "description": None,
            "version": None,
            "platforms": [],
            "tags": [],
            "related_skills": [],
        }

    data = None
    try:
        import yaml
        loaded = yaml.safe_load(frontmatter_text)
        if isinstance(loaded, dict):
            data = loaded
    except Exception:
        data = None

    if not isinstance(data, dict):
        data = fallback_frontmatter_dict(frontmatter_text)

    metadata = data.get("metadata")
    if not isinstance(metadata, dict):
        metadata = {}

    hermes_metadata = metadata.get("hermes")
    if not isinstance(hermes_metadata, dict):
        hermes_metadata = {}

    tags = metadata.get("tags")
    if tags is None:
        tags = hermes_metadata.get("tags")

    related_skills = metadata.get("related_skills")
    if related_skills is None:
        related_skills = hermes_metadata.get("related_skills")

    platforms = data.get("platforms")
    if platforms is None:
        platforms = metadata.get("platforms")
    if platforms is None:
        platforms = hermes_metadata.get("platforms")

    return {
        "name": normalize_text(data.get("name")),
        "description": compact_text(data.get("description")),
        "version": normalize_text(data.get("version")),
        "platforms": normalize_text_list(platforms),
        "tags": normalize_text_list(tags),
        "related_skills": normalize_text_list(related_skills),
    }

def fallback_external_dirs(config_text):
    lines = config_text.splitlines()
    external_dirs = []
    in_skills = False
    in_external_dirs = False

    for raw_line in lines:
        stripped = raw_line.strip()
        if not stripped or stripped.startswith("#"):
            continue
        indent = len(raw_line) - len(raw_line.lstrip(" "))
        if indent == 0:
            in_skills = stripped.startswith("skills:")
            in_external_dirs = False
            continue
        if not in_skills:
            continue
        if stripped.startswith("external_dirs:"):
            value = stripped.split(":", 1)[1].strip()
            inline = parse_inline_list(value)
            if inline is not None:
                external_dirs.extend(inline)
            elif value:
                external_dirs.extend(normalize_text_list(value))
            in_external_dirs = True
            continue
        if in_external_dirs and stripped.startswith("- "):
            value = parse_scalar(stripped[2:])
            if value:
                external_dirs.append(value)

    return external_dirs

def configured_external_dirs():
    config_path = hermes_config_path()
    if not config_path.is_file():
        return []
    try:
        config_text = config_path.read_text(encoding="utf-8", errors="replace")
    except Exception:
        return []
    try:
        import yaml
        loaded = yaml.safe_load(config_text)
        if isinstance(loaded, dict):
            skills_config = loaded.get("skills")
            if isinstance(skills_config, dict):
                return normalize_text_list(skills_config.get("external_dirs"))
    except Exception:
        pass
    return fallback_external_dirs(config_text)

def resolve_skill_sources():
    home = pathlib.Path.home()
    config_dir = hermes_config_path().parent
    raw_sources = [("local", local_skills_root())]
    for directory in configured_external_dirs():
        candidate = expand_remote_path(directory, home=home, base_dir=config_dir)
        if candidate is not None:
            raw_sources.append(("external", candidate))

    sources = []
    seen_roots = set()
    external_index = 0

    for kind, candidate in raw_sources:
        try:
            resolved_root = candidate.resolve()
        except Exception:
            continue
        if str(resolved_root) in seen_roots:
            continue
        seen_roots.add(str(resolved_root))

        if kind == "local":
            source_id = "local"
            is_read_only = False
        else:
            external_index += 1
            source_id = f"external:{external_index}"
            is_read_only = True

        sources.append({
            "id": source_id,
            "kind": kind,
            "root": resolved_root,
            "root_path": tilde(resolved_root, home),
            "is_read_only": is_read_only,
        })

    return sources

def resolve_skill_source(source_id):
    normalized = normalize_text(source_id) or "local"
    for source in resolve_skill_sources():
        if source["id"] == normalized:
            return source
    fail("The requested skill source is no longer available. Reload the skill list and try again.")

def skill_relative_path(skill_file, root):
    return skill_file.parent.relative_to(root).as_posix()

def skill_category(relative_path):
    if "/" not in relative_path:
        return None
    return relative_path.rsplit("/", 1)[0]

def feature_flags(skill_dir):
    return {
        "has_references": (skill_dir / "references").is_dir(),
        "has_scripts": (skill_dir / "scripts").is_dir(),
        "has_templates": (skill_dir / "templates").is_dir(),
    }

def build_skill_summary(skill_file, source):
    content = skill_file.read_text(encoding="utf-8", errors="replace")
    relative_path = skill_relative_path(skill_file, source["root"])
    category = skill_category(relative_path)
    parsed = parse_frontmatter(content)
    slug = skill_file.parent.name
    flags = feature_flags(skill_file.parent)

    return {
        "id": relative_path,
        "locator": {
            "source_id": source["id"],
            "relative_path": relative_path,
        },
        "source": {
            "id": source["id"],
            "kind": source["kind"],
            "root_path": source["root_path"],
            "is_read_only": source["is_read_only"],
        },
        "slug": slug,
        "category": category,
        "relative_path": relative_path,
        "name": parsed["name"],
        "description": parsed["description"],
        "version": parsed["version"],
        "platforms": parsed["platforms"],
        "tags": parsed["tags"],
        "related_skills": parsed["related_skills"],
        "has_references": flags["has_references"],
        "has_scripts": flags["has_scripts"],
        "has_templates": flags["has_templates"],
    }

def skill_sort_key(item):
    return (
        (item.get("category") or "").casefold(),
        (item.get("name") or item.get("slug") or "").casefold(),
        item.get("relative_path", "").casefold(),
    )

def discover_skill_items():
    items = []
    seen_relative_paths = set()
    for source in resolve_skill_sources():
        root = source["root"]
        if not root.exists() or not root.is_dir():
            continue
        for skill_file in sorted(root.rglob("SKILL.md")):
            if not skill_file.is_file():
                continue
            try:
                item = build_skill_summary(skill_file, source)
            except Exception:
                continue
            relative_path = item["relative_path"]
            if relative_path in seen_relative_paths:
                continue
            seen_relative_paths.add(relative_path)
            items.append(item)
    items.sort(key=skill_sort_key)
    return items

def resolve_skill_file(source_id, relative_path):
    normalized = pathlib.PurePosixPath(relative_path)
    if normalized.is_absolute() or ".." in normalized.parts or not normalized.parts:
        fail("The requested skill path is invalid.")

    source = resolve_skill_source(source_id)
    root = source["root"]
    target = (root / pathlib.Path(*normalized.parts) / "SKILL.md").resolve()

    try:
        target.relative_to(root)
    except ValueError:
        fail("The requested skill path escapes the configured Hermes skill source.")

    return target, source

def build_skill_detail(source_id, relative_path):
    skill_file, source = resolve_skill_file(source_id, relative_path)
    if not skill_file.exists():
        fail(f"No skill exists at {relative_path}.")
    if not skill_file.is_file():
        fail(f"{relative_path} does not resolve to a readable SKILL.md file.")

    content = skill_file.read_text(encoding="utf-8", errors="replace")
    summary = build_skill_summary(skill_file, source)
    summary["markdown_content"] = content
    summary["content_hash"] = hashlib.sha256(skill_file.read_bytes()).hexdigest()
    return summary
"##;

} // verus!
