//! Names of exported files and the remote command that archives the Hermes
//! directory for a full backup.

use vstd::prelude::*;

use crate::error::HermesError;
use crate::models::ConnectionProfile;
use crate::text::{
    append_chars, append_str, chars_of, digit_char, is_control, is_control_char,
    lemma_split_on_pieces, lemma_trim_by_fixed, lemma_trim_by_shape, nat_decimal, string_of, trim, trim_by, trim_chars,
    split_chars, split_on, trimmed, u64_decimal, TrimSet,
};

verus! {

// ---------------------------------------------------------------------------
// File names
// ---------------------------------------------------------------------------

/// Characters that cannot stand in a portable file name.
pub open spec fn is_reserved_file_name_char(c: char) -> bool {
    c == '/' || c == '\\' || c == ':' || c == '*' || c == '?' || c == '"' || c == '<' || c == '>'
        || c == '|'
}

/// A reserved or control character becomes `'-'`.
pub open spec fn sanitized_char(c: char) -> char {
    if is_reserved_file_name_char(c) || is_control_char(c) {
        '-'
    } else {
        c
    }
}

/// The file name with reserved and control characters replaced by `'-'`,
/// then leading and trailing `'.'`, `' '` and `'-'` removed.
pub open spec fn spec_sanitized_file_name(file_name: Seq<char>) -> Seq<char> {
    trim_by(file_name.map_values(|c: char| sanitized_char(c)), TrimSet::DotSpaceDash)
}

pub const EMPTY_EXPORT_NAME: &'static str = "Export file name cannot be empty.";

/// Makes `file_name` safe to create in the downloads directory: no path
/// separators, reserved or control characters (each becomes `'-'`), and no
/// leading or trailing dots, spaces or dashes. Fails when nothing remains.
pub fn sanitize_file_name(file_name: &str) -> (res: Result<String, HermesError>)
    ensures
        spec_sanitized_file_name(file_name@).len() > 0 <==> res is Ok,
        res matches Ok(name) ==> name@ == spec_sanitized_file_name(file_name@),
        res matches Err(e) ==> e matches HermesError::Validation(m) && m@ == EMPTY_EXPORT_NAME@,
{
    let chars = chars_of(file_name);
    let mut mapped: Vec<char> = Vec::new();
    let mut i: usize = 0;
    while i < chars.len()
        invariant
            i <= chars.len(),
            chars@ == file_name@,
            mapped@ == chars@.take(i as int).map_values(|c: char| sanitized_char(c)),
        decreases chars.len() - i,
    {
        let c = chars[i];
        let reserved = c == '/' || c == '\\' || c == ':' || c == '*' || c == '?' || c == '"' || c
            == '<' || c == '>' || c == '|';
        if reserved || is_control(c) {
            mapped.push('-');
        } else {
            mapped.push(c);
        }
        assert(chars@.take(i + 1).map_values(|c: char| sanitized_char(c)) =~= chars@.take(
            i as int,
        ).map_values(|c: char| sanitized_char(c)).push(sanitized_char(c)));
        i = i + 1;
    }
    assert(chars@.take(chars.len() as int) =~= chars@);
    let candidate = trim_chars(&mapped, &TrimSet::DotSpaceDash);
    if candidate.len() == 0 {
        return Err(HermesError::Validation(EMPTY_EXPORT_NAME.to_owned()));
    }
    Ok(string_of(&candidate))
}

/// A single-component file name: not empty, not `.` or `..`, no `'/'`.
pub open spec fn is_plain_file_name(name: Seq<char>) -> bool {
    &&& name.len() > 0
    &&& name != seq!['.']
    &&& name != seq!['.', '.']
    &&& !name.contains('/')
}

/// The position of the last `'.'` in `name`, if there is one.
pub open spec fn last_dot(name: Seq<char>) -> Option<int>
    decreases name.len(),
{
    if name.len() == 0 {
        None
    } else if name.last() == '.' {
        Some(name.len() - 1)
    } else {
        last_dot(name.drop_last())
    }
}

/// `Path::file_stem` of a plain file name: the part before the last `'.'`,
/// or the whole name when it has no `'.'` but a leading one.
pub open spec fn file_stem(name: Seq<char>) -> Seq<char> {
    match last_dot(name) {
        Some(i) => if i == 0 {
            name
        } else {
            name.take(i)
        },
        None => name,
    }
}

/// `Path::extension` of a plain file name: the part after the last `'.'`,
/// unless that dot is the first character.
pub open spec fn file_extension(name: Seq<char>) -> Option<Seq<char>> {
    match last_dot(name) {
        Some(i) => if i == 0 {
            None
        } else {
            Some(name.skip(i + 1))
        },
        None => None,
    }
}

/// The last component of a path on Unix, as `Path::file_name` finds it:
/// the last of the pieces between `'/'` that is neither empty nor `.`;
/// none when there is no such piece or it is `..`.
pub open spec fn last_component(pieces: Seq<Seq<char>>) -> Option<Seq<char>>
    decreases pieces.len(),
{
    if pieces.len() == 0 {
        None
    } else if pieces.last().len() == 0 || pieces.last() == seq!['.'] {
        last_component(pieces.drop_last())
    } else {
        Some(pieces.last())
    }
}

/// `Path::new(name).file_name()` on Unix.
pub open spec fn spec_file_name(name: Seq<char>) -> Option<Seq<char>> {
    match last_component(split_on(name, '/')) {
        Some(piece) => if piece == seq!['.', '.'] {
            None
        } else {
            Some(piece)
        },
        None => None,
    }
}

/// `stem-index.extension` for a file name: its stem, `-index`, and its
/// extension when it has one.
pub open spec fn spec_component_candidate(file: Seq<char>, index: nat) -> Seq<char> {
    let base = file_stem(file) + seq!['-'] + nat_decimal(index);
    match file_extension(file) {
        Some(ext) => base + seq!['.'] + ext,
        None => base,
    }
}

/// The name tried when `name` is taken: the candidate of its last path
/// component (`Path::file_stem`, `Path::extension`), or `export-index` when
/// it has none.
pub open spec fn spec_export_candidate_name(name: Seq<char>, index: nat) -> Seq<char> {
    match spec_file_name(name) {
        Some(file) => spec_component_candidate(file, index),
        None => "export-"@ + nat_decimal(index),
    }
}

/// `Path::new(name).file_name()` on Unix: the last path component that is
/// neither empty nor `.`, unless it is `..`.
fn file_name_of(name: &Vec<char>) -> (res: Option<Vec<char>>)
    ensures
        match res {
            Some(f) => spec_file_name(name@) == Some(f@),
            None => spec_file_name(name@) is None,
        },
{
    let pieces = split_chars(name, '/');
    let ghost ps = split_on(name@, '/');
    let mut j: usize = pieces.len();
    assert(ps.take(j as int) =~= ps);
    while j > 0
        invariant
            j <= pieces@.len(),
            pieces@.len() == ps.len(),
            ps == split_on(name@, '/'),
            forall|k: int| 0 <= k < pieces@.len() ==> #[trigger] pieces@[k]@ == ps[k],
            last_component(ps) == last_component(ps.take(j as int)),
        decreases j,
    {
        let piece = &pieces[j - 1];
        assert(piece@ == ps[j - 1]);
        assert(ps.take(j as int).last() == ps[j - 1]);
        assert(ps.take(j as int).drop_last() =~= ps.take(j - 1));
        let is_dot = piece.len() == 1 && piece[0] == '.';
        assert(is_dot <==> piece@ == seq!['.']) by {
            if piece@.len() == 1 && piece@[0] == '.' {
                assert(piece@ =~= seq!['.']);
            }
        }
        if piece.len() != 0 && !is_dot {
            let is_parent = piece.len() == 2 && piece[0] == '.' && piece[1] == '.';
            assert(is_parent <==> piece@ == seq!['.', '.']) by {
                if piece@.len() == 2 && piece@[0] == '.' && piece@[1] == '.' {
                    assert(piece@ =~= seq!['.', '.']);
                }
            }
            if is_parent {
                return None;
            }
            let mut f: Vec<char> = Vec::new();
            append_chars(&mut f, piece);
            return Some(f);
        }
        j = j - 1;
    }
    assert(ps.take(0) =~= Seq::<Seq<char>>::empty());
    None
}

/// The candidate `stem-index.extension` of a single file name.
fn component_candidate(name: &Vec<char>, index: u32) -> (res: Vec<char>)
    ensures
        res@ == spec_component_candidate(name@, index as nat),
{
    let mut i: usize = name.len();
    assert(name@.take(i as int) =~= name@);
    while i > 0 && name[i - 1] != '.'
        invariant
            i <= name@.len(),
            last_dot(name@) == last_dot(name@.take(i as int)),
        decreases i,
    {
        assert(name@.take(i - 1) =~= name@.take(i as int).drop_last());
        i = i - 1;
    }
    let ghost dot = last_dot(name@);
    proof {
        if i > 0 {
            assert(name@.take(i as int).last() == '.');
        } else {
            assert(name@.take(0) =~= Seq::<char>::empty());
        }
    }
    let mut out: Vec<char> = Vec::new();
    if i <= 1 {
        append_chars(&mut out, &name);
    } else {
        let mut k: usize = 0;
        while k < i - 1
            invariant
                1 < i <= name@.len(),
                k <= i - 1,
                out@ == name@.take(k as int),
            decreases i - 1 - k,
        {
            out.push(name[k]);
            k = k + 1;
        }
    }
    out.push('-');
    let digits = u64_decimal(index as u64);
    append_chars(&mut out, &digits);
    if i > 1 {
        out.push('.');
        let mut k: usize = i;
        let ghost before = out@;
        while k < name.len()
            invariant
                1 < i <= k <= name@.len(),
                out@ == before + name@.subrange(i as int, k as int),
            decreases name.len() - k,
        {
            out.push(name[k]);
            assert(name@.subrange(i as int, k + 1) =~= name@.subrange(i as int, k as int).push(
                name@[k as int],
            ));
            k = k + 1;
        }
        assert(name@.subrange(i as int, name@.len() as int) =~= name@.skip(i as int));
    }
    out
}


/// The name to try for an export whose first name, `file_name`, is taken:
/// the stem of its last path component, `-index`, and the component's
/// extension when it has one (`report.json` gives `report-1.json`,
/// `archive.tar.gz` gives `archive.tar-1.gz`, `.env` gives `.env-1`,
/// `a/b.txt` gives `b-1.txt`); `export-index` when the name has no last
/// component (empty, `/`, `.` or `..`).
pub fn export_candidate_name(file_name: &str, index: u32) -> (res: String)
    ensures
        res@ == spec_export_candidate_name(file_name@, index as nat),
{
    let name = chars_of(file_name);
    match file_name_of(&name) {
        Some(file) => {
            let out = component_candidate(&file, index);
            string_of(&out)
        },
        None => {
            let mut out = chars_of("export-");
            let digits = u64_decimal(index as u64);
            append_chars(&mut out, &digits);
            string_of(&out)
        },
    }
}

/// The largest index tried for a taken export name.
pub const MAX_EXPORT_INDEX: u32 = 9999;

/// The next move in the search for a free export name.
pub enum ExportStep {
    /// Write the export under this name.
    Use(String),
    /// Check next whether this name, the one of the given index, is taken.
    Try(u32, String),
}

/// The view of an [`ExportStep`].
pub enum ExportStepView {
    Use(Seq<char>),
    Try(nat, Seq<char>),
}

impl View for ExportStep {
    type V = ExportStepView;

    open spec fn view(&self) -> ExportStepView {
        match self {
            ExportStep::Use(n) => ExportStepView::Use(n@),
            ExportStep::Try(i, n) => ExportStepView::Try(*i as nat, n@),
        }
    }
}

/// The name tried at `index`: the name itself at index 0, else its
/// candidate of that index.
pub open spec fn spec_export_try_name(name: Seq<char>, index: nat) -> Seq<char> {
    if index == 0 {
        name
    } else {
        spec_export_candidate_name(name, index)
    }
}

/// After checking the name of `index`: use it when it is free; when it is
/// taken, try the candidate of the next index up to [`MAX_EXPORT_INDEX`];
/// after the last one, fall back to the name itself.
pub open spec fn spec_export_step(name: Seq<char>, index: nat, taken: bool) -> ExportStepView {
    if !taken {
        ExportStepView::Use(spec_export_try_name(name, index))
    } else if index < MAX_EXPORT_INDEX {
        ExportStepView::Try(index + 1, spec_export_candidate_name(name, index + 1))
    } else {
        ExportStepView::Use(name)
    }
}

/// One step of the search for a free export name for `file_name`, given
/// whether the name of `index` (see [`spec_export_try_name`]) is taken.
/// The search starts at index 0, with `file_name` itself; each `Try` raises
/// the index by one, so it ends after at most [`MAX_EXPORT_INDEX`] further
/// checks.
pub fn next_export_step(file_name: &str, index: u32, taken: bool) -> (res: ExportStep)
    ensures
        res@ == spec_export_step(file_name@, index as nat, taken),
{
    if !taken {
        if index == 0 {
            return ExportStep::Use(string_of(&chars_of(file_name)));
        }
        return ExportStep::Use(export_candidate_name(file_name, index));
    }
    if index < MAX_EXPORT_INDEX {
        let next = index + 1;
        return ExportStep::Try(next, export_candidate_name(file_name, next));
    }
    ExportStep::Use(string_of(&chars_of(file_name)))
}

/// The time stamp of a backup file name: `:` and `.` of an RFC 3339 time
/// become `-`.
pub open spec fn stamp_char(c: char) -> char {
    if c == ':' || c == '.' {
        '-'
    } else {
        c
    }
}

/// `hermes-full-backup-<label>-<stamp>.tar.gz`.
pub open spec fn spec_backup_file_name(label: Seq<char>, time: Seq<char>) -> Seq<char> {
    "hermes-full-backup-"@ + label + seq!['-'] + time.map_values(|c: char| stamp_char(c))
        + ".tar.gz"@
}

/// The name of a full backup of `label`'s Hermes directory taken at `time`
/// (an RFC 3339 time), with the `:` and `.` of the time replaced by `-`.
pub fn backup_file_name(label: &str, time: &str) -> (res: String)
    ensures
        res@ == spec_backup_file_name(label@, time@),
{
    let mut out = chars_of("hermes-full-backup-");
    append_str(&mut out, label);
    out.push('-');
    let t = chars_of(time);
    let ghost before = out@;
    let mut i: usize = 0;
    while i < t.len()
        invariant
            i <= t.len(),
            t@ == time@,
            out@ == before + t@.take(i as int).map_values(|c: char| stamp_char(c)),
        decreases t.len() - i,
    {
        let c = t[i];
        if c == ':' || c == '.' {
            out.push('-');
        } else {
            out.push(c);
        }
        assert(t@.take(i + 1).map_values(|c: char| stamp_char(c)) =~= t@.take(i as int).map_values(
            |c: char| stamp_char(c),
        ).push(stamp_char(c)));
        i = i + 1;
    }
    assert(t@.take(t.len() as int) =~= t@);
    append_str(&mut out, ".tar.gz");
    string_of(&out)
}

/// The name of a full backup of the profile's Hermes directory taken at
/// `time` (an RFC 3339 time).
pub fn hermes_directory_backup_file_name(profile: &ConnectionProfile, time: &str) -> (res: String)
    ensures
        res@ == spec_backup_file_name(profile.label@, time@),
{
    backup_file_name(profile.label.as_str(), time)
}

// ---------------------------------------------------------------------------
// Laws
// ---------------------------------------------------------------------------

/// A sanitized file name is safe to create: it has no reserved or control
/// character, does not start or end with a dot, space or dash, names a
/// single file, and sanitizing it again leaves it unchanged.
pub proof fn lemma_sanitized_name_is_safe(file_name: Seq<char>)
    requires
        spec_sanitized_file_name(file_name).len() > 0,
    ensures
        ({
            let n = spec_sanitized_file_name(file_name);
            &&& forall|i: int|
                0 <= i < n.len() ==> !is_reserved_file_name_char(#[trigger] n[i])
                    && !is_control_char(n[i])
            &&& !TrimSet::DotSpaceDash.member(n[0])
            &&& !TrimSet::DotSpaceDash.member(n.last())
            &&& is_plain_file_name(n)
            &&& spec_sanitized_file_name(n) == n
        }),
{
    let m = file_name.map_values(|c: char| sanitized_char(c));
    let n = spec_sanitized_file_name(file_name);
    let (a, b) = lemma_trim_by_shape(m, TrimSet::DotSpaceDash);
    assert forall|i: int| 0 <= i < n.len() implies !is_reserved_file_name_char(#[trigger] n[i])
        && !is_control_char(n[i]) by {
        assert(n[i] == m[a + i]);
        assert(m[a + i] == sanitized_char(file_name[a + i]));
    }
    assert(n != seq!['.']) by {
        if n == seq!['.'] {
            assert(n[0] == '.');
        }
    }
    assert(n != seq!['.', '.']) by {
        if n == seq!['.', '.'] {
            assert(n[0] == '.');
        }
    }
    assert(!n.contains('/')) by {
        if n.contains('/') {
            let j = choose|j: int| 0 <= j < n.len() && n[j] == '/';
            assert(is_reserved_file_name_char(n[j]));
        }
    }
    let again = n.map_values(|c: char| sanitized_char(c));
    assert(again =~= n) by {
        assert forall|i: int| 0 <= i < n.len() implies again[i] == n[i] by {
            assert(!is_reserved_file_name_char(n[i]) && !is_control_char(n[i]));
        }
    }
    lemma_trim_by_fixed(n, TrimSet::DotSpaceDash);
}

proof fn lemma_digit_char_injective(a: nat, b: nat)
    requires
        a < 10,
        b < 10,
        digit_char(a) == digit_char(b),
    ensures
        a == b,
{
}

proof fn lemma_nat_decimal_len(n: nat)
    ensures
        nat_decimal(n).len() >= 1,
        n >= 10 ==> nat_decimal(n).len() >= 2,
    decreases n,
{
    if n >= 10 {
        lemma_nat_decimal_len(n / 10);
    }
}

/// Distinct numbers have distinct decimal notations.
pub proof fn lemma_nat_decimal_injective(a: nat, b: nat)
    requires
        nat_decimal(a) == nat_decimal(b),
    ensures
        a == b,
    decreases a,
{
    lemma_nat_decimal_len(a);
    lemma_nat_decimal_len(b);
    if a < 10 && b < 10 {
        assert(nat_decimal(a)[0] == digit_char(a));
        assert(nat_decimal(b)[0] == digit_char(b));
        lemma_digit_char_injective(a, b);
    } else if a >= 10 && b >= 10 {
        let da = nat_decimal(a);
        assert(da.drop_last() =~= nat_decimal(a / 10));
        assert(nat_decimal(b).drop_last() =~= nat_decimal(b / 10));
        lemma_nat_decimal_injective(a / 10, b / 10);
        assert(da.last() == digit_char(a % 10));
        assert(nat_decimal(b).last() == digit_char(b % 10));
        lemma_digit_char_injective(a % 10, b % 10);
    }
}

proof fn lemma_last_dot(name: Seq<char>)
    ensures
        last_dot(name) matches Some(i) ==> 0 <= i < name.len() && name[i] == '.',
    decreases name.len(),
{
    if name.len() > 0 && name.last() != '.' {
        lemma_last_dot(name.drop_last());
    }
}

proof fn lemma_nat_decimal_no_slash(n: nat)
    ensures
        !nat_decimal(n).contains('/'),
    decreases n,
{
    if n >= 10 {
        lemma_nat_decimal_no_slash(n / 10);
        let prev = nat_decimal(n / 10);
        assert forall|k: int| 0 <= k < nat_decimal(n).len() implies nat_decimal(n)[k] != '/' by {
            if k < prev.len() {
                assert(nat_decimal(n)[k] == prev[k]);
            }
        }
    }
}

/// The candidates of one file name differ from it and from each other, and
/// hold a `'/'` only if the file name does.
proof fn lemma_component_candidates(file: Seq<char>, i: nat, j: nat)
    requires
        i != j,
    ensures
        spec_component_candidate(file, i) != file,
        spec_component_candidate(file, i) != spec_component_candidate(file, j),
        !file.contains('/') ==> !spec_component_candidate(file, i).contains('/'),
{
    lemma_last_dot(file);
    lemma_nat_decimal_len(i);
    lemma_nat_decimal_len(j);
    lemma_nat_decimal_no_slash(i);
    let stem = file_stem(file);
    let a = stem + seq!['-'] + nat_decimal(i);
    let b = stem + seq!['-'] + nat_decimal(j);
    let ci = spec_component_candidate(file, i);
    let cj = spec_component_candidate(file, j);
    match last_dot(file) {
        Some(k) => {
            if k > 0 {
                assert(file =~= file.take(k) + seq!['.'] + file.skip(k + 1));
            }
        },
        None => {},
    }
    assert(ci.len() > file.len());
    if ci == cj {
        assert(ci.len() == cj.len());
        assert(a.len() == b.len());
        assert(a =~= ci.take(a.len() as int));
        assert(b =~= cj.take(b.len() as int));
        assert(nat_decimal(i) =~= a.skip(stem.len() + 1int));
        assert(nat_decimal(j) =~= b.skip(stem.len() + 1int));
        lemma_nat_decimal_injective(i, j);
    }
    if !file.contains('/') {
        assert forall|k: int| 0 <= k < ci.len() implies ci[k] != '/' by {
            let d = nat_decimal(i);
            if k < stem.len() {
                assert(ci[k] == stem[k]);
                assert(stem[k] == file[k]);
            } else if k == stem.len() {
            } else if k < a.len() {
                assert(ci[k] == d[k - stem.len() - 1]);
            } else if k > a.len() {
                let dot = last_dot(file).unwrap();
                assert(ci[k] == file.skip(dot + 1)[k - a.len() - 1]);
                assert(ci[k] == file[dot + 1 + k - a.len() - 1]);
            }
        }
    }
}

proof fn lemma_split_on_no_sep(s: Seq<char>, sep: char)
    requires
        !s.contains(sep),
    ensures
        split_on(s, sep) == seq![s],
    decreases s.len(),
{
    if s.len() > 0 {
        assert(!s.drop_last().contains(sep)) by {
            if s.drop_last().contains(sep) {
                let k = choose|k: int| 0 <= k < s.drop_last().len() && s.drop_last()[k] == sep;
                assert(s[k] == sep);
            }
        }
        lemma_split_on_no_sep(s.drop_last(), sep);
        assert(s.last() != sep) by {
            assert(s[s.len() - 1] == s.last());
        }
        assert(s.drop_last().push(s.last()) =~= s);
        assert(split_on(s, sep) =~= seq![s]);
    } else {
        assert(s =~= Seq::<char>::empty());
    }
}

proof fn lemma_last_component_piece(ps: Seq<Seq<char>>)
    ensures
        last_component(ps) matches Some(p) ==> exists|k: int| 0 <= k < ps.len() && ps[k] == p,
    decreases ps.len(),
{
    if ps.len() > 0 {
        lemma_last_component_piece(ps.drop_last());
        if ps.last().len() == 0 || ps.last() == seq!['.'] {
            match last_component(ps) {
                Some(p) => {
                    let k = choose|k: int| 0 <= k < ps.drop_last().len() && ps.drop_last()[k] == p;
                    assert(ps[k] == p);
                },
                None => {},
            }
        } else {
            assert(ps[ps.len() - 1] == ps.last());
        }
    }
}

/// The last path component holds no `'/'`.
proof fn lemma_file_name_no_slash(name: Seq<char>)
    ensures
        spec_file_name(name) matches Some(f) ==> !f.contains('/'),
{
    let ps = split_on(name, '/');
    lemma_last_component_piece(ps);
    lemma_split_on_pieces(name, '/');
    match last_component(ps) {
        Some(p) => {
            let k = choose|k: int| 0 <= k < ps.len() && ps[k] == p;
            assert(!ps[k].contains('/'));
        },
        None => {},
    }
}

/// The names tried for a taken export name differ from it and from each
/// other, so every index tries a new name.
pub proof fn lemma_export_candidates_are_new(name: Seq<char>, i: nat, j: nat)
    requires
        i != j,
    ensures
        spec_export_candidate_name(name, i) != name,
        spec_export_candidate_name(name, i) != spec_export_candidate_name(name, j),
{
    reveal_strlit("export-");
    lemma_nat_decimal_len(i);
    lemma_nat_decimal_len(j);
    lemma_nat_decimal_no_slash(i);
    lemma_file_name_no_slash(name);
    let ci = spec_export_candidate_name(name, i);
    match spec_file_name(name) {
        Some(f) => {
            lemma_component_candidates(f, i, j);
            if name.contains('/') {
                let k = choose|k: int| 0 <= k < name.len() && name[k] == '/';
                if ci == name {
                    assert(ci[k] == '/');
                }
            } else {
                lemma_split_on_no_sep(name, '/');
                let ps = split_on(name, '/');
                assert(ps.drop_last() =~= Seq::<Seq<char>>::empty());
                assert(ps.last() == name);
                assert(last_component(ps.drop_last()) is None);
                assert(f == name);
            }
        },
        None => {
            let p = "export-"@;
            if ci == spec_export_candidate_name(name, j) {
                assert(nat_decimal(i) =~= ci.skip(7));
                assert(nat_decimal(j) =~= spec_export_candidate_name(name, j).skip(7));
                lemma_nat_decimal_injective(i, j);
            }
            if name.contains('/') {
                let k = choose|k: int| 0 <= k < name.len() && name[k] == '/';
                if ci == name {
                    assert(ci[k] == '/');
                    if k < 7 {
                        assert(p[k] == ci[k]);
                    } else {
                        assert(ci[k] == nat_decimal(i)[k - 7]);
                    }
                }
            } else {
                lemma_split_on_no_sep(name, '/');
                let ps = split_on(name, '/');
                assert(ps.drop_last() =~= Seq::<Seq<char>>::empty());
                assert(ps.last() == name);
                assert(last_component(ps.drop_last()) is None);
                assert(name.len() <= 2);
                assert(ci.len() >= 8);
            }
        },
    }
}

// ---------------------------------------------------------------------------
// Remote archive command
// ---------------------------------------------------------------------------

pub const ARCHIVE_SCRIPT_HEAD: &'static str = "set -eu\nHERMES_BACKUP_DIR=\"";

pub const ARCHIVE_SCRIPT_TAIL: &'static str = r#""
if [ ! -d "$HERMES_BACKUP_DIR" ]; then
  printf 'Hermes directory not found: %s\n' "$HERMES_BACKUP_DIR" >&2
  exit 2
fi
parent=$(dirname "$HERMES_BACKUP_DIR")
base=$(basename "$HERMES_BACKUP_DIR")
stamp=$(date +%s)
tmp="${TMPDIR:-/tmp}/hermes-desktop-backup-${stamp}-$$.tar.gz"
err="${tmp}.err"
cleanup() {
  rm -f "$tmp" "$err"
}
trap cleanup EXIT HUP INT TERM
cd "$parent"
if tar -czf "$tmp" "$base" 2>"$err"; then
  :
else
  code=$?
  cat "$err" >&2 || true
  if [ "$code" -gt 1 ]; then
    exit "$code"
  fi
fi
cat "$tmp"
"#;

pub const DEFAULT_BACKUP_DIR: &'static str = "$HOME/.hermes";

/// The directory that a full backup archives: the expression for the
/// profile's custom Hermes home when it has one, else `$HOME/.hermes`.
pub open spec fn spec_backup_dir(profile: ConnectionProfile, home_expression: Seq<char>) -> Seq<
    char,
> {
    if profile.custom_hermes_home_path is Some {
        home_expression
    } else {
        DEFAULT_BACKUP_DIR@
    }
}

/// The remote shell script that writes a gzip tar of the Hermes directory to
/// standard output; it fails when the directory is missing, and removes its
/// temporary files on every exit.
pub open spec fn spec_archive_command(profile: ConnectionProfile, home_expression: Seq<char>) -> Seq<
    char,
> {
    ARCHIVE_SCRIPT_HEAD@ + spec_backup_dir(profile, home_expression) + ARCHIVE_SCRIPT_TAIL@
}

/// The script that archives the remote Hermes directory for a full backup.
/// `custom_home_expression` is the shell expression of the profile's custom
/// Hermes home; it is used only when the profile has one, and the default
/// `$HOME/.hermes` otherwise.
pub fn remote_hermes_directory_archive_command(
    profile: &ConnectionProfile,
    custom_home_expression: &str,
) -> (res: String)
    ensures
        res@ == spec_archive_command(*profile, custom_home_expression@),
{
    let mut out = chars_of(ARCHIVE_SCRIPT_HEAD);
    if profile.custom_hermes_home_path.is_some() {
        append_str(&mut out, custom_home_expression);
    } else {
        append_str(&mut out, DEFAULT_BACKUP_DIR);
    }
    append_str(&mut out, ARCHIVE_SCRIPT_TAIL);
    string_of(&out)
}

/// The text that `String::from_utf8_lossy` decodes from `bytes` (invalid
/// sequences become U+FFFD).
pub uninterp spec fn utf8_lossy(bytes: Seq<u8>) -> Seq<char>;

/// `String::from_utf8_lossy`, as an owned text.
#[verifier::external_body]
fn decode_utf8_lossy(bytes: &[u8]) -> (res: String)
    ensures
        res@ == utf8_lossy(bytes@),
{
    String::from_utf8_lossy(bytes).into_owned()
}

pub const BACKUP_FAILED: &'static str = "Remote Hermes directory backup failed.";

/// The message for a failed remote backup: its trimmed error output, or a
/// generic message when that is empty.
pub fn remote_archive_error(stderr: &[u8]) -> (res: String)
    ensures
        trimmed(utf8_lossy(stderr@)).len() > 0 ==> res@ == trimmed(utf8_lossy(stderr@)),
        trimmed(utf8_lossy(stderr@)).len() == 0 ==> res@ == BACKUP_FAILED@,
{
    let decoded = decode_utf8_lossy(stderr);
    let message = trim(decoded.as_str());
    if message.as_str().is_empty() {
        return BACKUP_FAILED.to_owned();
    }
    message
}

} // verus!
