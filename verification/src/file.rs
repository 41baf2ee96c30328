//! Bookmarks of remote files, kept per workspace scope.

use vstd::prelude::*;

use crate::error::HermesError;
use crate::identity::{
    hyphenated_value, is_hyphenated_uuid, lemma_uuid_text_round_trip, parse_uuid, uuid_text,
    uuid_value, Timestamp,
};
use crate::sort::{
    lemma_filter_members, lemma_filter_step, lemma_sort_contains, lemma_sort_permutation,
    lemma_sort_sorted, seconds, sort_by_key, sort_by_view_key, sorted_by, view_seq, KeyView,
    SortKey,
};
use crate::ssh::opt_view;
use crate::text::{chars_of, split_chars, split_on, str_eq, string_of, to_lowercase, trim, trimmed, unicode_lowercase, lemma_split_on_nonempty};
use crate::workflow::is_validation;

verus! {

/// A remote file the user bookmarked in a workspace.
#[derive(Debug)]
pub struct WorkspaceFileBookmark {
    pub id: u128,
    pub workspace_scope_fingerprint: String,
    pub remote_path: String,
    pub title: Option<String>,
    pub created_at: Timestamp,
    pub updated_at: Timestamp,
}

/// The view of a [`WorkspaceFileBookmark`].
pub struct BookmarkView {
    pub id: u128,
    pub workspace_scope_fingerprint: Seq<char>,
    pub remote_path: Seq<char>,
    pub title: Option<Seq<char>>,
    pub created_at: Timestamp,
    pub updated_at: Timestamp,
}

impl View for WorkspaceFileBookmark {
    type V = BookmarkView;

    open spec fn view(&self) -> BookmarkView {
        BookmarkView {
            id: self.id,
            workspace_scope_fingerprint: self.workspace_scope_fingerprint@,
            remote_path: self.remote_path@,
            title: opt_view(self.title),
            created_at: self.created_at,
            updated_at: self.updated_at,
        }
    }
}

impl WorkspaceFileBookmark {
    /// A copy of this bookmark.
    pub fn duplicate(&self) -> (res: Self)
        ensures
            res@ == self@,
    {
        WorkspaceFileBookmark {
            id: self.id,
            workspace_scope_fingerprint: self.workspace_scope_fingerprint.clone(),
            remote_path: self.remote_path.clone(),
            title: match &self.title {
                Some(t) => Some(t.clone()),
                None => None,
            },
            created_at: self.created_at,
            updated_at: self.updated_at,
        }
    }
}

fn duplicate_bookmarks(v: &Vec<WorkspaceFileBookmark>) -> (res: Vec<WorkspaceFileBookmark>)
    ensures
        view_seq(res@) == view_seq(v@),
{
    let mut out: Vec<WorkspaceFileBookmark> = Vec::new();
    let mut i: usize = 0;
    while i < v.len()
        invariant
            i <= v.len(),
            view_seq(out@) == view_seq(v@.take(i as int)),
        decreases v.len() - i,
    {
        out.push(v[i].duplicate());
        assert(view_seq(v@.take(i + 1)) =~= view_seq(v@.take(i as int)).push(v@[i as int]@));
        i = i + 1;
    }
    assert(v@.take(v.len() as int) =~= v@);
    out
}

// ---------------------------------------------------------------------------
// Specifications
// ---------------------------------------------------------------------------

pub const UNTITLED_FILE: &'static str = "Untitled file";

pub const PATH_REQUIRED: &'static str = "Remote file path is required.";

pub const INVALID_BOOKMARK_ID: &'static str = "The bookmark id is not a valid UUID.";

/// A trimmed text, or nothing when it is blank.
pub open spec fn spec_normalize_optional(value: Option<Seq<char>>) -> Option<Seq<char>> {
    match value {
        Some(v) => if trimmed(v).len() > 0 {
            Some(trimmed(v))
        } else {
            None
        },
        None => None,
    }
}

/// The title shown for a bookmark without one: the last segment of its
/// trimmed path (one trailing `'/'` ignored), or the path itself when that
/// segment is empty, or "Untitled file" for a blank path.
pub open spec fn path_title(path: Seq<char>) -> Seq<char> {
    let t = trimmed(path);
    if t.len() == 0 {
        UNTITLED_FILE@
    } else {
        let w = if t.len() > 1 && t.last() == '/' {
            t.drop_last()
        } else {
            t
        };
        let segment = split_on(w, '/').last();
        if segment.len() > 0 {
            segment
        } else {
            w
        }
    }
}

/// The title shown for a bookmark: its trimmed title when not blank, else
/// the title from its path.
pub open spec fn spec_display_title(b: BookmarkView) -> Seq<char> {
    match b.title {
        Some(t) => if trimmed(t).len() > 0 {
            trimmed(t)
        } else {
            path_title(b.remote_path)
        },
        None => path_title(b.remote_path),
    }
}

/// Bookmarks are ordered by lower-cased title, then path, then id.
pub open spec fn bookmark_key(b: BookmarkView) -> KeyView {
    (unicode_lowercase(spec_display_title(b)), b.remote_path, b.id)
}

pub open spec fn bookmark_key_fn() -> spec_fn(BookmarkView) -> KeyView {
    |b: BookmarkView| bookmark_key(b)
}

pub open spec fn bookmark_scope_pred(scope: Seq<char>) -> spec_fn(BookmarkView) -> bool {
    |b: BookmarkView| b.workspace_scope_fingerprint == scope
}

/// The bookmarks of `scope`, in their stored order.
pub open spec fn bookmarks_in_scope(s: Seq<BookmarkView>, scope: Seq<char>) -> Seq<BookmarkView> {
    s.filter(bookmark_scope_pred(scope))
}

/// The bookmarks of `scope`, sorted by their keys, stably.
pub open spec fn spec_list_bookmarks(s: Seq<BookmarkView>, scope: Seq<char>) -> Seq<BookmarkView> {
    sort_by_key(bookmarks_in_scope(s, scope), bookmark_key_fn())
}

pub open spec fn other_id_pred(id: u128) -> spec_fn(BookmarkView) -> bool {
    |b: BookmarkView| b.id != id
}

/// `s` without the bookmarks with id `id`, whatever their scope.
pub open spec fn without_id(s: Seq<BookmarkView>, id: u128) -> Seq<BookmarkView> {
    s.filter(other_id_pred(id))
}

/// The position of the first bookmark of `scope` for `path`.
pub open spec fn first_bookmark(s: Seq<BookmarkView>, scope: Seq<char>, path: Seq<char>) -> Option<
    int,
>
    decreases s.len(),
{
    if s.len() == 0 {
        None
    } else if s[0].workspace_scope_fingerprint == scope && s[0].remote_path == path {
        Some(0)
    } else {
        match first_bookmark(s.drop_first(), scope, path) {
            Some(i) => Some(i + 1),
            None => None,
        }
    }
}

proof fn lemma_first_bookmark(s: Seq<BookmarkView>, scope: Seq<char>, path: Seq<char>)
    ensures
        first_bookmark(s, scope, path) matches Some(i) ==> 0 <= i < s.len()
            && s[i].workspace_scope_fingerprint == scope && s[i].remote_path == path,
    decreases s.len(),
{
    if s.len() > 0 {
        lemma_first_bookmark(s.drop_first(), scope, path);
    }
}

// ---------------------------------------------------------------------------
// Operations
// ---------------------------------------------------------------------------

/// A trimmed text, or `None` when it is blank.
pub fn normalize_optional(value: Option<String>) -> (res: Option<String>)
    ensures
        opt_view(res) == spec_normalize_optional(opt_view(value)),
{
    match value {
        Some(v) => {
            let t = trim(v.as_str());
            if t.as_str().is_empty() {
                None
            } else {
                Some(t)
            }
        },
        None => None,
    }
}

/// The title shown for a bookmark: its title, else the file name of its
/// path, else the path, else "Untitled file".
pub fn display_title(bookmark: &WorkspaceFileBookmark) -> (res: String)
    ensures
        res@ == spec_display_title(bookmark@),
{
    match &bookmark.title {
        Some(t) => {
            let title = trim(t.as_str());
            if !title.as_str().is_empty() {
                return title;
            }
        },
        None => {},
    }
    let trimmed_path = trim(bookmark.remote_path.as_str());
    if trimmed_path.as_str().is_empty() {
        return UNTITLED_FILE.to_owned();
    }
    let mut chars = chars_of(trimmed_path.as_str());
    if chars.len() > 1 && chars[chars.len() - 1] == '/' {
        chars.pop();
    }
    let ghost w = chars@;
    let pieces = split_chars(&chars, '/');
    proof {
        lemma_split_on_nonempty(w, '/');
    }
    let last = &pieces[pieces.len() - 1];
    if last.len() > 0 {
        string_of(last)
    } else {
        string_of(&chars)
    }
}

fn bookmark_sort_key(b: &WorkspaceFileBookmark) -> (res: SortKey)
    ensures
        res@ == bookmark_key(b@),
{
    let title = display_title(b);
    let lowered = to_lowercase(title.as_str());
    SortKey {
        primary: chars_of(lowered.as_str()),
        secondary: chars_of(b.remote_path.as_str()),
        tiebreak: b.id,
    }
}

/// The bookmarks of `scope`, sorted by title case-insensitively, then by
/// path, then by id.
pub fn list_workspace_file_bookmarks_inner(bookmarks: Vec<WorkspaceFileBookmark>, scope: &str) -> (res:
    Vec<WorkspaceFileBookmark>)
    ensures
        view_seq(res@) == spec_list_bookmarks(view_seq(bookmarks@), scope@),
{
    let mut pending = bookmarks;
    let total = pending.len();
    let ghost all = pending@;
    let mut pairs: Vec<(SortKey, WorkspaceFileBookmark)> = Vec::new();
    let mut count: usize = 0;
    while pending.len() > 0
        invariant
            count + pending@.len() == all.len(),
            all.len() == total,
            pending@ == all.skip(count as int),
            view_seq(seconds(pairs@)) == bookmarks_in_scope(view_seq(all.take(count as int)), scope@),
            forall|k: int|
                0 <= k < pairs@.len() ==> (#[trigger] pairs@[k]).0@ == bookmark_key(pairs@[k].1@),
        decreases pending@.len(),
    {
        let b = pending.remove(0);
        let ghost bv = b@;
        let ghost before = pairs@;
        if str_eq(b.workspace_scope_fingerprint.as_str(), scope) {
            let key = bookmark_sort_key(&b);
            pairs.push((key, b));
            assert(view_seq(seconds(pairs@)) =~= view_seq(seconds(before)).push(bv));
        }
        proof {
            let t = view_seq(all.take(count + 1));
            assert(t.drop_last() =~= view_seq(all.take(count as int)));
            assert(t.last() == bv);
            lemma_filter_step(t, bookmark_scope_pred(scope@));
        }
        count = count + 1;
        assert(pending@ =~= all.skip(count as int));
    }
    assert(all.take(count as int) =~= all);
    sort_by_view_key(pairs, Ghost(bookmark_key_fn()))
}

fn find_bookmark(bookmarks: &Vec<WorkspaceFileBookmark>, scope: &str, path: &str) -> (res: Option<
    usize,
>)
    ensures
        match first_bookmark(view_seq(bookmarks@), scope@, path@) {
            Some(i) => res matches Some(k) && k == i && 0 <= i < bookmarks@.len(),
            None => res is None,
        },
{
    let ghost vs = view_seq(bookmarks@);
    let mut i: usize = 0;
    assert(vs.skip(0) =~= vs);
    while i < bookmarks.len()
        invariant
            i <= bookmarks@.len(),
            vs == view_seq(bookmarks@),
            first_bookmark(vs, scope@, path@) == match first_bookmark(
                vs.skip(i as int),
                scope@,
                path@,
            ) {
                Some(j) => Some(j + i),
                None => None::<int>,
            },
        decreases bookmarks.len() - i,
    {
        let ghost t = vs.skip(i as int);
        assert(t[0] == vs[i as int]);
        if str_eq(bookmarks[i].workspace_scope_fingerprint.as_str(), scope) && str_eq(
            bookmarks[i].remote_path.as_str(),
            path,
        ) {
            return Some(i);
        }
        assert(t.drop_first() =~= vs.skip(i + 1));
        i = i + 1;
    }
    None
}

/// Bookmarks `remote_path` (trimmed) in `scope`. An existing bookmark of
/// the scope for that path keeps its id and gets the new title when one is
/// given (a blank title keeps the old one); otherwise a bookmark with a new
/// id, `new_id`, is appended. Either way `now` is recorded as the time of
/// the change. Gives the bookmarks to store and the listing of `scope`.
pub fn upsert_workspace_file_bookmark_inner(
    bookmarks: Vec<WorkspaceFileBookmark>,
    scope: &str,
    remote_path: &str,
    title: Option<String>,
    now: Timestamp,
    new_id: u128,
) -> (res: Result<(Vec<WorkspaceFileBookmark>, Vec<WorkspaceFileBookmark>), HermesError>)
    ensures
        trimmed(remote_path@).len() == 0 <==> res is Err,
        res is Err ==> is_validation(res, PATH_REQUIRED@),
        res matches Ok((stored, listed)) ==> {
            let old = view_seq(bookmarks@);
            let path = trimmed(remote_path@);
            let new_title = spec_normalize_optional(opt_view(title));
            &&& view_seq(listed@) == spec_list_bookmarks(view_seq(stored@), scope@)
            &&& match first_bookmark(old, scope@, path) {
                Some(i) => {
                    let b = view_seq(stored@)[i];
                    &&& stored@.len() == old.len()
                    &&& forall|k: int|
                        0 <= k < old.len() && k != i ==> #[trigger] view_seq(stored@)[k] == old[k]
                    &&& b.id == old[i].id
                    &&& b.workspace_scope_fingerprint == scope@
                    &&& b.remote_path == path
                    &&& b.title == (if new_title is Some {
                        new_title
                    } else {
                        old[i].title
                    })
                    &&& b.created_at == old[i].created_at
                    &&& b.updated_at == now
                },
                None => {
                    let b = view_seq(stored@).last();
                    &&& view_seq(stored@).drop_last() == old
                    &&& stored@.len() == old.len() + 1
                    &&& b.workspace_scope_fingerprint == scope@
                    &&& b.remote_path == path
                    &&& b.title == new_title
                    &&& b.id == new_id
                    &&& b.created_at == now
                    &&& b.updated_at == now
                },
            }
        },
{
    let path = trim(remote_path);
    if path.as_str().is_empty() {
        return Err(HermesError::Validation(PATH_REQUIRED.to_owned()));
    }
    let new_title = normalize_optional(title);
    let mut stored = bookmarks;
    let ghost old = view_seq(stored@);
    proof {
        lemma_first_bookmark(old, scope@, path@);
    }
    match find_bookmark(&stored, scope, path.as_str()) {
        Some(index) => {
            let existing = stored.remove(index);
            assert(existing@ == old[index as int]);
            let kept_title = match new_title {
                Some(t) => Some(t),
                None => existing.title,
            };
            let updated = WorkspaceFileBookmark {
                id: existing.id,
                workspace_scope_fingerprint: existing.workspace_scope_fingerprint,
                remote_path: existing.remote_path,
                title: kept_title,
                created_at: existing.created_at,
                updated_at: now,
            };
            stored.insert(index, updated);
            assert(view_seq(stored@) =~= old.update(index as int, stored@[index as int]@));
        },
        None => {
            let created = WorkspaceFileBookmark {
                id: new_id,
                workspace_scope_fingerprint: string_of(&chars_of(scope)),
                remote_path: path,
                title: new_title,
                created_at: now,
                updated_at: now,
            };
            stored.push(created);
            assert(view_seq(stored@).drop_last() =~= old);
        },
    }
    let copy = duplicate_bookmarks(&stored);
    let listed = list_workspace_file_bookmarks_inner(copy, scope);
    Ok((stored, listed))
}

/// Removes every bookmark with id `id` (in any scope). Gives the bookmarks
/// to store and the listing of `scope`.
pub fn remove_workspace_file_bookmark_inner(
    bookmarks: Vec<WorkspaceFileBookmark>,
    scope: &str,
    id: &str,
) -> (res: Result<(Vec<WorkspaceFileBookmark>, Vec<WorkspaceFileBookmark>), HermesError>)
    ensures
        uuid_value(id@) is None <==> res is Err,
        res is Err ==> is_validation(res, INVALID_BOOKMARK_ID@),
        res matches Ok((stored, listed)) ==> {
            &&& view_seq(stored@) == without_id(view_seq(bookmarks@), uuid_value(id@).unwrap())
            &&& view_seq(listed@) == spec_list_bookmarks(view_seq(stored@), scope@)
        },
        is_hyphenated_uuid(id@) ==> uuid_value(id@) == Some(hyphenated_value(id@)),
        forall|v: u128|
            id@ == #[trigger] uuid_text(v) ==> (res matches Ok((stored, listed))
                && view_seq(stored@) == without_id(view_seq(bookmarks@), v)),
{
    proof {
        assert forall|v: u128| id@ == #[trigger] uuid_text(v) implies is_hyphenated_uuid(id@)
            && hyphenated_value(id@) == v by {
            lemma_uuid_text_round_trip(v);
        }
    }
    let bookmark_id = match parse_uuid(id) {
        Some(v) => v,
        None => return Err(HermesError::Validation(INVALID_BOOKMARK_ID.to_owned())),
    };
    let mut pending = bookmarks;
    let total = pending.len();
    let ghost all = pending@;
    let mut kept: Vec<WorkspaceFileBookmark> = Vec::new();
    let mut count: usize = 0;
    while pending.len() > 0
        invariant
            count + pending@.len() == all.len(),
            all.len() == total,
            pending@ == all.skip(count as int),
            view_seq(kept@) == without_id(view_seq(all.take(count as int)), bookmark_id),
        decreases pending@.len(),
    {
        let b = pending.remove(0);
        let ghost bv = b@;
        let ghost before = kept@;
        if b.id != bookmark_id {
            kept.push(b);
            assert(view_seq(kept@) =~= view_seq(before).push(bv));
        }
        proof {
            let t = view_seq(all.take(count + 1));
            assert(t.drop_last() =~= view_seq(all.take(count as int)));
            assert(t.last() == bv);
            lemma_filter_step(t, other_id_pred(bookmark_id));
        }
        count = count + 1;
        assert(pending@ =~= all.skip(count as int));
    }
    assert(all.take(count as int) =~= all);
    let copy = duplicate_bookmarks(&kept);
    let listed = list_workspace_file_bookmarks_inner(copy, scope);
    Ok((kept, listed))
}

// ---------------------------------------------------------------------------
// Laws
// ---------------------------------------------------------------------------

/// Listing a scope gives exactly the stored bookmarks of that scope, each as
/// often as it is stored, ordered by title case-insensitively, then path,
/// then id.
pub proof fn lemma_list_bookmarks_law(s: Seq<BookmarkView>, scope: Seq<char>)
    ensures
        sorted_by(spec_list_bookmarks(s, scope), bookmark_key_fn()),
        spec_list_bookmarks(s, scope).to_multiset() == bookmarks_in_scope(s, scope).to_multiset(),
        forall|b: BookmarkView|
            spec_list_bookmarks(s, scope).contains(b) <==> (s.contains(b)
                && b.workspace_scope_fingerprint == scope),
{
    lemma_sort_sorted(bookmarks_in_scope(s, scope), bookmark_key_fn());
    lemma_sort_permutation(bookmarks_in_scope(s, scope), bookmark_key_fn());
    lemma_sort_contains(bookmarks_in_scope(s, scope), bookmark_key_fn());
    lemma_filter_members(s, bookmark_scope_pred(scope));
}

/// After a removal no bookmark with that id remains, in any scope, and
/// every other bookmark stays.
pub proof fn lemma_remove_bookmark_law(s: Seq<BookmarkView>, id: u128)
    ensures
        forall|b: BookmarkView| without_id(s, id).contains(b) <==> (s.contains(b) && b.id != id),
{
    lemma_filter_members(s, other_id_pred(id));
}

/// After bookmarking a path in a scope (the stored bookmarks then hold one
/// of the scope for the path), the listing of the scope shows a bookmark
/// for the path.
pub proof fn lemma_upsert_bookmark_is_listed(
    stored: Seq<BookmarkView>,
    scope: Seq<char>,
    path: Seq<char>,
)
    requires
        exists|k: int|
            0 <= k < stored.len() && (#[trigger] stored[k]).workspace_scope_fingerprint == scope
                && stored[k].remote_path == path,
    ensures
        exists|b: BookmarkView| #[trigger]
            spec_list_bookmarks(stored, scope).contains(b) && b.remote_path == path,
{
    let k = choose|k: int|
        0 <= k < stored.len() && (#[trigger] stored[k]).workspace_scope_fingerprint == scope
            && stored[k].remote_path == path;
    lemma_list_bookmarks_law(stored, scope);
    assert(stored.contains(stored[k]));
    assert(spec_list_bookmarks(stored, scope).contains(stored[k]));
}

proof fn lemma_first_bookmark_found(s: Seq<BookmarkView>, scope: Seq<char>, path: Seq<char>, k: int)
    requires
        0 <= k < s.len(),
        s[k].workspace_scope_fingerprint == scope,
        s[k].remote_path == path,
    ensures
        first_bookmark(s, scope, path) is Some,
    decreases k,
{
    if k > 0 && !(s[0].workspace_scope_fingerprint == scope && s[0].remote_path == path) {
        lemma_first_bookmark_found(s.drop_first(), scope, path, k - 1);
    }
}

/// Bookmarking a path that the scope already has updates that bookmark in
/// place: once a scope has a bookmark for a path, the lookup that decides
/// between updating and adding finds it, so no second bookmark is added.
pub proof fn lemma_upsert_twice_keeps_one(stored: Seq<BookmarkView>, scope: Seq<char>, path: Seq<char>)
    requires
        exists|k: int|
            0 <= k < stored.len() && (#[trigger] stored[k]).workspace_scope_fingerprint == scope
                && stored[k].remote_path == path,
    ensures
        first_bookmark(stored, scope, path) is Some,
{
    let k = choose|k: int|
        0 <= k < stored.len() && (#[trigger] stored[k]).workspace_scope_fingerprint == scope
            && stored[k].remote_path == path;
    lemma_first_bookmark_found(stored, scope, path, k);
}

/// Every bookmark has a title to show.
pub proof fn lemma_display_title_not_empty(b: BookmarkView)
    ensures
        spec_display_title(b).len() > 0,
{
    reveal_strlit("Untitled file");
    let t = trimmed(b.remote_path);
    if t.len() > 0 {
        let w = if t.len() > 1 && t.last() == '/' {
            t.drop_last()
        } else {
            t
        };
        assert(w.len() > 0);
    }
}

/// Largest remote file, in bytes, that the editor opens.
pub const MAX_EDITABLE_FILE_BYTES: i64 = 10000000;

/// Most entries listed for a remote directory.
pub const MAX_DIRECTORY_ENTRIES: usize = 500;

/// Reads a remote text file with its SHA-256 content hash, up to the size limit of the request.
pub const FILE_READ_BODY: &'static str = r#"
import hashlib
import json
import pathlib

def editable_file_target(path):
    if path.is_symlink():
        try:
            resolved = path.resolve(strict=True)
        except FileNotFoundError:
            fail(f"{payload['path']} is a dangling symlink.")
        if not resolved.is_file():
            fail(f"{payload['path']} points to a non-file target.")
        return resolved

    return path

try:
    requested = expand_remote_path(payload["path"]) or pathlib.Path(payload["path"])
    target = editable_file_target(requested)
    if not target.exists():
        fail(f"{payload['path']} does not exist on the active host.")
    if not target.is_file():
        fail(f"{payload['path']} is not a regular file.")

    size = target.stat().st_size
    max_size = int(payload.get("max_editable_bytes") or 0)
    if max_size > 0 and size > max_size:
        size_mb = size / 1000000
        limit_mb = max_size / 1000000
        fail(f"This file is {size_mb:.1f} MB. Hermes Desktop can edit remote text files up to {limit_mb:g} MB.")

    raw_content = target.read_bytes()
    content_hash = hashlib.sha256(raw_content).hexdigest()
    content = raw_content.decode("utf-8")
    print(json.dumps({
        "ok": True,
        "content": content,
        "content_hash": content_hash,
    }, ensure_ascii=False))
except UnicodeDecodeError:
    fail(f"{payload['path']} is not valid UTF-8.")
except PermissionError:
    fail(f"Permission denied while reading {payload['path']}.")
except Exception as exc:
    fail(f"Unable to read {payload['path']}: {exc}")
"#;

/// Lists a remote directory, directories first, up to the entry limit of the request.
pub const DIRECTORY_LIST_BODY: &'static str = r#"
import json
import os
import pathlib

try:
    home = pathlib.Path.home()
    hermes_home = resolved_hermes_home(payload)
    requested_path = payload.get("path") or payload.get("hermes_home") or str(hermes_home)
    target = expand_remote_path(requested_path, home=home, base_dir=hermes_home)

    if not target.exists():
        fail(f"{payload['path']} does not exist on the active host.")
    if not target.is_dir():
        fail(f"{payload['path']} is not a directory.")

    max_entries = int(payload.get("max_entries") or 500)
    children = list(target.iterdir())

    def entry_sort_key(item):
        try:
            is_directory = item.is_dir()
        except OSError:
            is_directory = False
        return (0 if is_directory else 1, item.name.lower())

    children.sort(key=entry_sort_key)
    limited_children = children[:max_entries]

    entries = []
    for item in limited_children:
        stat_result = None
        try:
            stat_result = item.stat()
        except OSError:
            stat_result = None

        try:
            is_directory = item.is_dir()
        except OSError:
            is_directory = False

        try:
            is_file = item.is_file()
        except OSError:
            is_file = False

        is_symlink = item.is_symlink()
        if is_symlink:
            kind = "symlink"
        elif is_directory:
            kind = "directory"
        elif is_file:
            kind = "file"
        else:
            kind = "other"

        entries.append({
            "name": item.name,
            "path": item.as_posix(),
            "display_path": tilde(item, home),
            "kind": kind,
            "size": None if is_directory or stat_result is None else stat_result.st_size,
            "modified_at": None if stat_result is None else stat_result.st_mtime,
            "is_readable": os.access(item, os.R_OK),
            "is_writable": os.access(item, os.W_OK),
            "is_symlink": is_symlink,
        })

    parent = target.parent if target.parent != target else None

    print(json.dumps({
        "ok": True,
        "requested_path": requested_path,
        "resolved_path": target.as_posix(),
        "display_path": tilde(target, home),
        "parent_path": None if parent is None else parent.as_posix(),
        "parent_display_path": None if parent is None else tilde(parent, home),
        "entries": entries,
        "total_entry_count": len(children),
        "is_truncated": len(children) > len(limited_children),
    }, ensure_ascii=False))
except PermissionError:
    fail(f"Permission denied while reading {payload['path']}.")
except Exception as exc:
    fail(f"Unable to list {payload['path']}: {exc}")
"#;

/// Writes a remote file atomically, refusing when it changed since it was read.
pub const FILE_WRITE_BODY: &'static str = r#"
import hashlib
import json
import os
import pathlib
import tempfile

temp_name = None
directory_fd = None
content_bytes = payload["content"].encode("utf-8")
expected_hash = payload.get("expected_content_hash")

def editable_file_target(path):
    if path.is_symlink():
        try:
            resolved = path.resolve(strict=True)
        except FileNotFoundError:
            fail(f"{payload['path']} is a dangling symlink.")
        if not resolved.is_file():
            fail(f"{payload['path']} points to a non-file target.")
        return resolved

    return path

try:
    requested = expand_remote_path(payload["path"]) or pathlib.Path(payload["path"])
    target = editable_file_target(requested)

    if expected_hash is not None:
        if not target.exists():
            fail(f"{payload['path']} was removed on the active host after it was loaded. Reload from Remote before saving.")
        if not target.is_file():
            fail(f"{payload['path']} is not a regular file anymore. Reload from Remote before saving.")

        current_bytes = target.read_bytes()
        current_hash = hashlib.sha256(current_bytes).hexdigest()
        if current_hash != expected_hash:
            fail(f"{payload['path']} changed on the active host after it was loaded. Reload from Remote before saving.")

    target.parent.mkdir(parents=True, exist_ok=True)

    fd, temp_name = tempfile.mkstemp(
        dir=str(target.parent),
        prefix=f".{target.name}.",
        suffix=".tmp",
    )

    with os.fdopen(fd, "wb") as handle:
        handle.write(content_bytes)
        handle.flush()
        os.fsync(handle.fileno())

    if target.exists():
        os.chmod(temp_name, target.stat().st_mode)

    os.replace(temp_name, target)

    directory_fd = os.open(target.parent, os.O_RDONLY)
    os.fsync(directory_fd)

    print(json.dumps({
        "ok": True,
        "path": payload["path"],
        "content_hash": hashlib.sha256(content_bytes).hexdigest(),
    }, ensure_ascii=False))
except PermissionError:
    fail(f"Permission denied while writing {payload['path']}.")
except Exception as exc:
    fail(f"Unable to write {payload['path']}: {exc}")
finally:
    if directory_fd is not None:
        os.close(directory_fd)
    if temp_name and os.path.exists(temp_name):
        os.unlink(temp_name)
"#;

} // verus!
