//! Workflow presets: prompts with assigned skills, stored per workspace scope,
//! and the Hermes command lines that launch them.

use vstd::prelude::*;

use crate::error::HermesError;
use crate::identity::{
    hyphenated_value, is_hyphenated_uuid, lemma_uuid_text_round_trip, parse_uuid, uuid_text,
    uuid_value, Timestamp,
};
use crate::models::ConnectionProfile;
use crate::sort::{
    distinct_by, lemma_filter_members, lemma_filter_step, lemma_sort_contains, lemma_sort_distinct, lemma_sort_members, lemma_sort_of_sorted, lemma_sort_sorted,
    seconds, sort_by_key, sort_by_view_key, sorted_by, view_seq, KeyView, SortKey,
};
use crate::ssh::views;
use crate::text::{
    append_str, chars_eq, chars_of, join, join_with, lines, lines_of, split_chars,
    split_on, str_eq, string_of, to_lowercase, trim, trim_chars, trimmed, unicode_lowercase,
    TrimSet, lemma_split_on_nonempty, lemma_join_with_chars, lemma_lines_have_no_newline,
    lemma_trim_by_keeps_chars, lemma_trimmed_idempotent,
};

verus! {

// ---------------------------------------------------------------------------
// Data
// ---------------------------------------------------------------------------

/// A skill assigned to a workflow.
#[derive(Debug)]
pub struct WorkflowSkillReference {
    /// Path of the skill below its source, such as `ops/release`.
    pub relative_path: String,
    /// Name used to invoke the skill in chat, such as `release`.
    pub slug: String,
    /// Display name.
    pub name: Option<String>,
}

/// The view of a [`WorkflowSkillReference`].
pub struct SkillReferenceView {
    pub relative_path: Seq<char>,
    pub slug: Seq<char>,
    pub name: Option<Seq<char>>,
}

impl View for WorkflowSkillReference {
    type V = SkillReferenceView;

    open spec fn view(&self) -> SkillReferenceView {
        SkillReferenceView {
            relative_path: self.relative_path@,
            slug: self.slug@,
            name: match self.name {
                Some(n) => Some(n@),
                None => None,
            },
        }
    }
}

impl WorkflowSkillReference {
    /// A copy of this reference.
    pub fn duplicate(&self) -> (res: Self)
        ensures
            res@ == self@,
    {
        WorkflowSkillReference {
            relative_path: self.relative_path.clone(),
            slug: self.slug.clone(),
            name: match &self.name {
                Some(n) => Some(n.clone()),
                None => None,
            },
        }
    }
}

/// A saved workflow: a prompt and the skills to load with it, belonging to
/// one workspace scope.
#[derive(Debug)]
pub struct WorkflowPreset {
    pub id: u128,
    pub workspace_scope_fingerprint: String,
    pub name: String,
    pub prompt: String,
    pub assigned_skills: Vec<WorkflowSkillReference>,
    pub created_at: Timestamp,
    pub updated_at: Timestamp,
}

/// The view of a [`WorkflowPreset`].
pub struct WorkflowPresetView {
    pub id: u128,
    pub workspace_scope_fingerprint: Seq<char>,
    pub name: Seq<char>,
    pub prompt: Seq<char>,
    pub assigned_skills: Seq<SkillReferenceView>,
    pub created_at: Timestamp,
    pub updated_at: Timestamp,
}

impl View for WorkflowPreset {
    type V = WorkflowPresetView;

    open spec fn view(&self) -> WorkflowPresetView {
        WorkflowPresetView {
            id: self.id,
            workspace_scope_fingerprint: self.workspace_scope_fingerprint@,
            name: self.name@,
            prompt: self.prompt@,
            assigned_skills: view_seq(self.assigned_skills@),
            created_at: self.created_at,
            updated_at: self.updated_at,
        }
    }
}

fn duplicate_references(v: &Vec<WorkflowSkillReference>) -> (res: Vec<WorkflowSkillReference>)
    ensures
        view_seq(res@) == view_seq(v@),
{
    let mut out: Vec<WorkflowSkillReference> = Vec::new();
    let mut i: usize = 0;
    while i < v.len()
        invariant
            i <= v.len(),
            view_seq(out@) == view_seq(v@.take(i as int)),
        decreases v.len() - i,
    {
        out.push(v[i].duplicate());
        assert(view_seq(v@.take(i + 1)) =~= view_seq(v@.take(i as int)).push(v@[i as int]@));
        i = i + 1;
    }
    assert(v@.take(v.len() as int) =~= v@);
    out
}

impl WorkflowPreset {
    /// A copy of this workflow.
    pub fn duplicate(&self) -> (res: Self)
        ensures
            res@ == self@,
    {
        WorkflowPreset {
            id: self.id,
            workspace_scope_fingerprint: self.workspace_scope_fingerprint.clone(),
            name: self.name.clone(),
            prompt: self.prompt.clone(),
            assigned_skills: duplicate_references(&self.assigned_skills),
            created_at: self.created_at,
            updated_at: self.updated_at,
        }
    }
}

fn duplicate_presets(v: &Vec<WorkflowPreset>) -> (res: Vec<WorkflowPreset>)
    ensures
        view_seq(res@) == view_seq(v@),
{
    let mut out: Vec<WorkflowPreset> = Vec::new();
    let mut i: usize = 0;
    while i < v.len()
        invariant
            i <= v.len(),
            view_seq(out@) == view_seq(v@.take(i as int)),
        decreases v.len() - i,
    {
        out.push(v[i].duplicate());
        assert(view_seq(v@.take(i + 1)) =~= view_seq(v@.take(i as int)).push(v@[i as int]@));
        i = i + 1;
    }
    assert(v@.take(v.len() as int) =~= v@);
    out
}

/// What the user entered for a new or edited workflow.
#[derive(Debug)]
pub struct WorkflowDraftPayload {
    pub name: String,
    pub prompt: String,
    pub assigned_skills: Vec<WorkflowSkillReference>,
}

/// What it takes to launch a workflow: the Hermes arguments and the input
/// to type for a plain chat start, and for a start in the terminal UI. The
/// caller quotes the arguments for display (see
/// [`hermes_cli_preview_command`]) and wraps them for the remote shell.
#[derive(Debug)]
pub struct WorkflowLaunchPlan {
    pub arguments: Vec<String>,
    pub initial_input: String,
    pub chat_arguments: Vec<String>,
    pub chat_initial_input: String,
}

// ---------------------------------------------------------------------------
// Specifications
// ---------------------------------------------------------------------------

pub open spec fn in_scope(w: WorkflowPresetView, scope: Seq<char>) -> bool {
    w.workspace_scope_fingerprint == scope
}

pub open spec fn scope_pred(scope: Seq<char>) -> spec_fn(WorkflowPresetView) -> bool {
    |w: WorkflowPresetView| in_scope(w, scope)
}

/// The workflows of `scope`, in their stored order.
pub open spec fn scope_filter(s: Seq<WorkflowPresetView>, scope: Seq<char>) -> Seq<
    WorkflowPresetView,
> {
    s.filter(scope_pred(scope))
}

/// Workflows are listed by name, case-insensitively.
pub open spec fn workflow_key(w: WorkflowPresetView) -> KeyView {
    (unicode_lowercase(w.name), Seq::<char>::empty(), 0u128)
}

pub open spec fn workflow_key_fn() -> spec_fn(WorkflowPresetView) -> KeyView {
    |w: WorkflowPresetView| workflow_key(w)
}

/// The workflows of `scope`, sorted by lower-cased name, stably.
pub open spec fn spec_list_workflows(s: Seq<WorkflowPresetView>, scope: Seq<char>) -> Seq<
    WorkflowPresetView,
> {
    sort_by_key(scope_filter(s, scope), workflow_key_fn())
}

pub open spec fn is_target(w: WorkflowPresetView, id: u128, scope: Seq<char>) -> bool {
    w.id == id && in_scope(w, scope)
}

pub open spec fn keep_pred(id: u128, scope: Seq<char>) -> spec_fn(WorkflowPresetView) -> bool {
    |w: WorkflowPresetView| !is_target(w, id, scope)
}

/// `s` without the workflow `id` of `scope`.
pub open spec fn remove_target(s: Seq<WorkflowPresetView>, id: u128, scope: Seq<char>) -> Seq<
    WorkflowPresetView,
> {
    s.filter(keep_pred(id, scope))
}

/// The position of the first workflow `id` of `scope` in `s`.
pub open spec fn first_target(s: Seq<WorkflowPresetView>, id: u128, scope: Seq<char>) -> Option<
    int,
>
    decreases s.len(),
{
    if s.len() == 0 {
        None
    } else if is_target(s[0], id, scope) {
        Some(0)
    } else {
        match first_target(s.drop_first(), id, scope) {
            Some(i) => Some(i + 1),
            None => None,
        }
    }
}

pub const INVALID_WORKFLOW_ID: &'static str = "The workflow id is not a valid UUID.";

pub const MISSING_WORKFLOW: &'static str = "The workflow does not exist.";

pub const NAME_REQUIRED: &'static str = "Workflow name is required.";

pub const PROMPT_REQUIRED: &'static str = "Workflow prompt is required.";

/// `res` is a validation error with message `m`.
pub open spec fn is_validation<T>(res: Result<T, HermesError>, m: Seq<char>) -> bool {
    res matches Err(e) && e matches HermesError::Validation(msg) && msg@ == m
}

/// The error of an invalid draft: a blank name, else a blank prompt.
pub open spec fn draft_error(name: Seq<char>, prompt: Seq<char>) -> Option<Seq<char>> {
    if trimmed(name).len() == 0 {
        Some(NAME_REQUIRED@)
    } else if trimmed(prompt).len() == 0 {
        Some(PROMPT_REQUIRED@)
    } else {
        None
    }
}

/// The text after the last `'/'` of a path (the whole path without one).
pub open spec fn last_segment(path: Seq<char>) -> Seq<char> {
    split_on(path, '/').last()
}

/// A reference with trimmed texts, a blank name dropped, and a blank slug
/// replaced by the last segment of the path.
pub open spec fn normalize_reference(r: SkillReferenceView) -> SkillReferenceView {
    let path = trimmed(r.relative_path);
    let slug = trimmed(r.slug);
    SkillReferenceView {
        relative_path: path,
        slug: if slug.len() == 0 {
            last_segment(path)
        } else {
            slug
        },
        name: match r.name {
            Some(n) => if trimmed(n).len() > 0 {
                Some(trimmed(n))
            } else {
                None
            },
            None => None,
        },
    }
}

/// The normalized references that have a path.
pub open spec fn normalized_with_path(s: Seq<SkillReferenceView>) -> Seq<SkillReferenceView>
    decreases s.len(),
{
    if s.len() == 0 {
        s
    } else {
        let rest = normalized_with_path(s.drop_last());
        let n = normalize_reference(s.last());
        if n.relative_path.len() > 0 {
            rest.push(n)
        } else {
            rest
        }
    }
}

/// A later reference in `s` has the same path as `s[i]`.
pub open spec fn path_repeats_later(s: Seq<SkillReferenceView>, i: int) -> bool {
    exists|j: int| i < j < s.len() && #[trigger] s[j].relative_path == s[i].relative_path
}

/// For each path, its last reference, in the order of those references.
pub open spec fn last_per_path(s: Seq<SkillReferenceView>) -> Seq<SkillReferenceView>
    decreases s.len(),
{
    if s.len() == 0 {
        s
    } else {
        let rest = last_per_path(s.drop_first());
        if path_repeats_later(s, 0) {
            rest
        } else {
            seq![s[0]] + rest
        }
    }
}

/// References are ordered by lower-cased slug, then lower-cased path.
pub open spec fn reference_key(r: SkillReferenceView) -> KeyView {
    (unicode_lowercase(r.slug), unicode_lowercase(r.relative_path), 0u128)
}

pub open spec fn reference_key_fn() -> spec_fn(SkillReferenceView) -> KeyView {
    |r: SkillReferenceView| reference_key(r)
}

/// The skills kept for a workflow: normalized, those without a path
/// dropped, one per path (the last one given), sorted by slug and path.
pub open spec fn spec_normalized_references(s: Seq<SkillReferenceView>) -> Seq<
    SkillReferenceView,
> {
    sort_by_key(last_per_path(normalized_with_path(s)), reference_key_fn())
}

/// `--profile <name>` when the profile names a Hermes profile and uses the
/// default Hermes home.
pub open spec fn profile_arguments(profile: ConnectionProfile) -> Seq<Seq<char>> {
    match profile.hermes_profile {
        Some(name) => if profile.custom_hermes_home_path is None && trimmed(name@).len() > 0 {
            seq!["--profile"@, trimmed(name@)]
        } else {
            Seq::<Seq<char>>::empty()
        },
        None => Seq::<Seq<char>>::empty(),
    }
}

/// The trimmed, non-empty skill paths, each once, in first-seen order.
pub open spec fn distinct_paths(s: Seq<SkillReferenceView>) -> Seq<Seq<char>>
    decreases s.len(),
{
    if s.len() == 0 {
        Seq::<Seq<char>>::empty()
    } else {
        let rest = distinct_paths(s.drop_last());
        let path = trimmed(s.last().relative_path);
        if path.len() == 0 || rest.contains(path) {
            rest
        } else {
            rest.push(path)
        }
    }
}

/// `--skills <path>` for each path.
pub open spec fn skills_flags(paths: Seq<Seq<char>>) -> Seq<Seq<char>>
    decreases paths.len(),
{
    if paths.len() == 0 {
        Seq::<Seq<char>>::empty()
    } else {
        skills_flags(paths.drop_last()) + seq!["--skills"@, paths.last()]
    }
}

/// The Hermes arguments that start a workflow: the profile, each skill, and
/// `chat`.
pub open spec fn spec_workflow_arguments(profile: ConnectionProfile, w: WorkflowPresetView) -> Seq<
    Seq<char>,
> {
    profile_arguments(profile) + skills_flags(distinct_paths(w.assigned_skills)) + seq!["chat"@]
}

/// The Hermes arguments that start the terminal chat UI.
pub open spec fn spec_chat_arguments(profile: ConnectionProfile) -> Seq<Seq<char>> {
    profile_arguments(profile) + seq!["--tui"@]
}

/// The trimmed lines that are not blank.
pub open spec fn nonblank_trimmed(ls: Seq<Seq<char>>) -> Seq<Seq<char>>
    decreases ls.len(),
{
    if ls.len() == 0 {
        ls
    } else {
        let rest = nonblank_trimmed(ls.drop_last());
        if trimmed(ls.last()).len() > 0 {
            rest.push(trimmed(ls.last()))
        } else {
            rest
        }
    }
}

/// A prompt on one line: its trimmed non-blank lines joined by spaces.
pub open spec fn spec_prompt_for_launch(prompt: Seq<char>) -> Seq<char> {
    join_with(nonblank_trimmed(lines_of(prompt)), " "@)
}

/// `/<slug>` for each skill with a non-blank slug.
pub open spec fn slash_commands(s: Seq<SkillReferenceView>) -> Seq<Seq<char>>
    decreases s.len(),
{
    if s.len() == 0 {
        Seq::<Seq<char>>::empty()
    } else {
        let rest = slash_commands(s.drop_last());
        let slug = trimmed(s.last().slug);
        if slug.len() > 0 {
            rest.push(seq!['/'] + slug)
        } else {
            rest
        }
    }
}

/// What is typed into the chat UI: a slash command per skill, then the
/// prompt, one per line.
pub open spec fn spec_chat_initial_input(w: WorkflowPresetView) -> Seq<char> {
    let prompt = spec_prompt_for_launch(w.prompt);
    join_with(
        if prompt.len() > 0 {
            slash_commands(w.assigned_skills).push(prompt)
        } else {
            slash_commands(w.assigned_skills)
        },
        "\n"@,
    )
}

// ---------------------------------------------------------------------------
// Listing and removal
// ---------------------------------------------------------------------------

/// The workflows of `scope` (the fingerprint of the workspace), sorted by
/// name case-insensitively; workflows with equal names keep their stored
/// order.
pub fn list_workflows_inner(workflows: Vec<WorkflowPreset>, scope: &str) -> (res: Vec<
    WorkflowPreset,
>)
    ensures
        view_seq(res@) == spec_list_workflows(view_seq(workflows@), scope@),
{
    let mut pending = workflows;
    let total = pending.len();
    let ghost all = pending@;
    let mut pairs: Vec<(SortKey, WorkflowPreset)> = Vec::new();
    let mut count: usize = 0;
    while pending.len() > 0
        invariant
            count + pending@.len() == all.len(),
            all.len() == total,
            pending@ == all.skip(count as int),
            view_seq(seconds(pairs@)) == scope_filter(view_seq(all.take(count as int)), scope@),
            forall|k: int|
                0 <= k < pairs@.len() ==> (#[trigger] pairs@[k]).0@ == workflow_key(
                    pairs@[k].1@,
                ),
        decreases pending@.len(),
    {
        let w = pending.remove(0);
        let ghost wv = w@;
        let ghost before = pairs@;
        let matches = str_eq(w.workspace_scope_fingerprint.as_str(), scope);
        if matches {
            let lowered = to_lowercase(w.name.as_str());
            let key = SortKey { primary: chars_of(lowered.as_str()), secondary: Vec::new(), tiebreak: 0 };
            pairs.push((key, w));
            assert(view_seq(seconds(pairs@)) =~= view_seq(seconds(before)).push(wv));
        }
        proof {
            let t = view_seq(all.take(count + 1));
            assert(t.drop_last() =~= view_seq(all.take(count as int)));
            assert(t.last() == wv);
            lemma_filter_step(t, scope_pred(scope@));
        }
        count = count + 1;
        assert(pending@ =~= all.skip(count as int));
    }
    assert(all.take(count as int) =~= all);
    sort_by_view_key(pairs, Ghost(workflow_key_fn()))
}

/// Parses a workflow id; an invalid one is a validation error.
pub fn parse_workflow_id(id: &str) -> (res: Result<u128, HermesError>)
    ensures
        uuid_value(id@) matches Some(v) ==> res == Ok::<u128, HermesError>(v),
        uuid_value(id@) is None ==> is_validation(res, INVALID_WORKFLOW_ID@),
        is_hyphenated_uuid(id@) ==> uuid_value(id@) == Some(hyphenated_value(id@)),
        forall|v: u128| id@ == #[trigger] uuid_text(v) ==> res == Ok::<u128, HermesError>(v),
{
    proof {
        assert forall|v: u128| id@ == #[trigger] uuid_text(v) implies is_hyphenated_uuid(id@)
            && hyphenated_value(id@) == v by {
            lemma_uuid_text_round_trip(v);
        }
    }
    match parse_uuid(id) {
        Some(v) => Ok(v),
        None => Err(HermesError::Validation(INVALID_WORKFLOW_ID.to_owned())),
    }
}

/// Removes the workflow `workflow_id` of `scope`. Gives the workflows to
/// store and the listing of `scope` after the removal.
pub fn delete_workflow_inner(workflows: Vec<WorkflowPreset>, scope: &str, workflow_id: &str) -> (res:
    Result<(Vec<WorkflowPreset>, Vec<WorkflowPreset>), HermesError>)
    ensures
        uuid_value(workflow_id@) is None <==> res is Err,
        res is Err ==> is_validation(res, INVALID_WORKFLOW_ID@),
        res matches Ok((stored, listed)) ==> {
            &&& view_seq(stored@) == remove_target(
                view_seq(workflows@),
                uuid_value(workflow_id@).unwrap(),
                scope@,
            )
            &&& view_seq(listed@) == spec_list_workflows(view_seq(stored@), scope@)
        },
        is_hyphenated_uuid(workflow_id@) ==> uuid_value(workflow_id@) == Some(
            hyphenated_value(workflow_id@),
        ),
        forall|v: u128|
            workflow_id@ == #[trigger] uuid_text(v) ==> (res matches Ok((stored, listed))
                && view_seq(stored@) == remove_target(view_seq(workflows@), v, scope@)),
{
    let id = match parse_workflow_id(workflow_id) {
        Ok(v) => v,
        Err(e) => return Err(e),
    };
    let mut pending = workflows;
    let total = pending.len();
    let ghost all = pending@;
    let mut kept: Vec<WorkflowPreset> = Vec::new();
    let mut count: usize = 0;
    while pending.len() > 0
        invariant
            count + pending@.len() == all.len(),
            all.len() == total,
            pending@ == all.skip(count as int),
            view_seq(kept@) == remove_target(view_seq(all.take(count as int)), id, scope@),
        decreases pending@.len(),
    {
        let w = pending.remove(0);
        let ghost wv = w@;
        let ghost before = kept@;
        let target = w.id == id && str_eq(w.workspace_scope_fingerprint.as_str(), scope);
        if !target {
            kept.push(w);
            assert(view_seq(kept@) =~= view_seq(before).push(wv));
        }
        proof {
            let t = view_seq(all.take(count + 1));
            assert(t.drop_last() =~= view_seq(all.take(count as int)));
            assert(t.last() == wv);
            lemma_filter_step(t, keep_pred(id, scope@));
        }
        count = count + 1;
        assert(pending@ =~= all.skip(count as int));
    }
    assert(all.take(count as int) =~= all);
    let copy = duplicate_presets(&kept);
    let listed = list_workflows_inner(copy, scope);
    Ok((kept, listed))
}

// ---------------------------------------------------------------------------
// Drafts
// ---------------------------------------------------------------------------

/// A draft needs a name and a prompt that are not blank.
pub fn validate_draft(draft: &WorkflowDraftPayload) -> (res: Result<(), HermesError>)
    ensures
        draft_error(draft.name@, draft.prompt@) is None <==> res is Ok,
        draft_error(draft.name@, draft.prompt@) matches Some(m) ==> is_validation(res, m),
{
    let name = trim(draft.name.as_str());
    if name.as_str().is_empty() {
        return Err(HermesError::Validation(NAME_REQUIRED.to_owned()));
    }
    let prompt = trim(draft.prompt.as_str());
    if prompt.as_str().is_empty() {
        return Err(HermesError::Validation(PROMPT_REQUIRED.to_owned()));
    }
    Ok(())
}

fn normalize_reference_exec(r: &WorkflowSkillReference) -> (res: WorkflowSkillReference)
    ensures
        res@ == normalize_reference(r@),
{
    let path = trim(r.relative_path.as_str());
    let slug0 = trim(r.slug.as_str());
    let slug = if slug0.as_str().is_empty() {
        let chars = chars_of(path.as_str());
        let pieces = split_chars(&chars, '/');
        proof {
            lemma_split_on_nonempty(path@, '/');
        }
        let last = &pieces[pieces.len() - 1];
        string_of(last)
    } else {
        slug0
    };
    let name = match &r.name {
        Some(n) => {
            let t = trim(n.as_str());
            if t.as_str().is_empty() {
                None
            } else {
                Some(t)
            }
        },
        None => None,
    };
    WorkflowSkillReference { relative_path: path, slug, name }
}

/// Whether a reference after position `i` has the path of `refs[i]`.
fn path_repeats_after(refs: &Vec<WorkflowSkillReference>, i: usize) -> (res: bool)
    requires
        i < refs@.len(),
    ensures
        res == path_repeats_later(view_seq(refs@), i as int),
{
    let ghost vs = view_seq(refs@);
    let n = refs.len();
    let mut j: usize = i + 1;
    while j < n
        invariant
            i < j <= refs@.len(),
            n == refs@.len(),
            vs == view_seq(refs@),
            forall|k: int| i < k < j ==> #[trigger] vs[k].relative_path != vs[i as int].relative_path,
        decreases refs.len() - j,
    {
        if str_eq(refs[j].relative_path.as_str(), refs[i].relative_path.as_str()) {
            assert(vs[j as int].relative_path == vs[i as int].relative_path);
            return true;
        }
        j = j + 1;
    }
    false
}

/// Normalizes the skills of a draft: texts trimmed, blank names dropped, a
/// blank slug replaced by the last segment of the path, references without
/// a path dropped, one reference per path (the last one given), sorted by
/// slug then path, case-insensitively.
pub fn normalized_skill_references(references: Vec<WorkflowSkillReference>) -> (res: Vec<
    WorkflowSkillReference,
>)
    ensures
        view_seq(res@) == spec_normalized_references(view_seq(references@)),
{
    let ghost input = view_seq(references@);
    let mut normalized: Vec<WorkflowSkillReference> = Vec::new();
    let mut i: usize = 0;
    while i < references.len()
        invariant
            i <= references@.len(),
            input == view_seq(references@),
            view_seq(normalized@) == normalized_with_path(input.take(i as int)),
        decreases references.len() - i,
    {
        let n = normalize_reference_exec(&references[i]);
        let ghost before = normalized@;
        proof {
            let t = input.take(i + 1);
            assert(t.drop_last() =~= input.take(i as int));
            assert(t.last() == references@[i as int]@);
        }
        if !n.relative_path.as_str().is_empty() {
            normalized.push(n);
            assert(view_seq(normalized@) =~= view_seq(before).push(normalized@.last()@));
        }
        i = i + 1;
    }
    assert(input.take(references@.len() as int) =~= input);
    let ghost nv = view_seq(normalized@);
    let mut kept: Vec<WorkflowSkillReference> = Vec::new();
    let mut k: usize = normalized.len();
    assert(nv.skip(k as int) =~= Seq::<SkillReferenceView>::empty());
    while k > 0
        invariant
            k <= normalized@.len(),
            nv == view_seq(normalized@),
            view_seq(kept@) == last_per_path(nv.skip(k as int)),
        decreases k,
    {
        k = k - 1;
        let repeats = path_repeats_after(&normalized, k);
        let ghost before = kept@;
        proof {
            let t = nv.skip(k as int);
            assert(t.drop_first() =~= nv.skip(k + 1));
            assert(t[0] == nv[k as int]);
            if path_repeats_later(nv, k as int) {
                let j = choose|j: int| k < j < nv.len() && #[trigger] nv[j].relative_path
                    == nv[k as int].relative_path;
                assert(t[j - k].relative_path == t[0].relative_path);
            }
            if path_repeats_later(t, 0) {
                let j = choose|j: int| 0 < j < t.len() && #[trigger] t[j].relative_path
                    == t[0].relative_path;
                assert(nv[j + k].relative_path == nv[k as int].relative_path);
            }
        }
        if !repeats {
            let copy = normalized[k].duplicate();
            kept.insert(0, copy);
            assert(view_seq(kept@) =~= seq![nv[k as int]] + view_seq(before));
        }
    }
    let ghost kv = view_seq(kept@);
    let mut pending = kept;
    let total = pending.len();
    let ghost all = pending@;
    let mut pairs: Vec<(SortKey, WorkflowSkillReference)> = Vec::new();
    let mut count: usize = 0;
    while pending.len() > 0
        invariant
            count + pending@.len() == all.len(),
            all.len() == total,
            pending@ == all.skip(count as int),
            view_seq(seconds(pairs@)) == view_seq(all.take(count as int)),
            forall|q: int|
                0 <= q < pairs@.len() ==> (#[trigger] pairs@[q]).0@ == reference_key(
                    pairs@[q].1@,
                ),
        decreases pending@.len(),
    {
        let r = pending.remove(0);
        let ghost before = pairs@;
        let ghost rv = r@;
        assert(rv == all[count as int]@);
        let slug = to_lowercase(r.slug.as_str());
        let path = to_lowercase(r.relative_path.as_str());
        let key = SortKey {
            primary: chars_of(slug.as_str()),
            secondary: chars_of(path.as_str()),
            tiebreak: 0,
        };
        pairs.push((key, r));
        assert(view_seq(all.take(count + 1)) =~= view_seq(all.take(count as int)).push(rv));
        assert(view_seq(seconds(pairs@)) =~= view_seq(seconds(before)).push(rv));
        count = count + 1;
        assert(pending@ =~= all.skip(count as int));
    }
    assert(all.take(count as int) =~= all);
    assert(nv.skip(0) =~= nv);
    sort_by_view_key(pairs, Ghost(reference_key_fn()))
}

/// Creates a workflow of `scope` from a valid draft: trimmed name and
/// prompt, normalized skills, the new id `id`, and `now` as both creation
/// and update time. Gives the workflows to store (the new one appended) and
/// the new workflow.
pub fn create_workflow_inner(
    workflows: Vec<WorkflowPreset>,
    scope: &str,
    draft: WorkflowDraftPayload,
    now: Timestamp,
    id: u128,
) -> (res: Result<(Vec<WorkflowPreset>, WorkflowPreset), HermesError>)
    ensures
        draft_error(draft.name@, draft.prompt@) is None <==> res is Ok,
        draft_error(draft.name@, draft.prompt@) matches Some(m) ==> is_validation(res, m),
        res matches Ok((stored, created)) ==> {
            &&& created.workspace_scope_fingerprint@ == scope@
            &&& created.name@ == trimmed(draft.name@)
            &&& created.prompt@ == trimmed(draft.prompt@)
            &&& view_seq(created.assigned_skills@) == spec_normalized_references(
                view_seq(draft.assigned_skills@),
            )
            &&& created.id == id
            &&& created.created_at == now
            &&& created.updated_at == now
            &&& view_seq(stored@) == view_seq(workflows@).push(created@)
        },
{
    match validate_draft(&draft) {
        Ok(()) => {},
        Err(e) => return Err(e),
    }
    let name = trim(draft.name.as_str());
    let prompt = trim(draft.prompt.as_str());
    let skills = normalized_skill_references(draft.assigned_skills);
    let workflow = WorkflowPreset {
        id,
        workspace_scope_fingerprint: string_of(&chars_of(scope)),
        name,
        prompt,
        assigned_skills: skills,
        created_at: now,
        updated_at: now,
    };
    let mut stored = workflows;
    let ghost before = view_seq(stored@);
    let copy = workflow.duplicate();
    stored.push(copy);
    assert(view_seq(stored@) =~= before.push(workflow@));
    Ok((stored, workflow))
}

/// Finds the first workflow `id` of `scope`.
fn find_target(workflows: &Vec<WorkflowPreset>, id: u128, scope: &str) -> (res: Option<usize>)
    ensures
        match first_target(view_seq(workflows@), id, scope@) {
            Some(i) => res matches Some(k) && k == i && 0 <= i < workflows@.len(),
            None => res is None,
        },
{
    let ghost vs = view_seq(workflows@);
    let mut i: usize = 0;
    assert(vs.skip(0) =~= vs);
    while i < workflows.len()
        invariant
            i <= workflows@.len(),
            vs == view_seq(workflows@),
            first_target(vs, id, scope@) == match first_target(vs.skip(i as int), id, scope@) {
                Some(j) => Some(j + i),
                None => None::<int>,
            },
        decreases workflows.len() - i,
    {
        let ghost t = vs.skip(i as int);
        assert(t[0] == vs[i as int]);
        if workflows[i].id == id && str_eq(workflows[i].workspace_scope_fingerprint.as_str(), scope) {
            return Some(i);
        }
        assert(t.drop_first() =~= vs.skip(i + 1));
        i = i + 1;
    }
    None
}

/// Replaces the name, prompt and skills of the workflow `workflow_id` of
/// `scope` with those of a valid draft and sets its update time to `now`.
/// Gives the workflows to store and the updated workflow. The draft is
/// checked first, then the id, then that the workflow exists.
pub fn update_workflow_inner(
    workflows: Vec<WorkflowPreset>,
    scope: &str,
    workflow_id: &str,
    draft: WorkflowDraftPayload,
    now: Timestamp,
) -> (res: Result<(Vec<WorkflowPreset>, WorkflowPreset), HermesError>)
    ensures
        draft_error(draft.name@, draft.prompt@) matches Some(m) ==> is_validation(res, m),
        draft_error(draft.name@, draft.prompt@) is None && uuid_value(workflow_id@) is None
            ==> is_validation(res, INVALID_WORKFLOW_ID@),
        draft_error(draft.name@, draft.prompt@) is None && is_hyphenated_uuid(workflow_id@)
            ==> uuid_value(workflow_id@) == Some(hyphenated_value(workflow_id@)),
        forall|v: u128|
            draft_error(draft.name@, draft.prompt@) is None && workflow_id@ == #[trigger] uuid_text(v)
                ==> uuid_value(workflow_id@) == Some(v),
        draft_error(draft.name@, draft.prompt@) is None ==> (uuid_value(workflow_id@) matches Some(
            id,
        ) ==> {
            &&& first_target(view_seq(workflows@), id, scope@) is None ==> is_validation(
                res,
                MISSING_WORKFLOW@,
            )
            &&& first_target(view_seq(workflows@), id, scope@) matches Some(i) ==> {
                res matches Ok((stored, updated)) && {
                    let old = view_seq(workflows@)[i];
                    &&& updated.id == old.id
                    &&& updated@.workspace_scope_fingerprint == old.workspace_scope_fingerprint
                    &&& updated.created_at == old.created_at
                    &&& updated.updated_at == now
                    &&& updated.name@ == trimmed(draft.name@)
                    &&& updated.prompt@ == trimmed(draft.prompt@)
                    &&& view_seq(updated.assigned_skills@) == spec_normalized_references(
                        view_seq(draft.assigned_skills@),
                    )
                    &&& view_seq(stored@) == view_seq(workflows@).update(i, updated@)
                }
            }
        }),
{
    match validate_draft(&draft) {
        Ok(()) => {},
        Err(e) => return Err(e),
    }
    let id = match parse_workflow_id(workflow_id) {
        Ok(v) => v,
        Err(e) => return Err(e),
    };
    let index = match find_target(&workflows, id, scope) {
        Some(i) => i,
        None => return Err(HermesError::Validation(MISSING_WORKFLOW.to_owned())),
    };
    let mut stored = workflows;
    let ghost before = view_seq(stored@);
    let old = stored.remove(index);
    assert(old@ == before[index as int]);
    let updated = WorkflowPreset {
        id: old.id,
        workspace_scope_fingerprint: old.workspace_scope_fingerprint,
        name: trim(draft.name.as_str()),
        prompt: trim(draft.prompt.as_str()),
        assigned_skills: normalized_skill_references(draft.assigned_skills),
        created_at: old.created_at,
        updated_at: now,
    };
    let copy = updated.duplicate();
    stored.insert(index, copy);
    assert(view_seq(stored@) =~= before.update(index as int, updated@));
    Ok((stored, updated))
}

// ---------------------------------------------------------------------------
// Launching
// ---------------------------------------------------------------------------

fn push_profile_arguments(values: &mut Vec<String>, profile: &ConnectionProfile)
    ensures
        views(final(values)@) == views(old(values)@) + profile_arguments(*profile),
{
    let ghost before = views(values@);
    if profile.custom_hermes_home_path.is_none() {
        match &profile.hermes_profile {
            Some(name) => {
                let t = trim(name.as_str());
                if !t.as_str().is_empty() {
                    values.push("--profile".to_owned());
                    values.push(t);
                    assert(views(values@) =~= before + profile_arguments(*profile));
                    return ;
                }
            },
            None => {},
        }
    }
    assert(views(values@) =~= before + profile_arguments(*profile));
}

/// Whether `paths` holds `p`.
fn has_path(paths: &Vec<Vec<char>>, p: &Vec<char>) -> (res: bool)
    ensures
        res == paths@.map_values(|v: Vec<char>| v@).contains(p@),
{
    let ghost pv = paths@.map_values(|v: Vec<char>| v@);
    let mut i: usize = 0;
    while i < paths.len()
        invariant
            i <= paths@.len(),
            pv == paths@.map_values(|v: Vec<char>| v@),
            forall|k: int| 0 <= k < i ==> pv[k] != p@,
        decreases paths.len() - i,
    {
        if chars_eq(&paths[i], p) {
            assert(pv[i as int] == p@);
            return true;
        }
        i = i + 1;
    }
    false
}

/// The Hermes arguments that start `workflow`: `--profile <name>` when the
/// profile names a Hermes profile and no custom Hermes home is set, then
/// `--skills <path>` for each distinct non-blank skill path in order, then
/// `chat`.
pub fn workflow_arguments(profile: &ConnectionProfile, workflow: &WorkflowPreset) -> (res: Vec<
    String,
>)
    ensures
        views(res@) == spec_workflow_arguments(*profile, workflow@),
{
    let mut values: Vec<String> = Vec::new();
    push_profile_arguments(&mut values, profile);
    let ghost base = views(values@);
    let ghost skills = view_seq(workflow.assigned_skills@);
    let mut seen: Vec<Vec<char>> = Vec::new();
    let mut i: usize = 0;
    while i < workflow.assigned_skills.len()
        invariant
            i <= workflow.assigned_skills@.len(),
            skills == view_seq(workflow.assigned_skills@),
            seen@.map_values(|v: Vec<char>| v@) == distinct_paths(skills.take(i as int)),
            views(values@) == base + skills_flags(distinct_paths(skills.take(i as int))),
        decreases workflow.assigned_skills.len() - i,
    {
        let path = trim(workflow.assigned_skills[i].relative_path.as_str());
        let chars = chars_of(path.as_str());
        let ghost prev = distinct_paths(skills.take(i as int));
        proof {
            let t = skills.take(i + 1);
            assert(t.drop_last() =~= skills.take(i as int));
            assert(t.last() == skills[i as int]);
        }
        if chars.len() > 0 && !has_path(&seen, &chars) {
            let ghost before_values = views(values@);
            let ghost before_seen = seen@;
            seen.push(chars);
            values.push("--skills".to_owned());
            values.push(path);
            assert(seen@.map_values(|v: Vec<char>| v@) =~= before_seen.map_values(
                |v: Vec<char>| v@,
            ).push(prev.push(trimmed(skills[i as int].relative_path)).last()));
            assert(prev.push(trimmed(skills[i as int].relative_path)).drop_last() =~= prev);
            assert(views(values@) =~= before_values + seq![
                "--skills"@,
                trimmed(skills[i as int].relative_path),
            ]);
        }
        i = i + 1;
    }
    assert(skills.take(workflow.assigned_skills@.len() as int) =~= skills);
    let ghost before_chat = views(values@);
    values.push("chat".to_owned());
    assert(views(values@) =~= before_chat + seq!["chat"@]);
    values
}

/// The Hermes arguments that start the terminal chat UI for a workflow:
/// the profile as for [`workflow_arguments`], then `--tui`.
pub fn workflow_chat_arguments(profile: &ConnectionProfile) -> (res: Vec<String>)
    ensures
        views(res@) == spec_chat_arguments(*profile),
{
    let mut values: Vec<String> = Vec::new();
    push_profile_arguments(&mut values, profile);
    let ghost before = views(values@);
    values.push("--tui".to_owned());
    assert(views(values@) =~= before + seq!["--tui"@]);
    values
}

/// The command shown for a launch: `hermes` followed by the arguments,
/// each already quoted for the shell, separated by spaces.
pub fn hermes_cli_preview_command(quoted_arguments: &Vec<String>) -> (res: String)
    ensures
        quoted_arguments@.len() == 0 ==> res@ == "hermes"@,
        quoted_arguments@.len() > 0 ==> res@ == "hermes "@ + join_with(
            views(quoted_arguments@),
            " "@,
        ),
{
    if quoted_arguments.len() == 0 {
        return "hermes".to_owned();
    }
    let joined = join(quoted_arguments, " ");
    let mut out = chars_of("hermes ");
    append_str(&mut out, joined.as_str());
    string_of(&out)
}

/// A prompt on one line: its lines trimmed, blank ones dropped, joined by
/// single spaces.
pub fn normalize_prompt_for_launch(prompt: &str) -> (res: String)
    ensures
        res@ == spec_prompt_for_launch(prompt@),
{
    let all = lines(prompt);
    let ghost ls = lines_of(prompt@);
    let mut kept: Vec<String> = Vec::new();
    let mut i: usize = 0;
    while i < all.len()
        invariant
            i <= all@.len(),
            all@.len() == ls.len(),
            forall|k: int| 0 <= k < all@.len() ==> #[trigger] all@[k]@ == ls[k],
            views(kept@) == nonblank_trimmed(ls.take(i as int)),
        decreases all.len() - i,
    {
        let t = trim_chars(&all[i], &TrimSet::Whitespace);
        let ghost before = views(kept@);
        proof {
            let q = ls.take(i + 1);
            assert(q.drop_last() =~= ls.take(i as int));
            assert(q.last() == ls[i as int]);
        }
        if t.len() > 0 {
            kept.push(string_of(&t));
            assert(views(kept@) =~= before.push(t@));
        }
        i = i + 1;
    }
    assert(ls.take(all@.len() as int) =~= ls);
    join(&kept, " ")
}

/// What to type into the chat UI for `workflow`: `/<slug>` for each skill
/// with a non-blank slug, then the prompt on one line when it is not blank,
/// separated by newlines.
pub fn workflow_chat_initial_input(workflow: &WorkflowPreset) -> (res: String)
    ensures
        res@ == spec_chat_initial_input(workflow@),
{
    let ghost skills = view_seq(workflow.assigned_skills@);
    let mut lines_out: Vec<String> = Vec::new();
    let mut i: usize = 0;
    while i < workflow.assigned_skills.len()
        invariant
            i <= workflow.assigned_skills@.len(),
            skills == view_seq(workflow.assigned_skills@),
            views(lines_out@) == slash_commands(skills.take(i as int)),
        decreases workflow.assigned_skills.len() - i,
    {
        let slug = trim(workflow.assigned_skills[i].slug.as_str());
        let ghost before = views(lines_out@);
        proof {
            let q = skills.take(i + 1);
            assert(q.drop_last() =~= skills.take(i as int));
            assert(q.last() == skills[i as int]);
        }
        if !slug.as_str().is_empty() {
            let mut line: Vec<char> = Vec::new();
            line.push('/');
            append_str(&mut line, slug.as_str());
            lines_out.push(string_of(&line));
            assert(views(lines_out@) =~= before.push(seq!['/'] + slug@));
        }
        i = i + 1;
    }
    assert(skills.take(workflow.assigned_skills@.len() as int) =~= skills);
    let prompt = normalize_prompt_for_launch(workflow.prompt.as_str());
    if !prompt.as_str().is_empty() {
        let ghost before = views(lines_out@);
        lines_out.push(prompt);
        assert(views(lines_out@) =~= before.push(spec_prompt_for_launch(workflow.prompt@)));
    }
    join(&lines_out, "\n")
}

/// Builds the launch plan of the workflow `workflow_id` of `scope`: the
/// arguments and prompt for a plain start, and the arguments and slash
/// commands with prompt for a start in the chat UI.
pub fn workflow_launch_preview_inner(
    workflows: &Vec<WorkflowPreset>,
    scope: &str,
    workflow_id: &str,
    profile: &ConnectionProfile,
) -> (res: Result<WorkflowLaunchPlan, HermesError>)
    ensures
        uuid_value(workflow_id@) is None ==> is_validation(res, INVALID_WORKFLOW_ID@),
        is_hyphenated_uuid(workflow_id@) ==> uuid_value(workflow_id@) == Some(
            hyphenated_value(workflow_id@),
        ),
        forall|v: u128| workflow_id@ == #[trigger] uuid_text(v) ==> uuid_value(workflow_id@) == Some(v),
        uuid_value(workflow_id@) matches Some(id) ==> {
            &&& first_target(view_seq(workflows@), id, scope@) is None ==> is_validation(
                res,
                MISSING_WORKFLOW@,
            )
            &&& first_target(view_seq(workflows@), id, scope@) matches Some(i) ==> {
                res matches Ok(plan) && {
                    let w = view_seq(workflows@)[i];
                    &&& views(plan.arguments@) == spec_workflow_arguments(*profile, w)
                    &&& plan.initial_input@ == spec_prompt_for_launch(w.prompt)
                    &&& views(plan.chat_arguments@) == spec_chat_arguments(*profile)
                    &&& plan.chat_initial_input@ == spec_chat_initial_input(w)
                }
            }
        },
{
    let id = match parse_workflow_id(workflow_id) {
        Ok(v) => v,
        Err(e) => return Err(e),
    };
    let index = match find_target(workflows, id, scope) {
        Some(i) => i,
        None => return Err(HermesError::Validation(MISSING_WORKFLOW.to_owned())),
    };
    let workflow = &workflows[index];
    let ghost w = view_seq(workflows@)[index as int];
    assert(workflow@ == w);
    let arguments = workflow_arguments(profile, workflow);
    let initial_input = normalize_prompt_for_launch(workflow.prompt.as_str());
    let chat_arguments = workflow_chat_arguments(profile);
    let chat_initial_input = workflow_chat_initial_input(workflow);
    Ok(WorkflowLaunchPlan { arguments, initial_input, chat_arguments, chat_initial_input })
}

// ---------------------------------------------------------------------------
// Laws
// ---------------------------------------------------------------------------

/// Listing a scope gives exactly the stored workflows of that scope, each
/// as often as it is stored, ordered by name case-insensitively.
pub proof fn lemma_list_workflows_law(s: Seq<WorkflowPresetView>, scope: Seq<char>)
    ensures
        sorted_by(spec_list_workflows(s, scope), workflow_key_fn()),
        spec_list_workflows(s, scope).to_multiset() == scope_filter(s, scope).to_multiset(),
        forall|w: WorkflowPresetView|
            spec_list_workflows(s, scope).contains(w) <==> (s.contains(w) && in_scope(w, scope)),
{
    lemma_sort_sorted(scope_filter(s, scope), workflow_key_fn());
    crate::sort::lemma_sort_permutation(scope_filter(s, scope), workflow_key_fn());
    lemma_sort_contains(scope_filter(s, scope), workflow_key_fn());
    lemma_filter_members(s, scope_pred(scope));
}

/// After a removal no workflow with that id remains in its scope, every
/// other workflow stays, and the removed one is no longer listed.
pub proof fn lemma_delete_workflow_law(s: Seq<WorkflowPresetView>, id: u128, scope: Seq<char>)
    ensures
        forall|w: WorkflowPresetView|
            remove_target(s, id, scope).contains(w) <==> (s.contains(w) && !is_target(w, id, scope)),
        forall|w: WorkflowPresetView|
            #[trigger] spec_list_workflows(remove_target(s, id, scope), scope).contains(w) ==> !is_target(w, id, scope),
{
    lemma_filter_members(s, keep_pred(id, scope));
    lemma_list_workflows_law(remove_target(s, id, scope), scope);
}

/// A created workflow is listed in its scope.
pub proof fn lemma_created_workflow_is_listed(s: Seq<WorkflowPresetView>, created: WorkflowPresetView, scope: Seq<char>)
    requires
        in_scope(created, scope),
    ensures
        spec_list_workflows(s.push(created), scope).contains(created),
{
    lemma_list_workflows_law(s.push(created), scope);
    assert(s.push(created)[s.len() as int] == created);
}

pub open spec fn reference_path_fn() -> spec_fn(SkillReferenceView) -> Seq<char> {
    |r: SkillReferenceView| r.relative_path
}

proof fn lemma_normalized_with_path_members(s: Seq<SkillReferenceView>)
    ensures
        forall|k: int|
            0 <= k < normalized_with_path(s).len() ==> (#[trigger] normalized_with_path(s)[k]).relative_path.len() > 0,
    decreases s.len(),
{
    if s.len() > 0 {
        lemma_normalized_with_path_members(s.drop_last());
        let rest = normalized_with_path(s.drop_last());
        assert forall|k: int| 0 <= k < normalized_with_path(s).len() implies (#[trigger] normalized_with_path(s)[k]).relative_path.len() > 0 by {
            if k < rest.len() {
                assert(normalized_with_path(s)[k] == rest[k]);
            }
        }
    }
}

proof fn lemma_last_per_path(s: Seq<SkillReferenceView>)
    ensures
        distinct_by(last_per_path(s), reference_path_fn()),
        forall|k: int| 0 <= k < last_per_path(s).len() ==> s.contains(#[trigger] last_per_path(s)[k]),
    decreases s.len(),
{
    if s.len() > 0 {
        let t = s.drop_first();
        lemma_last_per_path(t);
        let rest = last_per_path(t);
        let r = last_per_path(s);
        assert forall|k: int| 0 <= k < r.len() implies s.contains(#[trigger] r[k]) by {
            if path_repeats_later(s, 0) {
                let m = choose|m: int| 0 <= m < t.len() && t[m] == r[k];
                assert(s[m + 1] == t[m]);
            } else if k == 0 {
                assert(s[0] == r[0]);
            } else {
                assert(r[k] == rest[k - 1]);
                let m = choose|m: int| 0 <= m < t.len() && t[m] == rest[k - 1];
                assert(s[m + 1] == t[m]);
            }
        }
        if !path_repeats_later(s, 0) {
            assert forall|i: int, j: int| 0 <= i < j < r.len() implies (reference_path_fn())(r[i]) != (reference_path_fn())(r[j]) by {
                assert(r[j] == rest[j - 1]);
                if i == 0 {
                    let m = choose|m: int| 0 <= m < t.len() && t[m] == rest[j - 1];
                    assert(s[m + 1] == t[m]);
                    if r[j].relative_path == s[0].relative_path {
                        assert(s[m + 1].relative_path == s[0].relative_path);
                    }
                } else {
                    assert(r[i] == rest[i - 1]);
                }
            }
        }
    }
}

/// The skills kept for a workflow have distinct, non-empty paths, come from
/// the normalized input, and are ordered by slug then path.
pub proof fn lemma_normalized_references_law(s: Seq<SkillReferenceView>)
    ensures
        sorted_by(spec_normalized_references(s), reference_key_fn()),
        forall|i: int, j: int|
            0 <= i < j < spec_normalized_references(s).len() ==> spec_normalized_references(s)[i].relative_path
                != spec_normalized_references(s)[j].relative_path,
        forall|k: int|
            0 <= k < spec_normalized_references(s).len() ==> normalized_with_path(s).contains(
                #[trigger] spec_normalized_references(s)[k],
            ),
        forall|k: int|
            0 <= k < spec_normalized_references(s).len() ==> (#[trigger] spec_normalized_references(s)[k]).relative_path.len() > 0,
{
    let n = normalized_with_path(s);
    let l = last_per_path(n);
    let r = spec_normalized_references(s);
    lemma_last_per_path(n);
    lemma_normalized_with_path_members(s);
    lemma_sort_sorted(l, reference_key_fn());
    lemma_sort_distinct(l, reference_key_fn(), reference_path_fn());
    lemma_sort_members(l, reference_key_fn());
    assert forall|i: int, j: int| 0 <= i < j < r.len() implies r[i].relative_path != r[j].relative_path by {
        assert((reference_path_fn())(r[i]) != (reference_path_fn())(r[j]));
    }
    assert forall|k: int| 0 <= k < r.len() implies n.contains(#[trigger] r[k]) by {
        let m = choose|m: int| 0 <= m < l.len() && l[m] == r[k];
    }
    assert forall|k: int| 0 <= k < r.len() implies (#[trigger] r[k]).relative_path.len() > 0 by {
        let m = choose|m: int| 0 <= m < l.len() && l[m] == r[k];
        let q = choose|q: int| 0 <= q < n.len() && n[q] == l[m];
    }
}

/// What normalizing leaves in a reference: a trimmed path, an empty slug
/// only where the path has an empty last segment, and a name that is
/// trimmed and not blank.
pub open spec fn in_normal_form(r: SkillReferenceView) -> bool {
    &&& trimmed(r.relative_path) == r.relative_path
    &&& r.slug.len() == 0 ==> last_segment(r.relative_path).len() == 0
    &&& match r.name {
        Some(n) => trimmed(n) == n && n.len() > 0,
        None => true,
    }
}

proof fn lemma_normalize_reference_form(r: SkillReferenceView)
    ensures
        in_normal_form(normalize_reference(r)),
{
    lemma_trimmed_idempotent(r.relative_path);
    match r.name {
        Some(n) => lemma_trimmed_idempotent(n),
        None => {},
    }
}

proof fn lemma_normal_form_fixed(r: SkillReferenceView)
    requires
        in_normal_form(r),
        trimmed(r.slug) == r.slug,
    ensures
        normalize_reference(r) == r,
{
    if r.slug.len() == 0 {
        assert(last_segment(r.relative_path) =~= r.slug);
    }
}

proof fn lemma_normalized_with_path_form(s: Seq<SkillReferenceView>)
    ensures
        forall|k: int|
            0 <= k < normalized_with_path(s).len() ==> in_normal_form(
                #[trigger] normalized_with_path(s)[k],
            ),
    decreases s.len(),
{
    if s.len() > 0 {
        lemma_normalized_with_path_form(s.drop_last());
        lemma_normalize_reference_form(s.last());
        let rest = normalized_with_path(s.drop_last());
        assert forall|k: int| 0 <= k < normalized_with_path(s).len() implies in_normal_form(
            #[trigger] normalized_with_path(s)[k],
        ) by {
            if k < rest.len() {
                assert(normalized_with_path(s)[k] == rest[k]);
            }
        }
    }
}

proof fn lemma_normalized_with_path_fixed(t: Seq<SkillReferenceView>)
    requires
        forall|k: int|
            0 <= k < t.len() ==> normalize_reference(#[trigger] t[k]) == t[k]
                && t[k].relative_path.len() > 0,
    ensures
        normalized_with_path(t) == t,
    decreases t.len(),
{
    if t.len() > 0 {
        lemma_normalized_with_path_fixed(t.drop_last());
        assert(t[t.len() - 1] == t.last());
        assert(t.drop_last().push(t.last()) =~= t);
    }
}

proof fn lemma_last_per_path_distinct(t: Seq<SkillReferenceView>)
    requires
        forall|i: int, j: int| 0 <= i < j < t.len() ==> t[i].relative_path != t[j].relative_path,
    ensures
        last_per_path(t) == t,
    decreases t.len(),
{
    if t.len() > 0 {
        lemma_last_per_path_distinct(t.drop_first());
        assert(!path_repeats_later(t, 0));
        assert(seq![t[0]] + t.drop_first() =~= t);
    }
}

/// Normalizing the skills of a workflow a second time changes nothing, as
/// long as every slug kept the first time is already trimmed. (A slug taken
/// from a path whose last segment starts or ends with white space, such as
/// `ops/ x`, is trimmed on the second pass.)
pub proof fn lemma_normalized_references_idempotent(s: Seq<SkillReferenceView>)
    requires
        forall|k: int|
            0 <= k < spec_normalized_references(s).len() ==> trimmed(
                (#[trigger] spec_normalized_references(s)[k]).slug,
            ) == spec_normalized_references(s)[k].slug,
    ensures
        spec_normalized_references(spec_normalized_references(s)) == spec_normalized_references(s),
{
    let r = spec_normalized_references(s);
    let n = normalized_with_path(s);
    lemma_normalized_references_law(s);
    lemma_normalized_with_path_form(s);
    assert forall|k: int| 0 <= k < r.len() implies normalize_reference(#[trigger] r[k]) == r[k]
        && r[k].relative_path.len() > 0 by {
        let q = choose|q: int| 0 <= q < n.len() && n[q] == r[k];
        assert(in_normal_form(n[q]));
        lemma_normal_form_fixed(r[k]);
    }
    lemma_normalized_with_path_fixed(r);
    lemma_last_per_path_distinct(r);
    lemma_sort_of_sorted(r, reference_key_fn());
}

proof fn lemma_distinct_paths(s: Seq<SkillReferenceView>)
    ensures
        forall|i: int, j: int|
            0 <= i < j < distinct_paths(s).len() ==> distinct_paths(s)[i] != distinct_paths(s)[j],
        forall|k: int| 0 <= k < distinct_paths(s).len() ==> (#[trigger] distinct_paths(s)[k]).len() > 0,
    decreases s.len(),
{
    if s.len() > 0 {
        lemma_distinct_paths(s.drop_last());
        let rest = distinct_paths(s.drop_last());
        let path = trimmed(s.last().relative_path);
        let d = distinct_paths(s);
        if !(path.len() == 0 || rest.contains(path)) {
            assert forall|i: int, j: int| 0 <= i < j < d.len() implies d[i] != d[j] by {
                assert(d[i] == rest[i]);
                if j == rest.len() {
                    assert(d[j] == path);
                    if rest[i] == path {
                        assert(rest.contains(path));
                    }
                } else {
                    assert(d[j] == rest[j]);
                }
            }
            assert forall|k: int| 0 <= k < d.len() implies (#[trigger] d[k]).len() > 0 by {
                if k < rest.len() {
                    assert(d[k] == rest[k]);
                }
            }
        }
    }
}

/// A workflow launch passes each skill path once, and no blank one.
pub proof fn lemma_workflow_skills_once(w: WorkflowPresetView)
    ensures
        forall|i: int, j: int|
            0 <= i < j < distinct_paths(w.assigned_skills).len() ==> distinct_paths(w.assigned_skills)[i]
                != distinct_paths(w.assigned_skills)[j],
        forall|k: int|
            0 <= k < distinct_paths(w.assigned_skills).len() ==> (#[trigger] distinct_paths(w.assigned_skills)[k]).len() > 0,
{
    lemma_distinct_paths(w.assigned_skills);
}

proof fn lemma_nonblank_trimmed_parts(ls: Seq<Seq<char>>)
    ensures
        forall|k: int|
            0 <= k < nonblank_trimmed(ls).len() ==> exists|j: int|
                0 <= j < ls.len() && #[trigger] nonblank_trimmed(ls)[k] == trimmed(ls[j]),
    decreases ls.len(),
{
    if ls.len() > 0 {
        lemma_nonblank_trimmed_parts(ls.drop_last());
        let rest = nonblank_trimmed(ls.drop_last());
        let r = nonblank_trimmed(ls);
        assert forall|k: int| 0 <= k < r.len() implies exists|j: int|
            0 <= j < ls.len() && #[trigger] r[k] == trimmed(ls[j]) by {
            if k < rest.len() {
                assert(r[k] == rest[k]);
                let j = choose|j: int| 0 <= j < ls.drop_last().len() && rest[k] == trimmed(ls.drop_last()[j]);
                assert(ls[j] == ls.drop_last()[j]);
            } else {
                assert(r[k] == trimmed(ls[ls.len() - 1]));
            }
        }
    }
}

/// The prompt for a launch is a single line.
pub proof fn lemma_prompt_for_launch_is_one_line(prompt: Seq<char>)
    ensures
        !spec_prompt_for_launch(prompt).contains('\n'),
{
    let ls = lines_of(prompt);
    let parts = nonblank_trimmed(ls);
    if spec_prompt_for_launch(prompt).contains('\n') {
        lemma_join_with_chars(parts, " "@, '\n');
        reveal_strlit(" ");
        assert(!(" "@).contains('\n'));
        let k = choose|k: int| 0 <= k < parts.len() && (#[trigger] parts[k]).contains('\n');
        lemma_nonblank_trimmed_parts(ls);
        let j = choose|j: int| 0 <= j < ls.len() && #[trigger] parts[k] == trimmed(ls[j]);
        lemma_trim_by_keeps_chars(ls[j], TrimSet::Whitespace, '\n');
        lemma_lines_have_no_newline(prompt);
    }
}

} // verus!
