//! The identity and configuration of a harness session, and where to find it.
//!
//! A session is harness-managed when a context is discoverable: either
//! [`HARNESS_CONTEXT_ENV`] points at a context file, or there is one in the
//! harness directory of the current directory or of any of its ancestors. The
//! variable comes first.

use crate::path::{
    components, extends, has_parent, joined_path, lemma_plain_name, parent_path, path_clone,
    path_join, path_pop, prefixed, Component,
};
use crate::policy::{lemma_policy_is_its_rules, HarnessPolicy, PolicyRules, PolicyVerdict};
use crate::text::text_of;
use std::path::PathBuf;
use vstd::prelude::*;

verus! {

/// Environment variable that points at the context file.
pub const HARNESS_CONTEXT_ENV: &'static str = "GOOSE_HARNESS_CONTEXT";

/// Name of the directory for workspace-local harness state.
pub const HARNESS_DIR: &'static str = ".goose-harness";

/// Name of the context file inside [`HARNESS_DIR`].
pub const CONTEXT_FILE: &'static str = "session.json";

/// Name of the local event log inside [`HARNESS_DIR`].
pub const EVENTS_FILE: &'static str = "events.jsonl";

/// The remote endpoint that accepts events.
#[derive(Debug)]
pub struct IngestConfig {
    /// URL that accepts a `POST` with a JSON array of events.
    pub endpoint: String,
    /// Bearer token attached to each batch.
    pub token: Option<String>,
}

/// What an [`IngestConfig`] says.
pub struct IngestInfo {
    /// URL of the endpoint.
    pub endpoint: Seq<char>,
    /// Bearer token.
    pub token: Option<Seq<char>>,
}

impl View for IngestConfig {
    type V = IngestInfo;

    open spec fn view(&self) -> IngestInfo {
        IngestInfo { endpoint: self.endpoint@, token: text_of(self.token) }
    }
}

impl Clone for IngestConfig {
    fn clone(&self) -> (copy: Self)
        ensures
            copy@ == self@,
    {
        IngestConfig { endpoint: self.endpoint.clone(), token: self.token.clone() }
    }
}

/// What an optional [`IngestConfig`] says.
pub open spec fn ingest_info(ingest: Option<IngestConfig>) -> Option<IngestInfo> {
    match ingest {
        Some(ingest) => Some(ingest@),
        None => None,
    }
}

/// A copy of an optional [`IngestConfig`].
pub(crate) fn clone_ingest(ingest: &Option<IngestConfig>) -> (copy: Option<IngestConfig>)
    ensures
        ingest_info(copy) == ingest_info(*ingest),
{
    match ingest {
        Some(ingest) => Some(ingest.clone()),
        None => None,
    }
}

/// The durable identity and configuration of one harness session, stored in
/// the workspace so that every process launched inside it attaches to the same
/// session.
#[derive(Debug)]
pub struct HarnessContext {
    /// Identifier of the session, stamped on every event. Independent of the
    /// identifiers of agent sessions.
    pub harness_session_id: String,
    /// The identified human behind the session.
    pub principal: Option<String>,
    /// The profile that provisioned the session.
    pub profile_id: Option<String>,
    /// Root of the workspace, where [`HARNESS_DIR`] lives.
    pub workspace: PathBuf,
    /// Git commit that the workspace started from.
    pub base_commit: Option<String>,
    /// Remote endpoint; the local log is written regardless.
    pub ingest: Option<IngestConfig>,
    /// Tool policy of the session.
    pub policy: HarnessPolicy,
}

/// What a [`HarnessContext`] says.
pub struct ContextInfo {
    /// Identifier of the session.
    pub harness_session_id: Seq<char>,
    /// The human behind the session.
    pub principal: Option<Seq<char>>,
    /// The profile that provisioned the session.
    pub profile_id: Option<Seq<char>>,
    /// Root of the workspace.
    pub workspace: PathBuf,
    /// Git commit that the workspace started from.
    pub base_commit: Option<Seq<char>>,
    /// Remote endpoint.
    pub ingest: Option<IngestInfo>,
    /// Tool policy.
    pub policy: PolicyRules,
}

impl View for HarnessContext {
    type V = ContextInfo;

    open spec fn view(&self) -> ContextInfo {
        ContextInfo {
            harness_session_id: self.harness_session_id@,
            principal: text_of(self.principal),
            profile_id: text_of(self.profile_id),
            workspace: self.workspace,
            base_commit: text_of(self.base_commit),
            ingest: ingest_info(self.ingest),
            policy: self.policy@,
        }
    }
}

impl Clone for HarnessContext {
    fn clone(&self) -> (copy: Self)
        ensures
            copy@ == self@,
    {
        HarnessContext {
            harness_session_id: self.harness_session_id.clone(),
            principal: self.principal.clone(),
            profile_id: self.profile_id.clone(),
            workspace: path_clone(&self.workspace),
            base_commit: self.base_commit.clone(),
            ingest: clone_ingest(&self.ingest),
            policy: self.policy.clone(),
        }
    }
}

/// The directory for harness state in a directory.
pub open spec fn harness_dir_of(dir: PathBuf) -> PathBuf {
    joined_path(dir, HARNESS_DIR@)
}

/// The context file of a directory.
pub open spec fn context_file_of(dir: PathBuf) -> PathBuf {
    joined_path(harness_dir_of(dir), CONTEXT_FILE@)
}

/// The local event log of a directory.
pub open spec fn events_file_of(dir: PathBuf) -> PathBuf {
    joined_path(harness_dir_of(dir), EVENTS_FILE@)
}

/// The components of a file of the given name among harness state.
pub open spec fn harness_file(name: Seq<char>) -> Seq<Component> {
    seq![Component::Normal(HARNESS_DIR@), Component::Normal(name)]
}

/// The directory for harness state in a directory.
fn join_harness_dir(dir: &PathBuf) -> (path: PathBuf)
    ensures
        path == harness_dir_of(*dir),
        extends(path, *dir, seq![Component::Normal(HARNESS_DIR@)]),
{
    proof {
        reveal_strlit(".goose-harness");
        lemma_plain_name(HARNESS_DIR@);
    }
    path_join(dir, HARNESS_DIR)
}

/// A path with two more names has the components of both behind it.
proof fn lemma_extends_twice(base: PathBuf, dir: PathBuf, path: PathBuf, name: Seq<char>)
    requires
        extends(dir, base, seq![Component::Normal(HARNESS_DIR@)]),
        extends(path, dir, seq![Component::Normal(name)]),
    ensures
        extends(path, base, harness_file(name)),
{
    if !prefixed(components(path)) {
        assert forall|i: int| 0 <= i < components(dir).len() implies !(#[trigger] components(
            dir,
        )[i] is Prefix) by {
            assert(components(path)[i] == components(dir)[i]);
        }
        assert(components(path) =~= components(base) + harness_file(name));
    }
}

/// The context file of a directory.
fn join_context_file(dir: &PathBuf) -> (path: PathBuf)
    ensures
        path == context_file_of(*dir),
        extends(path, *dir, harness_file(CONTEXT_FILE@)),
{
    proof {
        reveal_strlit("session.json");
        lemma_plain_name(CONTEXT_FILE@);
    }
    let state = join_harness_dir(dir);
    let path = path_join(&state, CONTEXT_FILE);
    proof {
        lemma_extends_twice(*dir, state, path, CONTEXT_FILE@);
    }
    path
}

impl HarnessContext {
    /// The directory for harness state in the workspace.
    pub fn harness_dir(&self) -> (dir: PathBuf)
        ensures
            dir == harness_dir_of(self.workspace),
            extends(dir, self.workspace, seq![Component::Normal(HARNESS_DIR@)]),
    {
        join_harness_dir(&self.workspace)
    }

    /// The context file of the workspace.
    pub fn context_path(&self) -> (path: PathBuf)
        ensures
            path == context_file_of(self.workspace),
            extends(path, self.workspace, harness_file(CONTEXT_FILE@)),
    {
        join_context_file(&self.workspace)
    }

    /// The local event log of the workspace.
    pub fn events_path(&self) -> (path: PathBuf)
        ensures
            path == events_file_of(self.workspace),
            extends(path, self.workspace, harness_file(EVENTS_FILE@)),
    {
        proof {
            reveal_strlit("events.jsonl");
            lemma_plain_name(EVENTS_FILE@);
        }
        let dir = self.harness_dir();
        let path = path_join(&dir, EVENTS_FILE);
        proof {
            lemma_extends_twice(self.workspace, dir, path, EVENTS_FILE@);
        }
        path
    }
}

/// Where the search for a context file stands.
#[derive(Debug)]
pub enum Discovery {
    /// The environment names this file; is it there? If not, the search goes on
    /// in the current directory, if there is one.
    Explicit(PathBuf, Option<PathBuf>),
    /// Is there a context file among the harness state of this directory?
    Searching(PathBuf),
    /// This is the context file.
    Found(PathBuf),
    /// There is none: the harness is inactive.
    Missing,
}

/// The file whose existence decides how the search goes on.
pub open spec fn candidate_of(state: Discovery) -> Option<PathBuf> {
    match state {
        Discovery::Explicit(path, _) => Some(path),
        Discovery::Searching(dir) => Some(context_file_of(dir)),
        _ => None,
    }
}

/// The directory that `n` steps to the parent lead to, if there are so many.
pub open spec fn ancestor(dir: PathBuf, n: nat) -> Option<PathBuf>
    decreases n,
{
    if n == 0 {
        Some(dir)
    } else if has_parent(components(dir)) {
        ancestor(parent_path(dir), (n - 1) as nat)
    } else {
        None
    }
}

/// The ancestor `n` steps up has a context file among `files`.
pub open spec fn has_context(dir: PathBuf, files: Set<PathBuf>, n: nat) -> bool {
    ancestor(dir, n) matches Some(up) && files.contains(context_file_of(up))
}

/// The ancestor `n` steps up is the nearest with a context file among `files`.
pub open spec fn nearest(dir: PathBuf, files: Set<PathBuf>, n: nat) -> bool {
    has_context(dir, files, n) && forall|m: nat| m < n ==> !#[trigger] has_context(dir, files, m)
}

/// The context file that a search upwards from `dir` finds among `files`: that
/// of the nearest ancestor that has one, the directory itself included.
pub open spec fn search(dir: PathBuf, files: Set<PathBuf>) -> Option<PathBuf> {
    if exists|n: nat| nearest(dir, files, n) {
        Some(context_file_of(ancestor(dir, choose|n: nat| nearest(dir, files, n))->0))
    } else {
        None
    }
}

/// The context file that a search ends with, where `files` are the files that
/// there are.
pub open spec fn outcome(state: Discovery, files: Set<PathBuf>) -> Option<PathBuf> {
    match state {
        Discovery::Explicit(path, cwd) => if files.contains(path) {
            Some(path)
        } else {
            match cwd {
                Some(dir) => search(dir, files),
                None => None,
            }
        },
        Discovery::Searching(dir) => search(dir, files),
        Discovery::Found(path) => Some(path),
        Discovery::Missing => None,
    }
}

/// Where the search stands once it is known whether the candidate is a file.
pub open spec fn answered(state: Discovery, is_file: bool) -> Discovery {
    match state {
        Discovery::Explicit(path, cwd) => if is_file {
            Discovery::Found(path)
        } else {
            match cwd {
                Some(dir) => Discovery::Searching(dir),
                None => Discovery::Missing,
            }
        },
        Discovery::Searching(dir) => if is_file {
            Discovery::Found(context_file_of(dir))
        } else if has_parent(components(dir)) {
            Discovery::Searching(parent_path(dir))
        } else {
            Discovery::Missing
        },
        done => done,
    }
}

/// How many more answers the search can need.
pub open spec fn remaining(state: Discovery) -> nat {
    match state {
        Discovery::Explicit(_, Some(dir)) => components(dir).len() + 2,
        Discovery::Explicit(_, None) => 1,
        Discovery::Searching(dir) => components(dir).len() + 1,
        _ => 0,
    }
}

/// Starts the search for the context file: at the file that the environment
/// names if it names one, else in the current directory.
pub fn discover_context_path(explicit: Option<PathBuf>, cwd: Option<PathBuf>) -> (state: Discovery)
    ensures
        state == match (explicit, cwd) {
            (Some(path), cwd) => Discovery::Explicit(path, cwd),
            (None, Some(dir)) => Discovery::Searching(dir),
            (None, None) => Discovery::Missing,
        },
{
    match explicit {
        Some(path) => Discovery::Explicit(path, cwd),
        None => match cwd {
            Some(dir) => Discovery::Searching(dir),
            None => Discovery::Missing,
        },
    }
}

impl Discovery {
    /// The file to look for next; `None` once the search is over.
    pub fn candidate(&self) -> (path: Option<PathBuf>)
        ensures
            path == candidate_of(*self),
    {
        match self {
            Discovery::Explicit(path, _) => Some(path_clone(path)),
            Discovery::Searching(dir) => Some(join_context_file(dir)),
            _ => None,
        }
    }

    /// Goes on with the search, given whether the candidate is a file.
    ///
    /// Where the environment names a file that is not there, the search goes on
    /// in the current directory; from a directory it goes on in the parent, as
    /// long as there is one.
    pub fn answer(self, is_file: bool) -> (next: Discovery)
        ensures
            next == answered(self, is_file),
            remaining(self) > 0 ==> remaining(next) < remaining(self),
    {
        match self {
            Discovery::Explicit(path, cwd) => if is_file {
                Discovery::Found(path)
            } else {
                match cwd {
                    Some(dir) => Discovery::Searching(dir),
                    None => Discovery::Missing,
                }
            },
            Discovery::Searching(dir) => {
                if is_file {
                    return Discovery::Found(join_context_file(&dir));
                }
                let mut parent = dir;
                if path_pop(&mut parent) {
                    Discovery::Searching(parent)
                } else {
                    Discovery::Missing
                }
            },
            done => done,
        }
    }
}

/// Where some ancestor has a context file, one of them is the nearest.
proof fn lemma_some_is_nearest(dir: PathBuf, files: Set<PathBuf>, n: nat)
    requires
        has_context(dir, files, n),
    ensures
        exists|m: nat| nearest(dir, files, m),
    decreases n,
{
    if exists|m: nat| m < n && #[trigger] has_context(dir, files, m) {
        let m = choose|m: nat| m < n && #[trigger] has_context(dir, files, m);
        lemma_some_is_nearest(dir, files, m);
    } else {
        assert(nearest(dir, files, n));
    }
}

/// There is only one nearest ancestor with a context file.
proof fn lemma_search_finds(dir: PathBuf, files: Set<PathBuf>, n: nat)
    requires
        nearest(dir, files, n),
    ensures
        search(dir, files) == Some(context_file_of(ancestor(dir, n)->0)),
{
    let m = choose|m: nat| nearest(dir, files, m);
    if m < n {
        assert(!has_context(dir, files, m));
    } else if n < m {
        assert(!has_context(dir, files, n));
    }
}

/// The search finds the context file of the nearest ancestor that has one, the
/// directory itself included, and nothing exactly when none has one.
pub proof fn lemma_nearest_ancestor_wins(dir: PathBuf, files: Set<PathBuf>)
    ensures
        match search(dir, files) {
            Some(path) => exists|n: nat| #[trigger]
                nearest(dir, files, n) && path == context_file_of(ancestor(dir, n)->0)
                    && files.contains(path),
            None => forall|n: nat| !#[trigger] has_context(dir, files, n),
        },
{
    if search(dir, files) is None {
        assert forall|n: nat| !#[trigger] has_context(dir, files, n) by {
            if has_context(dir, files, n) {
                lemma_some_is_nearest(dir, files, n);
            }
        }
    } else {
        let n = choose|n: nat| nearest(dir, files, n);
        assert(nearest(dir, files, n));
    }
}

/// A search that finds nothing in a directory goes on in the parent.
proof fn lemma_search_goes_on(dir: PathBuf, files: Set<PathBuf>)
    requires
        !files.contains(context_file_of(dir)),
    ensures
        search(dir, files) == if has_parent(components(dir)) {
            search(parent_path(dir), files)
        } else {
            None
        },
{
    let parent = parent_path(dir);
    assert(!has_context(dir, files, 0));
    lemma_nearest_ancestor_wins(dir, files);
    if has_parent(components(dir)) {
        lemma_nearest_ancestor_wins(parent, files);
        assert forall|n: nat| has_context(dir, files, n + 1) == #[trigger] has_context(
            parent,
            files,
            n,
        ) by {
            assert(ancestor(dir, n + 1) == ancestor(parent, n));
        }
        if search(parent, files) is Some {
            let n = choose|n: nat| nearest(parent, files, n);
            assert forall|m: nat| m < n + 1 implies !#[trigger] has_context(dir, files, m) by {
                if m > 0 {
                    assert(!has_context(parent, files, (m - 1) as nat));
                    assert(has_context(dir, files, ((m - 1) as nat) + 1) == has_context(
                        parent,
                        files,
                        (m - 1) as nat,
                    ));
                }
            }
            assert(has_context(dir, files, n + 1));
            assert(nearest(dir, files, n + 1));
            lemma_search_finds(dir, files, n + 1);
            lemma_search_finds(parent, files, n);
        } else if search(dir, files) is Some {
            let n = choose|n: nat| nearest(dir, files, n);
            assert(has_context(parent, files, (n - 1) as nat));
        }
    } else if search(dir, files) is Some {
        let n = choose|n: nat| nearest(dir, files, n);
        assert(n == 0);
    }
}

/// A true answer never changes what the search ends with.
pub proof fn lemma_answer_keeps_outcome(state: Discovery, is_file: bool, files: Set<PathBuf>)
    requires
        candidate_of(state) matches Some(candidate) ==> is_file == files.contains(candidate),
    ensures
        outcome(answered(state, is_file), files) == outcome(state, files),
{
    if let Discovery::Searching(dir) = state {
        if is_file {
            assert(has_context(dir, files, 0));
            assert(nearest(dir, files, 0));
            lemma_search_finds(dir, files, 0);
        } else {
            lemma_search_goes_on(dir, files);
        }
    }
}

/// A session that is stored in a workspace is found from every directory inside
/// the workspace, unless another one is stored on the way.
pub proof fn lemma_found_from_inside(ctx: HarnessContext, dir: PathBuf, n: nat, files: Set<PathBuf>)
    requires
        ancestor(dir, n) == Some(ctx.workspace),
        files.contains(context_file_of(ctx.workspace)),
        forall|m: nat| m < n ==> !#[trigger] has_context(dir, files, m),
    ensures
        search(dir, files) == Some(context_file_of(ctx.workspace)),
{
    assert(nearest(dir, files, n));
    lemma_search_finds(dir, files, n);
}

/// Each of the two ways leads to a context: the file that the environment names
/// wins, and where it is not there the search from the current directory
/// decides, as it does where the environment names none.
pub proof fn lemma_either_way_leads_to_a_context(
    path: PathBuf,
    cwd: PathBuf,
    files: Set<PathBuf>,
)
    ensures
        files.contains(path) ==> outcome(Discovery::Explicit(path, Some(cwd)), files) == Some(path),
        !files.contains(path) ==> outcome(Discovery::Explicit(path, Some(cwd)), files) == outcome(
            Discovery::Searching(cwd),
            files,
        ),
{
}

/// The files of a session lie in the harness directory of its workspace.
pub proof fn lemma_session_files(
    ctx: HarnessContext,
    dir: PathBuf,
    context_path: PathBuf,
    events_path: PathBuf,
)
    requires
        call_ensures(HarnessContext::harness_dir, (&ctx,), dir),
        call_ensures(HarnessContext::context_path, (&ctx,), context_path),
        call_ensures(HarnessContext::events_path, (&ctx,), events_path),
    ensures
        dir == joined_path(ctx.workspace, ".goose-harness"@),
        context_path == joined_path(dir, "session.json"@),
        events_path == joined_path(dir, "events.jsonl"@),
        !prefixed(components(events_path)) ==> components(events_path) == components(ctx.workspace)
            + seq![Component::Normal(".goose-harness"@), Component::Normal("events.jsonl"@)],
        !prefixed(components(context_path)) ==> components(context_path) == components(
            ctx.workspace,
        ) + seq![Component::Normal(".goose-harness"@), Component::Normal("session.json"@)],
{
}

/// A search finds a session where the session is stored.
pub proof fn lemma_stored_where_found(
    ctx: HarnessContext,
    context_path: PathBuf,
    state: Discovery,
    candidate: Option<PathBuf>,
    next: Discovery,
)
    requires
        call_ensures(HarnessContext::context_path, (&ctx,), context_path),
        state == Discovery::Searching(ctx.workspace),
        call_ensures(Discovery::candidate, (&state,), candidate),
        call_ensures(Discovery::answer, (state, true), next),
    ensures
        candidate == Some(context_path),
        next == Discovery::Found(context_path),
{
}

/// The search starts at the file that the environment names, with the current
/// directory in reserve, else in the current directory, else nowhere.
pub proof fn lemma_discovery_starts(
    explicit: Option<PathBuf>,
    cwd: Option<PathBuf>,
    state: Discovery,
    candidate: Option<PathBuf>,
)
    requires
        call_ensures(discover_context_path, (explicit, cwd), state),
        call_ensures(Discovery::candidate, (&state,), candidate),
    ensures
        explicit is Some ==> candidate == explicit && state == Discovery::Explicit(
            explicit->0,
            cwd,
        ),
        explicit is None && cwd is Some ==> candidate == Some(
            joined_path(joined_path(cwd->0, ".goose-harness"@), "session.json"@),
        ) && state == Discovery::Searching(cwd->0),
        explicit is None && cwd is None ==> candidate is None && state is Missing,
{
}

/// A named file that is there is found; where it is not, the search goes on as
/// if none had been named.
pub proof fn lemma_missing_file_is_as_none(
    path: PathBuf,
    cwd: Option<PathBuf>,
    named: Discovery,
    unnamed: Discovery,
    hit: Discovery,
    miss: Discovery,
)
    requires
        call_ensures(discover_context_path, (Some(path), cwd), named),
        call_ensures(discover_context_path, (None, cwd), unnamed),
        call_ensures(Discovery::answer, (named, true), hit),
        call_ensures(Discovery::answer, (named, false), miss),
    ensures
        hit == Discovery::Found(path),
        miss == unnamed,
{
}

/// A search upwards asks in each directory on the way, and finds the context
/// file of the first that has one.
pub proof fn lemma_search_walks_up(
    dirs: Seq<PathBuf>,
    states: Seq<Discovery>,
    found: Discovery,
    n: int,
)
    requires
        0 <= n < dirs.len() == states.len(),
        states[0] == Discovery::Searching(dirs[0]),
        forall|k: int|
            0 <= k < n ==> has_parent(components(#[trigger] dirs[k])) && dirs[k + 1]
                == parent_path(dirs[k]),
        forall|k: int|
            0 <= k < n ==> call_ensures(
                Discovery::answer,
                (#[trigger] states[k], false),
                states[k + 1],
            ),
        call_ensures(Discovery::answer, (states[n], true), found),
    ensures
        states[n] == Discovery::Searching(dirs[n]),
        found == Discovery::Found(
            joined_path(joined_path(dirs[n], ".goose-harness"@), "session.json"@),
        ),
    decreases n,
{
    lemma_search_reaches(dirs, states, n);
}

/// A search upwards reaches the directories in turn.
proof fn lemma_search_reaches(dirs: Seq<PathBuf>, states: Seq<Discovery>, n: int)
    requires
        0 <= n < dirs.len() == states.len(),
        states[0] == Discovery::Searching(dirs[0]),
        forall|k: int|
            0 <= k < n ==> has_parent(components(#[trigger] dirs[k])) && dirs[k + 1]
                == parent_path(dirs[k]),
        forall|k: int|
            0 <= k < n ==> call_ensures(
                Discovery::answer,
                (#[trigger] states[k], false),
                states[k + 1],
            ),
    ensures
        states[n] == Discovery::Searching(dirs[n]),
    decreases n,
{
    if n > 0 {
        lemma_search_reaches(dirs, states, n - 1);
        let before = states[n - 1];
        assert(call_ensures(Discovery::answer, (before, false), states[n - 1 + 1]));
        assert(has_parent(components(dirs[n - 1])));
    }
}

/// Where nothing is found and there is no parent, the search ends without a
/// context, and a search that has ended stays as it is.
pub proof fn lemma_search_ends(
    dir: PathBuf,
    over: Discovery,
    done: Discovery,
    is_file: bool,
    next: Discovery,
    candidate: Option<PathBuf>,
)
    requires
        !has_parent(components(dir)),
        call_ensures(Discovery::answer, (Discovery::Searching(dir), false), over),
        done is Found || done is Missing,
        call_ensures(Discovery::answer, (done, is_file), next),
        call_ensures(Discovery::candidate, (&done,), candidate),
    ensures
        over is Missing,
        next == done,
        candidate is None,
{
}

/// A copy of a context, or of an endpoint, says the same in every field.
pub proof fn lemma_context_copies(
    ctx: HarnessContext,
    copy: HarnessContext,
    ingest: IngestConfig,
    ingest_copy: IngestConfig,
    i: int,
)
    requires
        call_ensures(<HarnessContext as Clone>::clone, (&ctx,), copy),
        call_ensures(<IngestConfig as Clone>::clone, (&ingest,), ingest_copy),
    ensures
        copy.harness_session_id@ == ctx.harness_session_id@,
        text_of(copy.principal) == text_of(ctx.principal),
        text_of(copy.profile_id) == text_of(ctx.profile_id),
        copy.workspace == ctx.workspace,
        text_of(copy.base_commit) == text_of(ctx.base_commit),
        copy.ingest is Some <==> ctx.ingest is Some,
        ctx.ingest is Some ==> copy.ingest->0.endpoint@ == ctx.ingest->0.endpoint@ && text_of(
            copy.ingest->0.token,
        ) == text_of(ctx.ingest->0.token),
        copy.policy.deny@.len() == ctx.policy.deny@.len(),
        0 <= i < ctx.policy.deny@.len() ==> copy.policy.deny@[i]@ == ctx.policy.deny@[i]@,
        copy.policy.require_approval@.len() == ctx.policy.require_approval@.len(),
        0 <= i < ctx.policy.require_approval@.len() ==> copy.policy.require_approval@[i]@
            == ctx.policy.require_approval@[i]@,
        ingest_copy.endpoint@ == ingest.endpoint@,
        text_of(ingest_copy.token) == text_of(ingest.token),
{
    assert(copy@ == ctx@);
    assert(copy@.policy == ctx@.policy);
    lemma_policy_is_its_rules(copy.policy, PolicyVerdict::Allow, i);
    lemma_policy_is_its_rules(ctx.policy, PolicyVerdict::Allow, i);
}

/// What a context says is what its fields say, and what an endpoint says what
/// its fields say.
pub proof fn lemma_context_is_its_fields(ctx: HarnessContext, ingest: IngestConfig)
    ensures
        ctx@.harness_session_id == ctx.harness_session_id@,
        ctx@.principal == text_of(ctx.principal),
        ctx@.profile_id == text_of(ctx.profile_id),
        ctx@.workspace == ctx.workspace,
        ctx@.base_commit == text_of(ctx.base_commit),
        ctx@.ingest == ingest_info(ctx.ingest),
        ctx@.policy == ctx.policy@,
        ingest_info(Some(ingest)) == Some(
            IngestInfo { endpoint: ingest.endpoint@, token: text_of(ingest.token) },
        ),
        ingest_info(None) is None,
{
}

/// Each answer shortens the search: from a directory it goes on only in one of
/// fewer components, and from a named file only in the current directory.
pub proof fn lemma_answer_shortens_search(state: Discovery, is_file: bool, next: Discovery)
    requires
        call_ensures(Discovery::answer, (state, is_file), next),
    ensures
        !(next is Explicit),
        state matches Discovery::Searching(dir) ==> {
            next matches Discovery::Searching(parent) ==> components(parent).len() < components(
                dir,
            ).len()
        },
{
    if let Discovery::Searching(dir) = state {
        if let Discovery::Searching(parent) = next {
            assert(remaining(next) < remaining(state));
        }
    }
}

} // verus!
