//! Provisioning of a session from a profile.
//!
//! The workspace is checked out, the locked configuration is applied, the
//! context is stored, and the agent is launched in the workspace. Here it is
//! decided what to do next; the caller does it and says how it went.

use crate::context::{
    clone_ingest, context_file_of, ingest_info, ContextInfo, HarnessContext, IngestConfig,
    IngestInfo, HARNESS_CONTEXT_ENV,
};
use crate::events::HarnessEvent;
use crate::git::{clone_args, clone_arguments, clone_dir, workspace_dir_name};
use crate::harness::{
    activate, emit_active, identified, live, live_after, seq_after, settled, stamped, tapped,
    utc_timestamp, AlreadyInitialized, HarnessCell,
};
use crate::json::{
    json, json_i64, json_null, json_object, json_text, object_insert, object_new, Entries, Json,
};
use crate::path::{joined_path, lossy, path_join, path_text};
use crate::policy::{
    lemma_policy_is_its_rules, lemma_same_rules_rule_alike, ruling, HarnessPolicy, PolicyVerdict,
};
use crate::profile::{env_names, keys, locked_env, values, Profile};
use crate::text::{str_of, text_of, texts, trim, trimmed, uppercase};
use std::path::PathBuf;
use vstd::prelude::*;
use vstd::string::*;

verus! {

/// A lower-case hexadecimal digit.
pub open spec fn hex_digit(c: char) -> bool {
    '0' <= c <= '9' || 'a' <= c <= 'f'
}

/// The text of a version 7 UUID: lower-case hexadecimal digits in five groups.
pub open spec fn uuid_v7_text(s: Seq<char>) -> bool {
    &&& s.len() == 36
    &&& forall|i: int|
        0 <= i < 36 ==> if i == 8 || i == 13 || i == 18 || i == 23 {
            #[trigger] s[i] == '-'
        } else {
            hex_digit(s[i])
        }
    &&& s[14] == '7'
    &&& s[19] == '8' || s[19] == '9' || s[19] == 'a' || s[19] == 'b'
}

/// Calls `uuid::Uuid::now_v7` and writes the UUID with `to_string`: a new
/// identifier.
///
/// The text depends on the clock and on chance; whatever they give, it is that
/// of a version 7 UUID. That no two calls give the same is not stated. A clock
/// that is set before 1970, or a system without random numbers, makes `uuid`
/// panic.
#[verifier::external_body]
fn new_session_id() -> (id: String)
    ensures
        uuid_v7_text(id@),
{
    uuid::Uuid::now_v7().to_string()
}

/// The endpoint of a session. The session's token authenticates where the
/// profile has no credential of its own.
pub open spec fn session_ingest_info(
    ingest: Option<IngestInfo>,
    token: Option<Seq<char>>,
) -> Option<IngestInfo> {
    match ingest {
        Some(config) => Some(
            IngestInfo {
                endpoint: config.endpoint,
                token: if config.token is Some {
                    config.token
                } else {
                    token
                },
            },
        ),
        None => None,
    }
}

/// The endpoint of a session.
pub fn session_ingest(ingest: &Option<IngestConfig>, token: Option<&str>) -> (config: Option<
    IngestConfig,
>)
    ensures
        ingest_info(config) == session_ingest_info(ingest_info(*ingest), str_of(token)),
{
    let mut config = clone_ingest(ingest);
    if let Some(config) = &mut config {
        if let Some(token) = token {
            if config.token.is_none() {
                config.token = Some(token.to_owned());
            }
        }
    }
    config
}

/// What the context of a session says.
pub open spec fn context_info(
    profile: Profile,
    principal: Option<Seq<char>>,
    token: Option<Seq<char>>,
    workspace: PathBuf,
    base_commit: Option<Seq<char>>,
    session_id: Seq<char>,
) -> ContextInfo {
    ContextInfo {
        harness_session_id: session_id,
        principal,
        profile_id: Some(profile.id@),
        workspace,
        base_commit,
        ingest: session_ingest_info(ingest_info(profile.ingest), token),
        policy: profile.policy@,
    }
}

/// The context of the session `session_id`.
pub fn context_of(
    profile: &Profile,
    principal: Option<String>,
    token: Option<&str>,
    workspace: PathBuf,
    base_commit: Option<String>,
    session_id: String,
) -> (ctx: HarnessContext)
    ensures
        ctx@ == context_info(
            *profile,
            text_of(principal),
            str_of(token),
            workspace,
            text_of(base_commit),
            session_id@,
        ),
{
    HarnessContext {
        harness_session_id: session_id,
        principal,
        profile_id: Some(profile.id.clone()),
        workspace,
        base_commit,
        ingest: session_ingest(&profile.ingest, token),
        policy: profile.policy.clone(),
    }
}

/// The context of a new session.
pub fn new_context(
    profile: &Profile,
    principal: Option<String>,
    token: Option<&str>,
    workspace: PathBuf,
    base_commit: Option<String>,
) -> (ctx: HarnessContext)
    ensures
        uuid_v7_text(ctx.harness_session_id@),
        ctx@ == context_info(
            *profile,
            text_of(principal),
            str_of(token),
            workspace,
            text_of(base_commit),
            ctx.harness_session_id@,
        ),
{
    context_of(profile, principal, token, workspace, base_commit, new_session_id())
}

/// How the provisioning of a session has come along.
pub enum StartEvent {
    /// The profile has been loaded and this base directory is there.
    Loaded(PathBuf),
    /// It is known whether the clone's directory is a git repository already;
    /// the path of that directory.
    Probed(bool, PathBuf),
    /// The repository has been cloned.
    Cloned,
    /// The repository could not be cloned.
    CloneFailed,
    /// What git said is checked out, if it said something.
    Head(Option<String>),
    /// The context is stored, and the session has started.
    Provisioned,
    /// The session could not be provisioned.
    ProvisionFailed,
    /// The agent has exited, with the given code if it has one.
    Exited(Option<i32>),
    /// The agent could not be launched.
    LaunchFailed,
}

/// What the provisioning of a session needs next.
pub enum StartAction {
    /// Find out whether this directory is a git repository.
    Probe(PathBuf),
    /// Run git with these arguments in the base directory.
    Clone(Vec<String>),
    /// Ask git what is checked out.
    ReadHead,
    /// Provision the session with this base commit, step by step as
    /// [`next_provision`] says.
    Provision(Option<String>),
    /// Launch the agent in the workspace with these arguments.
    Launch(Vec<String>),
    /// Leave it at that: the session is provisioned but not launched.
    Leave,
    /// Record that the session is paused, the agent having exited with this
    /// code if it has one.
    Pause(Option<i32>),
    /// Give up.
    Fail,
}

/// The arguments that launch the agent.
pub open spec fn launch_arguments(recipe: Option<Seq<char>>) -> Seq<Seq<char>> {
    match recipe {
        Some(recipe) => seq!["run"@, "--recipe"@, recipe, "--interactive"@],
        None => seq!["session"@],
    }
}

/// What the event of a paused session says.
pub open spec fn pause_entries(exit_code: Option<i32>) -> Entries {
    Entries::empty().insert(
        "exit_code"@,
        match exit_code {
            Some(code) => Json::Int(code as int),
            None => Json::Null,
        },
    )
}

/// `action` is what `event` calls for.
pub open spec fn called_for(
    profile: Profile,
    no_launch: bool,
    event: StartEvent,
    action: StartAction,
) -> bool {
    match event {
        StartEvent::Loaded(base) => match profile.workspace {
            Some(spec) => action matches StartAction::Probe(dir) && dir == joined_path(
                base,
                clone_dir(spec),
            ),
            None => action matches StartAction::Provision(None),
        },
        StartEvent::Probed(is_repo, target) => match profile.workspace {
            Some(spec) => if is_repo {
                action is ReadHead
            } else {
                action matches StartAction::Clone(args) && texts(args@)
                    == clone_arguments(spec, lossy(target))
            },
            None => action matches StartAction::Provision(None),
        },
        StartEvent::Cloned => action is ReadHead,
        StartEvent::CloneFailed => action is Fail,
        StartEvent::Head(out) => {
            &&& action matches StartAction::Provision(base_commit)
            &&& text_of(base_commit) == match out {
                Some(out) => Some(trimmed(out@)),
                None => None,
            }
        },
        StartEvent::Provisioned => if no_launch {
            action is Leave
        } else {
            action matches StartAction::Launch(args) && texts(args@)
                == launch_arguments(text_of(profile.recipe))
        },
        StartEvent::ProvisionFailed => action is Fail,
        StartEvent::Exited(exit_code) => action == StartAction::Pause(exit_code),
        StartEvent::LaunchFailed => action is Fail,
    }
}

/// The arguments that launch the agent.
fn launch_args(recipe: &Option<String>) -> (args: Vec<String>)
    ensures
        texts(args@) == launch_arguments(text_of(*recipe)),
{
    let mut args: Vec<String> = Vec::new();
    match recipe {
        Some(recipe) => {
            args.push("run".to_owned());
            args.push("--recipe".to_owned());
            args.push(recipe.clone());
            args.push("--interactive".to_owned());
        },
        None => {
            args.push("session".to_owned());
        },
    }
    assert(texts(args@) =~= launch_arguments(text_of(*recipe)));
    args
}

/// What the provisioning of a session needs next.
///
/// A workspace is cloned only where its directory is not a repository already,
/// and the commit that it starts from is read in either case.
pub fn next_action(profile: &Profile, no_launch: bool, event: StartEvent) -> (action: StartAction)
    ensures
        called_for(*profile, no_launch, event, action),
{
    match event {
        StartEvent::Loaded(base) => match &profile.workspace {
            Some(spec) => StartAction::Probe(path_join(&base, workspace_dir_name(spec).as_str())),
            None => StartAction::Provision(None),
        },
        StartEvent::Probed(is_repo, target) => match &profile.workspace {
            Some(spec) => if is_repo {
                StartAction::ReadHead
            } else {
                StartAction::Clone(clone_args(spec, path_text(&target).as_str()))
            },
            None => StartAction::Provision(None),
        },
        StartEvent::Cloned => StartAction::ReadHead,
        StartEvent::CloneFailed => StartAction::Fail,
        StartEvent::Head(out) => StartAction::Provision(
            match out {
                Some(out) => Some(trim(out.as_str())),
                None => None,
            },
        ),
        StartEvent::Provisioned => if no_launch {
            StartAction::Leave
        } else {
            StartAction::Launch(launch_args(&profile.recipe))
        },
        StartEvent::ProvisionFailed => StartAction::Fail,
        StartEvent::Exited(exit_code) => StartAction::Pause(exit_code),
        StartEvent::LaunchFailed => StartAction::Fail,
    }
}

/// `event` can be what comes of `action`.
pub open spec fn comes_of(action: StartAction, event: StartEvent) -> bool {
    match action {
        StartAction::Probe(dir) => event matches StartEvent::Probed(_, target) && target == dir,
        StartAction::Clone(_) => event is Cloned || event is CloneFailed,
        StartAction::ReadHead => event is Head,
        StartAction::Provision(_) => event is Provisioned || event is ProvisionFailed,
        StartAction::Launch(_) => event is Exited || event is LaunchFailed,
        StartAction::Leave | StartAction::Pause(_) | StartAction::Fail => false,
    }
}

/// A session is provisioned by these actions, each called for by the event that
/// came of the one before it.
pub open spec fn provisioning(
    profile: Profile,
    no_launch: bool,
    events: Seq<StartEvent>,
    actions: Seq<StartAction>,
) -> bool {
    &&& events.len() == actions.len()
    &&& events.len() > 0 ==> events[0] is Loaded
    &&& forall|i: int|
        0 <= i < events.len() ==> called_for(profile, no_launch, #[trigger] events[i], actions[i])
    &&& forall|i: int|
        0 < i < events.len() ==> comes_of(actions[i - 1], #[trigger] events[i])
}

/// How far the provisioning of a session has come.
pub open spec fn stage(event: StartEvent) -> int {
    match event {
        StartEvent::Loaded(_) => 0,
        StartEvent::Probed(_, _) => 1,
        StartEvent::Cloned | StartEvent::CloneFailed => 2,
        StartEvent::Head(_) => 3,
        StartEvent::Provisioned | StartEvent::ProvisionFailed => 4,
        StartEvent::Exited(_) | StartEvent::LaunchFailed => 5,
    }
}

/// The provisioning of a session never goes back.
pub proof fn lemma_stages_go_up(
    profile: Profile,
    no_launch: bool,
    events: Seq<StartEvent>,
    actions: Seq<StartAction>,
    i: int,
    j: int,
)
    requires
        provisioning(profile, no_launch, events, actions),
        0 <= i < j < events.len(),
    ensures
        stage(events[i]) < stage(events[j]),
    decreases j - i,
{
    assert(called_for(profile, no_launch, events[j - 1], actions[j - 1]));
    assert(comes_of(actions[j - 1], events[j]));
    if i < j - 1 {
        lemma_stages_go_up(profile, no_launch, events, actions, i, j - 1);
    }
}

/// A clone that fails is the end of it, and nothing has been set, stored or
/// launched by that time.
pub proof fn lemma_failed_clone_stores_nothing(
    profile: Profile,
    no_launch: bool,
    events: Seq<StartEvent>,
    actions: Seq<StartAction>,
    i: int,
)
    requires
        provisioning(profile, no_launch, events, actions),
        0 <= i < events.len(),
        events[i] is CloneFailed,
    ensures
        i == events.len() - 1,
        actions[i] is Fail,
        forall|j: int|
            0 <= j < i ==> (#[trigger] actions[j]) is Probe || actions[j] is Clone,
{
    assert(called_for(profile, no_launch, events[i], actions[i]));
    if i + 1 < events.len() {
        assert(comes_of(actions[i], events[i + 1]));
    }
    assert forall|j: int| 0 <= j < i implies (#[trigger] actions[j]) is Probe
        || actions[j] is Clone by {
        assert(comes_of(actions[j], events[j + 1]));
        if j + 1 < i {
            lemma_stages_go_up(profile, no_launch, events, actions, j + 1, i);
        }
    }
}

/// A workspace that is there already is never cloned.
pub proof fn lemma_present_workspace_is_kept(
    profile: Profile,
    no_launch: bool,
    events: Seq<StartEvent>,
    actions: Seq<StartAction>,
    i: int,
    j: int,
)
    requires
        provisioning(profile, no_launch, events, actions),
        0 <= i < events.len(),
        events[i] matches StartEvent::Probed(true, _),
        0 <= j < events.len(),
    ensures
        !(actions[j] is Clone),
{
    assert(called_for(profile, no_launch, events[i], actions[i]));
    assert(called_for(profile, no_launch, events[j], actions[j]));
    if i < j {
        lemma_stages_go_up(profile, no_launch, events, actions, i, j);
    } else if j < i {
        lemma_stages_go_up(profile, no_launch, events, actions, j, i);
    }
}

/// Whatever fails is the end of it. A session that could not be provisioned is
/// not launched, and nothing that failed is recorded as paused.
pub proof fn lemma_failure_is_the_end(
    profile: Profile,
    no_launch: bool,
    events: Seq<StartEvent>,
    actions: Seq<StartAction>,
    i: int,
)
    requires
        provisioning(profile, no_launch, events, actions),
        0 <= i < events.len(),
        events[i] is CloneFailed || events[i] is ProvisionFailed || events[i] is LaunchFailed,
    ensures
        i == events.len() - 1,
        actions[i] is Fail,
        forall|j: int| 0 <= j <= i ==> !((#[trigger] actions[j]) is Pause),
        events[i] is ProvisionFailed ==> forall|j: int|
            0 <= j <= i ==> !((#[trigger] actions[j]) is Launch),
{
    assert(called_for(profile, no_launch, events[i], actions[i]));
    if i + 1 < events.len() {
        assert(comes_of(actions[i], events[i + 1]));
    }
    assert forall|j: int| 0 <= j < i implies !((#[trigger] actions[j]) is Pause) && (
    events[i] is ProvisionFailed ==> !(actions[j] is Launch)) by {
        assert(comes_of(actions[j], events[j + 1]));
        if j + 1 < i {
            lemma_stages_go_up(profile, no_launch, events, actions, j + 1, i);
        }
    }
}

/// How one session's own provisioning has come along.
pub enum ProvisionEvent {
    /// The context has been made.
    Begun,
    /// The locked configuration has been applied.
    ConfigLocked,
    /// Harness state has been excluded from git's view of the workspace.
    Excluded,
    /// The context has been stored in the workspace.
    Stored,
    /// The context could not be stored.
    StoreFailed,
    /// The environment names the context file.
    VariableSet,
    /// The session has started.
    Started,
    /// Another harness was settled before.
    StartRefused,
}

/// What one session's own provisioning needs next.
pub enum ProvisionAction {
    /// Set these environment variables, in order.
    LockConfig(Vec<(String, String)>),
    /// Exclude harness state from git's view of the workspace.
    Exclude,
    /// Store the context in the workspace.
    Store,
    /// Set this environment variable to this path.
    SetVariable(String, PathBuf),
    /// Start the session, as [`start_session`] does, and deliver its event.
    Start,
    /// That was all.
    Complete,
    /// Give up.
    Fail,
}

/// `action` is what `event` calls for.
pub open spec fn provision_calls_for(
    profile: Profile,
    ctx: HarnessContext,
    event: ProvisionEvent,
    action: ProvisionAction,
) -> bool {
    match event {
        ProvisionEvent::Begun => {
            &&& action matches ProvisionAction::LockConfig(env)
            &&& keys(env@) == env_names(profile.config_locked@)
            &&& values(env@) == values(profile.config_locked@)
        },
        ProvisionEvent::ConfigLocked => action is Exclude,
        ProvisionEvent::Excluded => action is Store,
        ProvisionEvent::Stored => {
            &&& action matches ProvisionAction::SetVariable(name, path)
            &&& name@ == HARNESS_CONTEXT_ENV@
            &&& path == context_file_of(ctx.workspace)
        },
        ProvisionEvent::StoreFailed => action is Fail,
        ProvisionEvent::VariableSet => action is Start,
        ProvisionEvent::Started => action is Complete,
        ProvisionEvent::StartRefused => action is Fail,
    }
}

/// What one session's own provisioning needs next: the locked configuration,
/// the exclusion, the stored context, the variable that names it, the start.
pub fn next_provision(profile: &Profile, ctx: &HarnessContext, event: ProvisionEvent) -> (action:
    ProvisionAction)
    ensures
        provision_calls_for(*profile, *ctx, event, action),
{
    match event {
        ProvisionEvent::Begun => ProvisionAction::LockConfig(locked_env(&profile.config_locked)),
        ProvisionEvent::ConfigLocked => ProvisionAction::Exclude,
        ProvisionEvent::Excluded => ProvisionAction::Store,
        ProvisionEvent::Stored => ProvisionAction::SetVariable(
            HARNESS_CONTEXT_ENV.to_owned(),
            ctx.context_path(),
        ),
        ProvisionEvent::StoreFailed => ProvisionAction::Fail,
        ProvisionEvent::VariableSet => ProvisionAction::Start,
        ProvisionEvent::Started => ProvisionAction::Complete,
        ProvisionEvent::StartRefused => ProvisionAction::Fail,
    }
}

/// `event` can be what comes of `action`.
pub open spec fn provision_comes_of(action: ProvisionAction, event: ProvisionEvent) -> bool {
    match action {
        ProvisionAction::LockConfig(_) => event is ConfigLocked,
        ProvisionAction::Exclude => event is Excluded,
        ProvisionAction::Store => event is Stored || event is StoreFailed,
        ProvisionAction::SetVariable(_, _) => event is VariableSet,
        ProvisionAction::Start => event is Started || event is StartRefused,
        ProvisionAction::Complete | ProvisionAction::Fail => false,
    }
}

/// One session is provisioned by these actions, each called for by the event
/// that came of the one before it.
pub open spec fn provision_run(
    profile: Profile,
    ctx: HarnessContext,
    events: Seq<ProvisionEvent>,
    actions: Seq<ProvisionAction>,
) -> bool {
    &&& events.len() == actions.len()
    &&& events.len() > 0 ==> events[0] is Begun
    &&& forall|i: int|
        0 <= i < events.len() ==> provision_calls_for(
            profile,
            ctx,
            #[trigger] events[i],
            actions[i],
        )
    &&& forall|i: int|
        0 < i < events.len() ==> provision_comes_of(actions[i - 1], #[trigger] events[i])
}

/// The place of a step in the order of provisioning.
pub open spec fn provision_stage(event: ProvisionEvent) -> int {
    match event {
        ProvisionEvent::Begun => 0,
        ProvisionEvent::ConfigLocked => 1,
        ProvisionEvent::Excluded => 2,
        ProvisionEvent::Stored | ProvisionEvent::StoreFailed => 3,
        ProvisionEvent::VariableSet => 4,
        ProvisionEvent::Started | ProvisionEvent::StartRefused => 5,
    }
}

/// The steps of provisioning come in order, each of them once, and none is left
/// out.
pub proof fn lemma_provision_order(
    profile: Profile,
    ctx: HarnessContext,
    events: Seq<ProvisionEvent>,
    actions: Seq<ProvisionAction>,
    i: int,
)
    requires
        provision_run(profile, ctx, events, actions),
        0 <= i < events.len(),
    ensures
        provision_stage(events[i]) == i,
    decreases i,
{
    if i > 0 {
        lemma_provision_order(profile, ctx, events, actions, i - 1);
        assert(provision_calls_for(profile, ctx, events[i - 1], actions[i - 1]));
        assert(provision_comes_of(actions[i - 1], events[i]));
    }
}

/// A context that could not be stored is the end of it: no variable names it,
/// and no session has started.
pub proof fn lemma_failed_store_starts_nothing(
    profile: Profile,
    ctx: HarnessContext,
    events: Seq<ProvisionEvent>,
    actions: Seq<ProvisionAction>,
    i: int,
)
    requires
        provision_run(profile, ctx, events, actions),
        0 <= i < events.len(),
        events[i] is StoreFailed,
    ensures
        i == events.len() - 1,
        actions[i] is Fail,
        forall|j: int|
            0 <= j < i ==> !((#[trigger] actions[j]) is SetVariable) && !(actions[j] is Start),
{
    assert(provision_calls_for(profile, ctx, events[i], actions[i]));
    if i + 1 < events.len() {
        assert(provision_comes_of(actions[i], events[i + 1]));
    }
    lemma_provision_order(profile, ctx, events, actions, i);
    assert forall|j: int| 0 <= j < i implies !((#[trigger] actions[j]) is SetVariable) && !(
    actions[j] is Start) by {
        lemma_provision_order(profile, ctx, events, actions, j);
        assert(provision_calls_for(profile, ctx, events[j], actions[j]));
    }
}

/// A session starts only once its context is stored and named.
pub proof fn lemma_start_comes_after_store(
    profile: Profile,
    ctx: HarnessContext,
    events: Seq<ProvisionEvent>,
    actions: Seq<ProvisionAction>,
    i: int,
)
    requires
        provision_run(profile, ctx, events, actions),
        0 <= i < events.len(),
        actions[i] is Start,
    ensures
        i == 4,
        actions[0] is LockConfig,
        actions[1] is Exclude,
        actions[2] is Store,
        events[3] is Stored,
        actions[3] is SetVariable,
{
    lemma_provision_order(profile, ctx, events, actions, i);
    assert(provision_calls_for(profile, ctx, events[i], actions[i]));
    assert(provision_calls_for(profile, ctx, events[0], actions[0]));
    lemma_provision_order(profile, ctx, events, actions, 1);
    assert(provision_calls_for(profile, ctx, events[1], actions[1]));
    lemma_provision_order(profile, ctx, events, actions, 2);
    assert(provision_calls_for(profile, ctx, events[2], actions[2]));
    lemma_provision_order(profile, ctx, events, actions, 3);
    assert(provision_calls_for(profile, ctx, events[3], actions[3]));
    assert(provision_comes_of(actions[3], events[4]));
}

/// What the event of a session's start says.
pub open spec fn start_entries(
    profile: Seq<char>,
    workspace: Seq<char>,
    version: Seq<char>,
) -> Entries {
    Entries::empty().insert("profile"@, Json::Text(profile)).insert(
        "workspace"@,
        Json::Text(workspace),
    ).insert("goose_version"@, Json::Text(version))
}

/// The payload of the event that starts a session, given the workspace's text.
pub fn start_payload(profile: &str, workspace: &str, version: &str) -> (payload: serde_json::Value)
    ensures
        json(payload) == Json::Object(start_entries(profile@, workspace@, version@)),
{
    let mut payload = object_new();
    object_insert(&mut payload, "profile", json_text(profile));
    object_insert(&mut payload, "workspace", json_text(workspace));
    object_insert(&mut payload, "goose_version", json_text(version));
    json_object(payload)
}

/// The kind and the payload of the event that starts a session.
pub fn session_start(profile: &Profile, workspace: &PathBuf, version: &str) -> (out: (
    String,
    serde_json::Value,
))
    ensures
        out.0@ == "session_start"@,
        json(out.1) == Json::Object(start_entries(profile.id@, lossy(*workspace), version@)),
{
    let payload = start_payload(profile.id.as_str(), path_text(workspace).as_str(), version);
    ("session_start".to_owned(), payload)
}

/// The kind and the payload of the event that pauses a session.
pub fn session_pause(exit_code: Option<i32>) -> (out: (String, serde_json::Value))
    ensures
        out.0@ == "session_pause"@,
        json(out.1) == Json::Object(pause_entries(exit_code)),
{
    let mut payload = object_new();
    let code = match exit_code {
        Some(code) => json_i64(code as i64),
        None => json_null(),
    };
    object_insert(&mut payload, "exit_code", code);
    ("session_pause".to_owned(), json_object(payload))
}

/// Starts a session: the harness is activated with its context, and only then
/// comes its first event, which belongs to no agent session. Fails, and emits
/// nothing, if the harness is already settled for this process.
pub fn start_session(
    cell: &mut HarnessCell,
    profile: &Profile,
    ctx: HarnessContext,
    version: &str,
) -> (started: Result<HarnessEvent, AlreadyInitialized>)
    ensures
        started is Ok <==> old(cell).state() is None,
        started matches Ok(event) ==> {
            &&& utc_timestamp(event.ts@)
            &&& stamped(
                event,
                ctx,
                0,
                "session_start"@,
                None,
                Json::Object(start_entries(profile.id@, lossy(ctx.workspace), version@)),
            )
            &&& settled(*final(cell), Some((ctx, 1)))
        },
        started is Err ==> final(cell).state() == old(cell).state(),
{
    let (kind, payload) = session_start(profile, &ctx.workspace, version);
    activate(cell, ctx)?;
    match emit_active(cell, None, kind.as_str(), None, payload) {
        Some(event) => Ok(event),
        None => Err(AlreadyInitialized),
    }
}

/// The event that pauses the active session, which belongs to no agent session;
/// `None` when inactive.
pub fn pause_session(
    cell: &mut HarnessCell,
    found: Option<HarnessContext>,
    exit_code: Option<i32>,
) -> (event: Option<HarnessEvent>)
    ensures
        tapped(
            live(*old(cell), found),
            event,
            "session_pause"@,
            None,
            Json::Object(pause_entries(exit_code)),
        ),
        settled(*final(cell), live_after(live(*old(cell), found), 1)),
{
    let (kind, payload) = session_pause(exit_code);
    emit_active(cell, found, kind.as_str(), None, payload)
}

/// A session posts where its profile says, with the profile's own credential if
/// it has one and else with the token of the session. Without an endpoint in
/// the profile there is none.
pub proof fn lemma_session_ingest_answer(
    ingest: Option<IngestConfig>,
    token: Option<&str>,
    config: Option<IngestConfig>,
)
    requires
        call_ensures(session_ingest, (&ingest, token), config),
    ensures
        config is Some <==> ingest is Some,
        ingest is Some ==> {
            &&& config->0.endpoint@ == ingest->0.endpoint@
            &&& ingest->0.token is Some ==> config->0.token is Some && config->0.token->0@
                == ingest->0.token->0@
            &&& ingest->0.token is None ==> (config->0.token is Some <==> token is Some)
            &&& ingest->0.token is None && token is Some ==> config->0.token->0@ == token->0@
        },
{
    assert(ingest_info(config) == session_ingest_info(ingest_info(ingest), str_of(token)));
    if config is Some {
        assert(config->0@ == ingest_info(config)->0);
    }
    if ingest is Some {
        assert(ingest->0@ == ingest_info(ingest)->0);
    }
}

/// `ctx` is the context of a session of the profile: it has what the caller
/// says of the session, and the profile's name, endpoint and rules.
pub open spec fn provisioned_with(
    ctx: HarnessContext,
    profile: Profile,
    principal: Option<String>,
    token: Option<&str>,
    workspace: PathBuf,
    base_commit: Option<String>,
) -> bool {
    &&& text_of(ctx.principal) == text_of(principal)
    &&& ctx.profile_id is Some
    &&& ctx.profile_id->0@ == profile.id@
    &&& ctx.workspace == workspace
    &&& text_of(ctx.base_commit) == text_of(base_commit)
    &&& ctx.ingest is Some <==> profile.ingest is Some
    &&& profile.ingest is Some ==> {
        &&& ctx.ingest->0.endpoint@ == profile.ingest->0.endpoint@
        &&& profile.ingest->0.token is Some ==> text_of(ctx.ingest->0.token) == text_of(
            profile.ingest->0.token,
        )
        &&& profile.ingest->0.token is None ==> text_of(ctx.ingest->0.token) == str_of(token)
    }
    &&& ctx.policy.deny@.len() == profile.policy.deny@.len()
    &&& forall|i: int|
        0 <= i < profile.policy.deny@.len() ==> (#[trigger] ctx.policy.deny@[i])@
            == profile.policy.deny@[i]@
    &&& ctx.policy.require_approval@.len() == profile.policy.require_approval@.len()
    &&& forall|i: int|
        0 <= i < profile.policy.require_approval@.len() ==> (
        #[trigger] ctx.policy.require_approval@[i])@ == profile.policy.require_approval@[i]@
}

/// What a context says pins down its fields.
proof fn lemma_context_info_fields(
    ctx: HarnessContext,
    profile: Profile,
    principal: Option<String>,
    token: Option<&str>,
    workspace: PathBuf,
    base_commit: Option<String>,
    session_id: Seq<char>,
)
    requires
        ctx@ == context_info(
            profile,
            text_of(principal),
            str_of(token),
            workspace,
            text_of(base_commit),
            session_id,
        ),
    ensures
        ctx.harness_session_id@ == session_id,
        provisioned_with(ctx, profile, principal, token, workspace, base_commit),
{
    assert(ctx@.policy == profile.policy@);
    assert forall|i: int| 0 <= i < profile.policy.deny@.len() implies (
    #[trigger] ctx.policy.deny@[i])@ == profile.policy.deny@[i]@ by {
        lemma_policy_is_its_rules(ctx.policy, PolicyVerdict::Allow, i);
        lemma_policy_is_its_rules(profile.policy, PolicyVerdict::Allow, i);
    }
    assert forall|i: int| 0 <= i < profile.policy.require_approval@.len() implies (
    #[trigger] ctx.policy.require_approval@[i])@ == profile.policy.require_approval@[i]@ by {
        lemma_policy_is_its_rules(ctx.policy, PolicyVerdict::Allow, i);
        lemma_policy_is_its_rules(profile.policy, PolicyVerdict::Allow, i);
    }
    lemma_policy_is_its_rules(ctx.policy, PolicyVerdict::Allow, 0);
    lemma_policy_is_its_rules(profile.policy, PolicyVerdict::Allow, 0);
    assert(ingest_info(ctx.ingest) == session_ingest_info(
        ingest_info(profile.ingest),
        str_of(token),
    ));
    if ctx.ingest is Some {
        assert(ctx.ingest->0@ == ingest_info(ctx.ingest)->0);
    }
    if profile.ingest is Some {
        assert(profile.ingest->0@ == ingest_info(profile.ingest)->0);
    }
}

/// The context of a session takes over what the profile says, its rules among
/// it, one by one and in order.
pub proof fn lemma_context_answer(
    profile: Profile,
    principal: Option<String>,
    token: Option<&str>,
    workspace: PathBuf,
    base_commit: Option<String>,
    session_id: String,
    ctx: HarnessContext,
    fresh: HarnessContext,
)
    requires
        call_ensures(
            context_of,
            (&profile, principal, token, workspace, base_commit, session_id),
            ctx,
        ),
        call_ensures(new_context, (&profile, principal, token, workspace, base_commit), fresh),
    ensures
        provisioned_with(ctx, profile, principal, token, workspace, base_commit),
        ctx.harness_session_id@ == session_id@,
        provisioned_with(fresh, profile, principal, token, workspace, base_commit),
        uuid_v7_text(fresh.harness_session_id@),
{
    lemma_context_info_fields(ctx, profile, principal, token, workspace, base_commit, session_id@);
    lemma_context_info_fields(
        fresh,
        profile,
        principal,
        token,
        workspace,
        base_commit,
        fresh.harness_session_id@,
    );
}

/// The policy of a provisioned session gives the verdict of the profile's
/// policy on every subject.
pub proof fn lemma_session_rules_as_profile(
    profile: Profile,
    principal: Option<String>,
    token: Option<&str>,
    workspace: PathBuf,
    base_commit: Option<String>,
    ctx: HarnessContext,
    subject: &str,
    verdict: PolicyVerdict,
    profile_verdict: PolicyVerdict,
)
    requires
        call_ensures(new_context, (&profile, principal, token, workspace, base_commit), ctx),
        call_ensures(HarnessPolicy::check, (&ctx.policy, subject), verdict),
        call_ensures(HarnessPolicy::check, (&profile.policy, subject), profile_verdict),
    ensures
        verdict@ == profile_verdict@,
        ruling(ctx.policy@, subject@) == ruling(profile.policy@, subject@),
{
    lemma_context_info_fields(
        ctx,
        profile,
        principal,
        token,
        workspace,
        base_commit,
        ctx.harness_session_id@,
    );
    lemma_same_rules_rule_alike(ctx.policy, profile.policy, subject, verdict, profile_verdict);
}

/// A workspace to check out is looked for under the base directory by the name
/// of its clone; without one the session is provisioned at once.
pub proof fn lemma_start_looks_for_workspace(
    profile: Profile,
    no_launch: bool,
    base: PathBuf,
    action: StartAction,
    name: String,
)
    requires
        call_ensures(next_action, (&profile, no_launch, StartEvent::Loaded(base)), action),
        profile.workspace is Some ==> call_ensures(
            workspace_dir_name,
            (&profile.workspace->0,),
            name,
        ),
    ensures
        profile.workspace is Some ==> action == StartAction::Probe(joined_path(base, name@)),
        profile.workspace is None ==> action == StartAction::Provision(None),
{
}

/// A workspace that is there is not cloned, one that is not is cloned into the
/// place that was looked at, and in either case the commit is read next.
pub proof fn lemma_start_clones_what_is_missing(
    profile: Profile,
    no_launch: bool,
    is_repo: bool,
    target: PathBuf,
    action: StartAction,
    after_clone: StartAction,
)
    requires
        call_ensures(
            next_action,
            (&profile, no_launch, StartEvent::Probed(is_repo, target)),
            action,
        ),
        call_ensures(next_action, (&profile, no_launch, StartEvent::Cloned), after_clone),
    ensures
        profile.workspace is None ==> action == StartAction::Provision(None),
        profile.workspace is Some && is_repo ==> action is ReadHead,
        profile.workspace is Some && !is_repo ==> {
            &&& action matches StartAction::Clone(args)
            &&& args@.len() >= 3
            &&& args@[0]@ == "clone"@
            &&& args@[1]@ == profile.workspace->0.repo@
            &&& args@.last()@ == lossy(target)
            &&& profile.workspace->0.git_ref is None ==> args@.len() == 3
            &&& profile.workspace->0.git_ref matches Some(git_ref) ==> {
                &&& args@.len() == 5
                &&& args@[2]@ == "--branch"@
                &&& args@[3]@ == git_ref@
            }
        },
        after_clone is ReadHead,
{
    if let StartAction::Clone(args) = action {
        assert(texts(args@).len() == args@.len());
        assert forall|i: int| 0 <= i < args@.len() implies #[trigger] texts(args@)[i]
            == args@[i]@ by {}
        assert(texts(args@)[0] == args@[0]@);
        assert(texts(args@)[1] == args@[1]@);
        assert(texts(args@)[args@.len() - 1] == args@.last()@);
        if profile.workspace->0.git_ref is Some {
            assert(texts(args@)[2] == args@[2]@);
            assert(texts(args@)[3] == args@[3]@);
        }
    }
}

/// The base commit is what git printed without the white space around it, and
/// none where git printed nothing.
pub proof fn lemma_start_takes_commit(
    profile: Profile,
    no_launch: bool,
    out: Option<String>,
    action: StartAction,
    printed: &str,
    commit: String,
)
    requires
        call_ensures(next_action, (&profile, no_launch, StartEvent::Head(out)), action),
        out is Some ==> printed@ == out->0@,
        call_ensures(trim, (printed,), commit),
    ensures
        out is None ==> action == StartAction::Provision(None),
        out is Some ==> {
            &&& action matches StartAction::Provision(Some(base_commit))
            &&& base_commit@ == commit@
        },
{
}

/// A provisioned session is launched with its recipe, or as a plain session
/// without one, unless it is not to be launched at all; when the agent exits
/// the session pauses with its exit code, and every failure ends it.
pub proof fn lemma_start_launches(
    profile: Profile,
    no_launch: bool,
    action: StartAction,
    exit_code: Option<i32>,
    paused: StartAction,
    failed: StartEvent,
    ended: StartAction,
)
    requires
        call_ensures(next_action, (&profile, no_launch, StartEvent::Provisioned), action),
        call_ensures(next_action, (&profile, no_launch, StartEvent::Exited(exit_code)), paused),
        failed is CloneFailed || failed is ProvisionFailed || failed is LaunchFailed,
        call_ensures(next_action, (&profile, no_launch, failed), ended),
    ensures
        no_launch ==> action is Leave,
        !no_launch ==> {
            &&& action matches StartAction::Launch(args)
            &&& profile.recipe is None ==> args@.len() == 1 && args@[0]@ == "session"@
            &&& profile.recipe matches Some(recipe) ==> {
                &&& args@.len() == 4
                &&& args@[0]@ == "run"@
                &&& args@[1]@ == "--recipe"@
                &&& args@[2]@ == recipe@
                &&& args@[3]@ == "--interactive"@
            }
        },
        paused == StartAction::Pause(exit_code),
        ended is Fail,
{
    if let StartAction::Launch(args) = action {
        assert(texts(args@).len() == args@.len());
        assert(texts(args@)[0] == args@[0]@);
        if profile.recipe is Some {
            assert(texts(args@)[1] == args@[1]@);
            assert(texts(args@)[2] == args@[2]@);
            assert(texts(args@)[3] == args@[3]@);
        }
    }
}

/// What provisioning sets and where: each locked key under its name in upper
/// case, and the variable that names the context file of the workspace.
pub proof fn lemma_provision_sets(
    profile: Profile,
    ctx: HarnessContext,
    locking: ProvisionAction,
    naming: ProvisionAction,
    i: int,
)
    requires
        call_ensures(next_provision, (&profile, &ctx, ProvisionEvent::Begun), locking),
        call_ensures(next_provision, (&profile, &ctx, ProvisionEvent::Stored), naming),
    ensures
        locking matches ProvisionAction::LockConfig(env) && {
            &&& env@.len() == profile.config_locked@.len()
            &&& 0 <= i < env@.len() ==> {
                &&& env@[i].0@ == uppercase(profile.config_locked@[i].0@)
                &&& env@[i].1@ == profile.config_locked@[i].1@
            }
        },
        naming matches ProvisionAction::SetVariable(name, path) && {
            &&& name@ == "GOOSE_HARNESS_CONTEXT"@
            &&& path == joined_path(joined_path(ctx.workspace, ".goose-harness"@), "session.json"@)
        },
{
    if let ProvisionAction::LockConfig(env) = locking {
        assert(keys(env@).len() == env@.len());
        assert(env_names(profile.config_locked@).len() == profile.config_locked@.len());
        if 0 <= i < env@.len() {
            assert(keys(env@)[i] == uppercase(keys(profile.config_locked@)[i]));
            assert(values(env@)[i] == values(profile.config_locked@)[i]);
        }
    }
}

/// The other steps of provisioning: the exclusion, the store, the start, and
/// the end, which is a failure after a failed store or a refused start.
pub proof fn lemma_provision_goes_on(
    profile: Profile,
    ctx: HarnessContext,
    event: ProvisionEvent,
    action: ProvisionAction,
)
    requires
        call_ensures(next_provision, (&profile, &ctx, event), action),
    ensures
        event is ConfigLocked <==> action is Exclude,
        event is Excluded <==> action is Store,
        event is VariableSet <==> action is Start,
        event is Started <==> action is Complete,
        event is StoreFailed || event is StartRefused <==> action is Fail,
{
}

/// What the start of a session says: the profile, the workspace and the
/// version, and nothing else.
pub open spec fn tells_start(
    payload: Json,
    profile: Seq<char>,
    workspace: Seq<char>,
    version: Seq<char>,
) -> bool {
    &&& payload matches Json::Object(said)
    &&& said.contains_key("profile"@) && said["profile"@] == Json::Text(profile)
    &&& said.contains_key("workspace"@) && said["workspace"@] == Json::Text(workspace)
    &&& said.contains_key("goose_version"@) && said["goose_version"@] == Json::Text(version)
    &&& forall|k: Seq<char>| #[trigger]
        said.contains_key(k) ==> k == "profile"@ || k == "workspace"@ || k == "goose_version"@
}

/// The entries of a session's start tell it.
proof fn lemma_start_is_told(profile: Seq<char>, workspace: Seq<char>, version: Seq<char>)
    ensures
        tells_start(
            Json::Object(start_entries(profile, workspace, version)),
            profile,
            workspace,
            version,
        ),
{
    reveal_strlit("profile");
    reveal_strlit("workspace");
    reveal_strlit("goose_version");
    assert("profile"@.len() == 7 && "workspace"@.len() == 9 && "goose_version"@.len() == 13);
}

/// What the pause of a session says: the exit code, `null` where there is none,
/// and nothing else.
pub open spec fn tells_pause(payload: Json, exit_code: Option<i32>) -> bool {
    &&& payload matches Json::Object(said)
    &&& said.contains_key("exit_code"@)
    &&& exit_code matches Some(code) ==> said["exit_code"@] == Json::Int(code as int)
    &&& exit_code is None ==> said["exit_code"@] == Json::Null
    &&& forall|k: Seq<char>| #[trigger] said.contains_key(k) ==> k == "exit_code"@
}

/// The events that start and pause a session are told what they say.
pub proof fn lemma_session_events_answer(
    profile: Profile,
    workspace: PathBuf,
    version: &str,
    start: (String, serde_json::Value),
    exit_code: Option<i32>,
    pause: (String, serde_json::Value),
    id: &str,
    place: &str,
    payload: serde_json::Value,
)
    requires
        call_ensures(session_start, (&profile, &workspace, version), start),
        call_ensures(session_pause, (exit_code,), pause),
        call_ensures(start_payload, (id, place, version), payload),
    ensures
        start.0@ == "session_start"@,
        tells_start(json(start.1), profile.id@, lossy(workspace), version@),
        pause.0@ == "session_pause"@,
        tells_pause(json(pause.1), exit_code),
        tells_start(json(payload), id@, place@, version@),
{
    lemma_start_is_told(profile.id@, lossy(workspace), version@);
    lemma_start_is_told(id@, place@, version@);
}

/// A session starts exactly when nothing was settled before: its event is the
/// first one of a harness with its context, and belongs to no agent session.
pub proof fn lemma_start_session_answer(
    cell: &mut HarnessCell,
    profile: Profile,
    ctx: HarnessContext,
    version: &str,
    started: Result<HarnessEvent, AlreadyInitialized>,
)
    requires
        call_ensures(start_session, (cell, &profile, ctx, version), started),
    ensures
        old(cell).state() is Some ==> started is Err && final(cell).state()
            == old(cell).state(),
        old(cell).state() is None ==> {
            &&& started matches Ok(event)
            &&& identified(event, ctx, 0, None)
            &&& utc_timestamp(event.ts@)
            &&& event.kind@ == "session_start"@
            &&& tells_start(json(event.payload), profile.id@, lossy(ctx.workspace), version@)
            &&& live(*final(cell), None) == Some((ctx, 1u64))
        },
{
    lemma_start_is_told(profile.id@, lossy(ctx.workspace), version@);
}

/// The pause of the active session is its next event and belongs to no agent
/// session. An inactive harness has none.
pub proof fn lemma_pause_session_answer(
    cell: &mut HarnessCell,
    found: Option<HarnessContext>,
    exit_code: Option<i32>,
    event: Option<HarnessEvent>,
)
    requires
        call_ensures(pause_session, (cell, found, exit_code), event),
    ensures
        live(*old(cell), found) is None ==> event is None && live(*final(cell), None) is None,
        live(*old(cell), found) matches Some((ctx, seq)) ==> {
            &&& event matches Some(out)
            &&& identified(out, ctx, seq as int, None)
            &&& utc_timestamp(out.ts@)
            &&& out.kind@ == "session_pause"@
            &&& tells_pause(json(out.payload), exit_code)
            &&& live(*final(cell), None) == Some((ctx, seq_after(seq, 1)))
        },
{
}

} // verus!
