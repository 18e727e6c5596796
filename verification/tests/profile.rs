//! Profiles and the provisioning of sessions.

use goose_harness::command::HarnessCommand;
use goose_harness::context::{HarnessContext, IngestConfig};
use goose_harness::harness::HarnessCell;
use goose_harness::policy::HarnessPolicy;
use goose_harness::profile::{locked_env, Profile, ProfileSource, WorkspaceSpec};
use goose_harness::provision::{
    context_of, new_context, next_action, next_provision, pause_session, session_ingest,
    session_pause, session_start, start_payload, start_session, ProvisionAction, ProvisionEvent,
    StartAction, StartEvent,
};
use serde_json::Value;
use std::path::PathBuf;

fn profile() -> Profile {
    Profile {
        id: "exam/backend-2026-q3".into(),
        description: Some("Backend take-home exam".into()),
        ingest: Some(IngestConfig {
            endpoint: "https://ingest.example.com/v1/events".into(),
            token: None,
        }),
        policy: HarnessPolicy {
            deny: vec!["*production*".into()],
            require_approval: vec!["developer__shell".into()],
        },
        config_locked: vec![
            ("GOOSE_MODE".into(), "approve".into()),
            ("goose_straße".into(), "x".into()),
        ],
        workspace: Some(WorkspaceSpec {
            repo: "https://github.com/example/exercise.git".into(),
            dir: None,
            git_ref: Some("main".into()),
        }),
        recipe: Some("exam.yaml".into()),
    }
}

fn parse(raw: &str) -> Value {
    serde_json::from_str(raw).unwrap()
}

#[test]
fn urls_and_paths() {
    assert_eq!(ProfileSource::of("http://host/p"), ProfileSource::Url);
    assert_eq!(ProfileSource::of("https://host/p"), ProfileSource::Url);
    assert_eq!(ProfileSource::of("HTTPS://host/p"), ProfileSource::Path);
    assert_eq!(ProfileSource::of("./http://"), ProfileSource::Path);
    assert_eq!(ProfileSource::of("http:/x"), ProfileSource::Path);
    assert_eq!(ProfileSource::of(""), ProfileSource::Path);
}

#[test]
fn locked_keys_are_set_in_upper_case() {
    assert_eq!(
        locked_env(&profile().config_locked),
        vec![
            ("GOOSE_MODE".to_string(), "approve".to_string()),
            ("GOOSE_STRASSE".to_string(), "x".to_string()),
        ]
    );
    assert!(locked_env(&vec![]).is_empty());
}

#[test]
fn the_clone_of_a_url_with_a_slash_is_named_after_the_repository() {
    let mut profile = profile();
    profile.workspace = Some(WorkspaceSpec {
        repo: "https://github.com/example/exercise.git/".into(),
        dir: None,
        git_ref: None,
    });
    match next(&profile, StartEvent::Loaded(PathBuf::from("/base"))) {
        StartAction::Probe(dir) => assert_eq!(dir, PathBuf::from("/base/exercise")),
        _ => panic!("the directory is to be probed"),
    }
}

#[test]
fn keys_are_locked_in_order_and_once() {
    let mut profile = profile();
    profile.config_locked = vec![];
    for (key, value) in [("b", "1"), ("é", "2"), ("a", "3"), ("b", "4"), ("ab", "5"), ("", "6")] {
        profile.lock(key.into(), value.into());
    }
    let expected: Vec<(String, String)> = [("", "6"), ("a", "3"), ("ab", "5"), ("b", "4"), ("é", "2")]
        .iter()
        .map(|(key, value)| (key.to_string(), value.to_string()))
        .collect();
    assert_eq!(profile.config_locked, expected);
    assert_eq!(profile.clone().config_locked, expected);
}

#[test]
fn of_two_spellings_of_a_key_the_last_is_set_last() {
    let locked = vec![
        ("MODE".to_string(), "first".to_string()),
        ("mode".to_string(), "second".to_string()),
    ];
    let env = locked_env(&locked);
    assert_eq!(env[0], ("MODE".to_string(), "first".to_string()));
    assert_eq!(env[1], ("MODE".to_string(), "second".to_string()));
}

#[test]
fn the_session_token_fills_in_for_a_missing_credential() {
    let ingest = profile().ingest;
    let filled = session_ingest(&ingest, Some("tok")).unwrap();
    assert_eq!(filled.token.as_deref(), Some("tok"));
    assert_eq!(filled.endpoint, "https://ingest.example.com/v1/events");
    assert_eq!(session_ingest(&ingest, None).unwrap().token, None);
    let own = Some(IngestConfig {
        endpoint: "e".into(),
        token: Some("own".into()),
    });
    assert_eq!(
        session_ingest(&own, Some("tok")).unwrap().token.as_deref(),
        Some("own")
    );
    assert!(session_ingest(&None, Some("tok")).is_none());
}

#[test]
fn contexts_take_over_what_the_profile_says() {
    let ctx = context_of(
        &profile(),
        Some("cand-42".into()),
        Some("tok"),
        PathBuf::from("/w"),
        Some("abc".into()),
        "hs-1".into(),
    );
    assert_eq!(ctx.harness_session_id, "hs-1");
    assert_eq!(ctx.principal.as_deref(), Some("cand-42"));
    assert_eq!(ctx.profile_id.as_deref(), Some("exam/backend-2026-q3"));
    assert_eq!(ctx.workspace, PathBuf::from("/w"));
    assert_eq!(ctx.base_commit.as_deref(), Some("abc"));
    assert_eq!(ctx.ingest.unwrap().token.as_deref(), Some("tok"));
    assert_eq!(ctx.policy.deny, vec!["*production*".to_string()]);
}

#[test]
fn new_sessions_have_identifiers_of_their_own() {
    let id = || {
        new_context(&profile(), None, None, PathBuf::from("/w"), None).harness_session_id
    };
    let (a, b) = (id(), id());
    assert_ne!(a, b);
    for text in [a, b] {
        assert_eq!(text.len(), 36);
        assert_eq!(&text[14..15], "7");
        assert!("89ab".contains(&text[19..20]));
        for (i, c) in text.chars().enumerate() {
            if [8, 13, 18, 23].contains(&i) {
                assert_eq!(c, '-');
            } else {
                assert!(c.is_ascii_digit() || ('a'..='f').contains(&c));
            }
        }
    }
}

fn next(profile: &Profile, event: StartEvent) -> StartAction {
    next_action(profile, false, event)
}

#[test]
fn a_workspace_is_cloned_unless_it_is_there() {
    let profile = profile();
    match next(&profile, StartEvent::Loaded(PathBuf::from("/base"))) {
        StartAction::Probe(dir) => assert_eq!(dir, PathBuf::from("/base/exercise")),
        _ => panic!("the directory is to be probed"),
    }
    let target = PathBuf::from("/base/exercise");
    match next(&profile, StartEvent::Probed(false, target.clone())) {
        StartAction::Clone(args) => assert_eq!(
            args,
            vec![
                "clone",
                "https://github.com/example/exercise.git",
                "--branch",
                "main",
                "/base/exercise"
            ]
        ),
        _ => panic!("the workspace is to be cloned"),
    }
    assert!(matches!(
        next(&profile, StartEvent::Probed(true, target)),
        StartAction::ReadHead
    ));
    assert!(matches!(
        next(&profile, StartEvent::Cloned),
        StartAction::ReadHead
    ));
    assert!(matches!(
        next(&profile, StartEvent::CloneFailed),
        StartAction::Fail
    ));
}

#[test]
fn the_base_commit_is_what_git_says() {
    let profile = profile();
    match next(&profile, StartEvent::Head(Some("abc123\n".into()))) {
        StartAction::Provision(commit) => assert_eq!(commit.as_deref(), Some("abc123")),
        _ => panic!("the session is to be provisioned"),
    }
    assert!(matches!(
        next(&profile, StartEvent::Head(None)),
        StartAction::Provision(None)
    ));
}

#[test]
fn a_profile_without_a_workspace_is_provisioned_at_once() {
    let mut profile = profile();
    profile.workspace = None;
    assert!(matches!(
        next(&profile, StartEvent::Loaded(PathBuf::from("/base"))),
        StartAction::Provision(None)
    ));
    assert!(matches!(
        next(&profile, StartEvent::Probed(false, PathBuf::from("/t"))),
        StartAction::Provision(None)
    ));
}

#[test]
fn the_agent_is_launched_unless_it_is_not_to_be() {
    let mut profile = profile();
    assert!(matches!(
        next_action(&profile, true, StartEvent::Provisioned),
        StartAction::Leave
    ));
    match next(&profile, StartEvent::Provisioned) {
        StartAction::Launch(args) => {
            assert_eq!(args, vec!["run", "--recipe", "exam.yaml", "--interactive"])
        }
        _ => panic!("the agent is to be launched"),
    }
    profile.recipe = None;
    match next(&profile, StartEvent::Provisioned) {
        StartAction::Launch(args) => assert_eq!(args, vec!["session"]),
        _ => panic!("the agent is to be launched"),
    }
}

#[test]
fn a_session_pauses_with_the_exit_code() {
    assert!(matches!(
        next(&profile(), StartEvent::Exited(Some(-1))),
        StartAction::Pause(Some(-1))
    ));
    let (kind, payload) = session_pause(Some(-1));
    assert_eq!(kind, "session_pause");
    assert_eq!(payload, parse(r#"{"exit_code":-1}"#));
    assert_eq!(session_pause(None).1, parse(r#"{"exit_code":null}"#));
    let mut cell = HarnessCell::new();
    start_session(&mut cell, &profile(), context(), "1.2").unwrap();
    let event = pause_session(&mut cell, None, None).unwrap();
    assert_eq!(event.kind, "session_pause");
    assert_eq!(event.goose_session_id, None);
    assert_eq!(event.seq, 1);
    assert!(pause_session(&mut HarnessCell::new(), None, None).is_none());
}

#[test]
fn what_fails_is_the_end() {
    for event in [
        StartEvent::CloneFailed,
        StartEvent::ProvisionFailed,
        StartEvent::LaunchFailed,
    ] {
        assert!(matches!(next(&profile(), event), StartAction::Fail));
    }
}

#[test]
fn the_start_of_a_session_is_described() {
    let expected =
        parse(r#"{"profile":"exam/backend-2026-q3","workspace":"/w/é","goose_version":"1.2"}"#);
    let (kind, payload) = session_start(&profile(), &PathBuf::from("/w/é"), "1.2");
    assert_eq!(kind, "session_start");
    assert_eq!(payload, expected);
    assert_eq!(start_payload("exam/backend-2026-q3", "/w/é", "1.2"), expected);
}

fn context() -> HarnessContext {
    context_of(
        &profile(),
        None,
        None,
        PathBuf::from("/w"),
        None,
        "hs-1".into(),
    )
}

#[test]
fn the_first_event_of_a_session_is_its_start() {
    let mut cell = HarnessCell::new();
    let event = start_session(&mut cell, &profile(), context(), "1.2").unwrap();
    assert_eq!(event.kind, "session_start");
    assert_eq!(event.seq, 0);
    assert_eq!(event.goose_session_id, None);
    assert_eq!(event.harness_session_id, "hs-1");
    assert_eq!(event.payload["workspace"], "/w");
    assert!(start_session(&mut cell, &profile(), context(), "1.2").is_err());
}

/// Provisions a session, failing where it is told to, and lists the steps.
fn provision(fail_store: bool, fail_start: bool) -> Vec<&'static str> {
    let (profile, ctx) = (profile(), context());
    let mut steps = vec![];
    let mut event = ProvisionEvent::Begun;
    loop {
        event = match next_provision(&profile, &ctx, event) {
            ProvisionAction::LockConfig(env) => {
                assert_eq!(env, locked_env(&profile.config_locked));
                steps.push("lock");
                ProvisionEvent::ConfigLocked
            }
            ProvisionAction::Exclude => {
                steps.push("exclude");
                ProvisionEvent::Excluded
            }
            ProvisionAction::Store => {
                steps.push("store");
                if fail_store {
                    ProvisionEvent::StoreFailed
                } else {
                    ProvisionEvent::Stored
                }
            }
            ProvisionAction::SetVariable(name, path) => {
                assert_eq!(name, "GOOSE_HARNESS_CONTEXT");
                assert_eq!(path, PathBuf::from("/w/.goose-harness/session.json"));
                steps.push("set");
                ProvisionEvent::VariableSet
            }
            ProvisionAction::Start => {
                steps.push("start");
                if fail_start {
                    ProvisionEvent::StartRefused
                } else {
                    ProvisionEvent::Started
                }
            }
            ProvisionAction::Complete => {
                steps.push("complete");
                return steps;
            }
            ProvisionAction::Fail => {
                steps.push("fail");
                return steps;
            }
        };
    }
}

#[test]
fn a_session_is_provisioned_in_order() {
    assert_eq!(
        provision(false, false),
        vec!["lock", "exclude", "store", "set", "start", "complete"]
    );
    assert_eq!(provision(true, false), vec!["lock", "exclude", "store", "fail"]);
    assert_eq!(
        provision(false, true),
        vec!["lock", "exclude", "store", "set", "start", "fail"]
    );
}

#[test]
fn commands() {
    let command = HarnessCommand::Submit {
        message: Some("done".into()),
    };
    assert_eq!(format!("{:?}", command), "Submit { message: Some(\"done\") }");
}
