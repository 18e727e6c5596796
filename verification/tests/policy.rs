//! Pattern matching and verdicts.

use goose_harness::glob::glob_matches;
use goose_harness::policy::{pattern_matches, verdict_of, HarnessPolicy, PolicyVerdict};

fn glob(pattern: &str, subject: &str) -> bool {
    glob_matches(&pattern.chars().collect(), &subject.chars().collect())
}

#[test]
fn exact_match_without_wildcard() {
    assert!(pattern_matches("developer__shell", "Developer__Shell"));
    assert!(!pattern_matches("shell", "developer__shell"));
}

#[test]
fn glob_wildcards() {
    assert!(pattern_matches("*shell*", "developer__shell"));
    assert!(pattern_matches("developer__*", "developer__text_editor"));
    assert!(pattern_matches("*rm -rf*", "Run `rm -rf /tmp/x`"));
    assert!(!pattern_matches("developer__*", "github__create_pr"));
    assert!(pattern_matches("*", "anything"));
}

#[test]
fn deny_wins_over_require_approval() {
    let policy = HarnessPolicy {
        deny: vec!["*danger*".into()],
        require_approval: vec!["*".into()],
    };
    assert!(matches!(
        policy.check("dangerous_tool"),
        PolicyVerdict::Deny(_)
    ));
    assert!(matches!(
        policy.check("safe_tool"),
        PolicyVerdict::RequireApproval(_)
    ));
}

#[test]
fn empty_policy_allows() {
    let policy = HarnessPolicy::default();
    assert_eq!(policy.check("anything"), PolicyVerdict::Allow);
}

#[test]
fn runs_between_wildcards_are_taken_in_order() {
    assert!(glob("a*b*c", "a-b-c"));
    assert!(glob("a*b*c", "abbbc"));
    assert!(!glob("a*b*c", "acb"));
    assert!(!glob("a*b*c", "ab"));
    assert!(glob("*ab*ab*", "abab"));
    assert!(!glob("*ab*ab*", "aba"));
    assert!(glob("**", ""));
}

#[test]
fn the_first_and_the_last_run_are_anchored_and_do_not_overlap() {
    assert!(!glob("a*a", "a"));
    assert!(glob("a*a", "aa"));
    assert!(!glob("ab*ba", "aba"));
    assert!(glob("ab*ba", "abba"));
    assert!(!glob("x*", "ax"));
    assert!(!glob("*x", "xa"));
    assert!(glob("*x", "xx"));
}

#[test]
fn empty_patterns_and_subjects() {
    assert!(glob("", ""));
    assert!(!glob("", "a"));
    assert!(glob("*", ""));
    assert!(!glob("a", ""));
}

#[test]
fn case_is_ignored_beyond_ascii_and_in_both_arguments() {
    assert!(pattern_matches("ÉCOLE__*", "école__Run"));
    assert!(pattern_matches("*SHELL", "my_shell"));
    assert!(!glob("SHELL", "shell"));
}

#[test]
fn both_forms_of_sigma_are_one_letter() {
    assert!(pattern_matches("\u{391}\u{3A3}*", "\u{391}\u{3A3}\u{391}"));
    assert!(pattern_matches("*\u{3A3}", "\u{391}\u{3C2}"));
    assert!(pattern_matches("\u{391}\u{3C3}", "\u{3B1}\u{3C2}"));
    assert!(!pattern_matches("\u{391}\u{3A3}*", "\u{391}\u{391}"));
}

#[test]
fn reasons_name_the_first_rule_that_matches() {
    let policy = HarnessPolicy {
        deny: vec!["nothing".into(), "Rm*".into(), "*".into()],
        require_approval: vec!["*".into()],
    };
    assert_eq!(
        policy.check("rm -rf"),
        PolicyVerdict::Deny("blocked by harness policy (rule: Rm*)".into())
    );
    let policy = HarnessPolicy {
        deny: vec![],
        require_approval: vec!["developer__shell".into()],
    };
    assert_eq!(
        policy.check("DEVELOPER__SHELL"),
        PolicyVerdict::RequireApproval(
            "approval required by harness policy (rule: developer__shell)".into()
        )
    );
    assert_eq!(policy.check("other"), PolicyVerdict::Allow);
}

#[test]
fn verdicts_of_given_rules() {
    assert_eq!(
        verdict_of(Some("a"), Some("b")),
        PolicyVerdict::Deny("blocked by harness policy (rule: a)".into())
    );
    assert_eq!(
        verdict_of(None, Some("b")),
        PolicyVerdict::RequireApproval("approval required by harness policy (rule: b)".into())
    );
    assert_eq!(verdict_of(None, None), PolicyVerdict::Allow);
}

#[test]
fn further_rules_never_loosen() {
    let mut policy = HarnessPolicy {
        deny: vec!["a*".into()],
        require_approval: vec!["b*".into()],
    };
    policy.deny.push("c*".into());
    policy.require_approval.push("*".into());
    assert!(matches!(policy.check("a1"), PolicyVerdict::Deny(_)));
    assert!(matches!(policy.check("b1"), PolicyVerdict::RequireApproval(_)));
    assert!(matches!(policy.check("d1"), PolicyVerdict::RequireApproval(_)));
    policy.deny.reverse();
    assert!(matches!(policy.check("a1"), PolicyVerdict::Deny(_)));
}

#[test]
fn emptiness_and_copies() {
    let policy = HarnessPolicy {
        deny: vec![],
        require_approval: vec!["x".into()],
    };
    assert!(!policy.is_empty());
    assert!(HarnessPolicy::default().is_empty());
    let copy = policy.clone();
    assert_eq!(copy.require_approval, vec!["x".to_string()]);
    assert!(copy.deny.is_empty());
    let verdict = policy.check("X");
    assert_eq!(verdict.clone(), verdict);
}
