//! Tool policy: which tools a session may use, and which need approval.
//!
//! Patterns match case-insensitively. A pattern without `*` must match the
//! subject exactly; `*` is a glob wildcard. A subject is the full name of a
//! tool (`developer__shell`) or, for agents that do not expose tool names, the
//! title of the permission request.

use crate::glob::{glob, glob_matches, lemma_glob_literal};
use crate::text::{chars_of, lowercase, str_of, texts, to_lowercase};
use vstd::prelude::*;
use vstd::string::*;

verus! {

/// Which tools a session may use.
#[derive(Debug)]
pub struct HarnessPolicy {
    /// Tools that match one of these patterns are refused outright.
    pub deny: Vec<String>,
    /// Tools that match one of these patterns always require human approval,
    /// even in full-auto modes.
    pub require_approval: Vec<String>,
}

/// What a policy says, pattern by pattern.
#[verifier::ext_equal]
pub struct PolicyRules {
    /// The patterns that deny.
    pub deny: Seq<Seq<char>>,
    /// The patterns that ask for approval.
    pub require_approval: Seq<Seq<char>>,
}

impl View for HarnessPolicy {
    type V = PolicyRules;

    open spec fn view(&self) -> PolicyRules {
        PolicyRules {
            deny: texts(self.deny@),
            require_approval: texts(self.require_approval@),
        }
    }
}

/// Verdict for a single subject against a policy.
#[derive(Debug, PartialEq)]
pub enum PolicyVerdict {
    /// The tool may run.
    Allow,
    /// The tool may run once a human has approved, for the given reason.
    RequireApproval(String),
    /// The tool may not run, for the given reason.
    Deny(String),
}

/// What a verdict says.
pub enum Ruling {
    /// The tool may run.
    Allow,
    /// The tool may run once a human has approved.
    RequireApproval(Seq<char>),
    /// The tool may not run.
    Deny(Seq<char>),
}

impl View for PolicyVerdict {
    type V = Ruling;

    open spec fn view(&self) -> Ruling {
        match self {
            PolicyVerdict::Allow => Ruling::Allow,
            PolicyVerdict::RequireApproval(reason) => Ruling::RequireApproval(reason@),
            PolicyVerdict::Deny(reason) => Ruling::Deny(reason@),
        }
    }
}

impl Clone for PolicyVerdict {
    fn clone(&self) -> (copy: Self)
        ensures
            copy@ == self@,
    {
        match self {
            PolicyVerdict::Allow => PolicyVerdict::Allow,
            PolicyVerdict::RequireApproval(reason) => PolicyVerdict::RequireApproval(
                reason.clone(),
            ),
            PolicyVerdict::Deny(reason) => PolicyVerdict::Deny(reason.clone()),
        }
    }
}

/// The form in which texts are compared whatever their case: lower case, with
/// one form for the two lower-case sigmas, of which `str::to_lowercase` writes
/// one at the end of a word and the other elsewhere.
pub open spec fn folded(s: Seq<char>) -> Seq<char> {
    lowercase(s).map_values(
        |c: char|
            if c == '\u{3c2}' {
                '\u{3c3}'
            } else {
                c
            },
    )
}

/// `pattern` matches `subject` whatever the case of either.
pub open spec fn matches_pattern(pattern: Seq<char>, subject: Seq<char>) -> bool {
    glob(folded(pattern), folded(subject))
}

/// The first of `rules` that matches `subject`.
pub open spec fn first_match(rules: Seq<Seq<char>>, subject: Seq<char>) -> Option<Seq<char>>
    decreases rules.len(),
{
    if rules.len() == 0 {
        None
    } else if matches_pattern(rules[0], subject) {
        Some(rules[0])
    } else {
        first_match(rules.skip(1), subject)
    }
}

/// Why a tool that matches `rule` is refused.
pub open spec fn deny_reason(rule: Seq<char>) -> Seq<char> {
    "blocked by harness policy (rule: "@ + rule + ")"@
}

/// Why a tool that matches `rule` needs approval.
pub open spec fn approval_reason(rule: Seq<char>) -> Seq<char> {
    "approval required by harness policy (rule: "@ + rule + ")"@
}

/// The verdict where `denied` and `approval` are the first rules that match.
/// A rule that denies wins over one that asks for approval.
pub open spec fn ruling_of(denied: Option<Seq<char>>, approval: Option<Seq<char>>) -> Ruling {
    match denied {
        Some(rule) => Ruling::Deny(deny_reason(rule)),
        None => match approval {
            Some(rule) => Ruling::RequireApproval(approval_reason(rule)),
            None => Ruling::Allow,
        },
    }
}

/// The verdict of a policy for a subject.
pub open spec fn ruling(rules: PolicyRules, subject: Seq<char>) -> Ruling {
    ruling_of(first_match(rules.deny, subject), first_match(rules.require_approval, subject))
}

/// How strict a verdict is.
pub open spec fn severity(ruling: Ruling) -> int {
    match ruling {
        Ruling::Allow => 0,
        Ruling::RequireApproval(_) => 1,
        Ruling::Deny(_) => 2,
    }
}

/// The form in which a text is compared whatever its case.
fn fold(s: &str) -> (out: Vec<char>)
    ensures
        out@ == folded(s@),
{
    let lower = chars_of(to_lowercase(s).as_str());
    let mut out: Vec<char> = Vec::new();
    let mut i: usize = 0;
    while i < lower.len()
        invariant
            i <= lower@.len(),
            lower@ == lowercase(s@),
            out@ == folded(s@).take(i as int),
        decreases lower@.len() - i,
    {
        out.push(
            if lower[i] == '\u{3c2}' {
                '\u{3c3}'
            } else {
                lower[i]
            },
        );
        i += 1;
        assert(out@ =~= folded(s@).take(i as int));
    }
    assert(out@ =~= folded(s@));
    out
}

/// Case-insensitive match; `*` is a glob wildcard, any other character stands
/// for itself.
pub fn pattern_matches(pattern: &str, subject: &str) -> (matched: bool)
    ensures
        matched == matches_pattern(pattern@, subject@),
{
    glob_matches(&fold(pattern), &fold(subject))
}

/// The first of `rules` that matches `subject`.
fn find_match<'a>(rules: &'a Vec<String>, subject: &str) -> (found: Option<&'a String>)
    ensures
        found is Some <==> first_match(texts(rules@), subject@) is Some,
        found matches Some(rule) ==> first_match(texts(rules@), subject@) == Some(rule@),
{
    let ghost all = texts(rules@);
    let mut i: usize = 0;
    assert(all.skip(0) =~= all);
    while i < rules.len()
        invariant
            i <= rules@.len(),
            all == texts(rules@),
            first_match(all, subject@) == first_match(all.skip(i as int), subject@),
        decreases rules@.len() - i,
    {
        if pattern_matches(rules[i].as_str(), subject) {
            return Some(&rules[i]);
        }
        assert(all.skip(i as int).skip(1) =~= all.skip(i + 1));
        i += 1;
    }
    None
}

/// The verdict where `denied` and `approval` are the first rules that match.
pub fn verdict_of(denied: Option<&str>, approval: Option<&str>) -> (verdict: PolicyVerdict)
    ensures
        verdict@ == ruling_of(str_of(denied), str_of(approval)),
{
    match denied {
        Some(rule) => {
            let mut reason = "blocked by harness policy (rule: ".to_owned();
            reason.append(rule);
            reason.append(")");
            PolicyVerdict::Deny(reason)
        },
        None => match approval {
            Some(rule) => {
                let mut reason = "approval required by harness policy (rule: ".to_owned();
                reason.append(rule);
                reason.append(")");
                PolicyVerdict::RequireApproval(reason)
            },
            None => PolicyVerdict::Allow,
        },
    }
}

impl HarnessPolicy {
    /// Whether the policy has no rule at all.
    pub fn is_empty(&self) -> (empty: bool)
        ensures
            empty == (self@.deny.len() == 0 && self@.require_approval.len() == 0),
    {
        self.deny.is_empty() && self.require_approval.is_empty()
    }

    /// The verdict for a subject. Deny wins over approval when both match.
    pub fn check(&self, subject: &str) -> (verdict: PolicyVerdict)
        ensures
            verdict@ == ruling(self@, subject@),
    {
        if let Some(rule) = find_match(&self.deny, subject) {
            return verdict_of(Some(rule.as_str()), None);
        }
        if let Some(rule) = find_match(&self.require_approval, subject) {
            return verdict_of(None, Some(rule.as_str()));
        }
        verdict_of(None, None)
    }
}

impl Default for HarnessPolicy {
    /// The policy without rules.
    fn default() -> (policy: Self)
        ensures
            policy@ == (PolicyRules { deny: seq![], require_approval: seq![] }),
    {
        HarnessPolicy { deny: Vec::new(), require_approval: Vec::new() }
    }
}

impl Clone for HarnessPolicy {
    fn clone(&self) -> (copy: Self)
        ensures
            copy@ == self@,
    {
        let copy = HarnessPolicy {
            deny: self.deny.clone(),
            require_approval: self.require_approval.clone(),
        };
        assert(texts(copy.deny@) =~= texts(self.deny@));
        assert(texts(copy.require_approval@) =~= texts(self.require_approval@));
        copy
    }
}

/// A rule is found exactly where one matches, and the one that is found is the
/// first that does.
pub proof fn lemma_first_match(rules: Seq<Seq<char>>, subject: Seq<char>)
    ensures
        match first_match(rules, subject) {
            Some(rule) => exists|i: int|
                0 <= i < rules.len() && rule == #[trigger] rules[i] && matches_pattern(
                    rules[i],
                    subject,
                ) && forall|j: int|
                    0 <= j < i ==> !matches_pattern(#[trigger] rules[j], subject),
            None => forall|i: int|
                0 <= i < rules.len() ==> !matches_pattern(#[trigger] rules[i], subject),
        },
    decreases rules.len(),
{
    if rules.len() > 0 {
        if matches_pattern(rules[0], subject) {
        } else {
            let rest = rules.skip(1);
            lemma_first_match(rest, subject);
            match first_match(rest, subject) {
                Some(rule) => {
                    let k = choose|i: int|
                        0 <= i < rest.len() && rule == #[trigger] rest[i] && matches_pattern(
                            rest[i],
                            subject,
                        ) && forall|j: int|
                            0 <= j < i ==> !matches_pattern(#[trigger] rest[j], subject);
                    assert(rules[k + 1] == rest[k]);
                    assert forall|j: int| 0 <= j < k + 1 implies !matches_pattern(
                        #[trigger] rules[j],
                        subject,
                    ) by {
                        if j > 0 {
                            assert(rest[j - 1] == rules[j]);
                        }
                    }
                },
                None => {
                    assert forall|i: int| 0 <= i < rules.len() implies !matches_pattern(
                        #[trigger] rules[i],
                        subject,
                    ) by {
                        if i > 0 {
                            assert(rest[i - 1] == rules[i]);
                        }
                    }
                },
            }
        }
    }
}

/// A pattern matches whatever the case of the pattern and of the subject.
pub proof fn lemma_match_ignores_case(
    pattern: Seq<char>,
    subject: Seq<char>,
    other_pattern: Seq<char>,
    other_subject: Seq<char>,
)
    requires
        folded(pattern) == folded(other_pattern),
        folded(subject) == folded(other_subject),
    ensures
        matches_pattern(pattern, subject) == matches_pattern(other_pattern, other_subject),
{
}

/// A pattern whose folded form has no `*` matches its own text and no other, up
/// to case.
pub proof fn lemma_match_exact(pattern: Seq<char>, subject: Seq<char>)
    requires
        !folded(pattern).contains('*'),
    ensures
        matches_pattern(pattern, subject) <==> folded(pattern) == folded(subject),
{
    lemma_glob_literal(folded(pattern), folded(subject));
}

/// A subject is denied exactly when a deny rule matches it, whatever the other
/// rules say.
pub proof fn lemma_deny_wins(rules: PolicyRules, subject: Seq<char>)
    ensures
        ruling(rules, subject) is Deny <==> exists|i: int|
            0 <= i < rules.deny.len() && matches_pattern(#[trigger] rules.deny[i], subject),
{
    lemma_first_match(rules.deny, subject);
}

/// A subject is allowed exactly when no rule matches it.
pub proof fn lemma_allowed_when_nothing_matches(rules: PolicyRules, subject: Seq<char>)
    ensures
        ruling(rules, subject) is Allow <==> {
            &&& forall|i: int|
                0 <= i < rules.deny.len() ==> !matches_pattern(#[trigger] rules.deny[i], subject)
            &&& forall|i: int|
                0 <= i < rules.require_approval.len() ==> !matches_pattern(
                    #[trigger] rules.require_approval[i],
                    subject,
                )
        },
{
    lemma_first_match(rules.deny, subject);
    lemma_first_match(rules.require_approval, subject);
}

/// A policy without rules allows everything.
pub proof fn lemma_empty_policy_allows(rules: PolicyRules, subject: Seq<char>)
    requires
        rules.deny.len() == 0,
        rules.require_approval.len() == 0,
    ensures
        ruling(rules, subject) is Allow,
{
}

/// A policy that has all the rules of another, in whatever order and with
/// whatever further rules, is never less strict.
pub proof fn lemma_all_rules_never_loosen(rules: PolicyRules, more: PolicyRules, subject: Seq<char>)
    requires
        forall|i: int|
            0 <= i < rules.deny.len() ==> more.deny.contains(#[trigger] rules.deny[i]),
        forall|i: int|
            0 <= i < rules.require_approval.len() ==> more.require_approval.contains(
                #[trigger] rules.require_approval[i],
            ),
    ensures
        severity(ruling(rules, subject)) <= severity(ruling(more, subject)),
{
    lemma_first_match(rules.deny, subject);
    lemma_first_match(more.deny, subject);
    lemma_first_match(rules.require_approval, subject);
    lemma_first_match(more.require_approval, subject);
    if first_match(rules.deny, subject) is Some {
        let i = choose|i: int|
            0 <= i < rules.deny.len() && matches_pattern(#[trigger] rules.deny[i], subject);
        let k = choose|k: int| 0 <= k < more.deny.len() && more.deny[k] == rules.deny[i];
        assert(matches_pattern(more.deny[k], subject));
    }
    if first_match(rules.require_approval, subject) is Some {
        let i = choose|i: int|
            0 <= i < rules.require_approval.len() && matches_pattern(
                #[trigger] rules.require_approval[i],
                subject,
            );
        let k = choose|k: int|
            0 <= k < more.require_approval.len() && more.require_approval[k]
                == rules.require_approval[i];
        assert(matches_pattern(more.require_approval[k], subject));
    }
}

/// Further rules never make a verdict less strict.
pub proof fn lemma_more_rules_never_loosen(
    rules: PolicyRules,
    deny: Seq<Seq<char>>,
    require_approval: Seq<Seq<char>>,
    subject: Seq<char>,
)
    ensures
        severity(ruling(rules, subject)) <= severity(
            ruling(
                PolicyRules {
                    deny: rules.deny + deny,
                    require_approval: rules.require_approval + require_approval,
                },
                subject,
            ),
        ),
{
    let more = PolicyRules {
        deny: rules.deny + deny,
        require_approval: rules.require_approval + require_approval,
    };
    assert forall|i: int| 0 <= i < rules.deny.len() implies more.deny.contains(
        #[trigger] rules.deny[i],
    ) by {
        assert(more.deny[i] == rules.deny[i]);
    }
    assert forall|i: int|
        0 <= i < rules.require_approval.len() implies more.require_approval.contains(
        #[trigger] rules.require_approval[i],
    ) by {
        assert(more.require_approval[i] == rules.require_approval[i]);
    }
    lemma_all_rules_never_loosen(rules, more, subject);
}

/// A pattern matches a subject exactly when its lower-case form matches the
/// subject's as a glob, where the two lower-case sigmas count as one letter.
pub proof fn lemma_match_is_glob_of_lower_case(pattern: Seq<char>, subject: Seq<char>)
    ensures
        matches_pattern(pattern, subject) == glob(
            Seq::new(
                lowercase(pattern).len(),
                |i: int|
                    if lowercase(pattern)[i] == 'ς' {
                        'σ'
                    } else {
                        lowercase(pattern)[i]
                    },
            ),
            Seq::new(
                lowercase(subject).len(),
                |i: int|
                    if lowercase(subject)[i] == 'ς' {
                        'σ'
                    } else {
                        lowercase(subject)[i]
                    },
            ),
        ),
        !lowercase(pattern).contains('ς') && !lowercase(subject).contains('ς')
            ==> matches_pattern(pattern, subject) == glob(lowercase(pattern), lowercase(subject)),
{
    assert(folded(pattern) =~= Seq::new(
        lowercase(pattern).len(),
        |i: int|
            if lowercase(pattern)[i] == 'ς' {
                'σ'
            } else {
                lowercase(pattern)[i]
            },
    ));
    assert(folded(subject) =~= Seq::new(
        lowercase(subject).len(),
        |i: int|
            if lowercase(subject)[i] == 'ς' {
                'σ'
            } else {
                lowercase(subject)[i]
            },
    ));
    if !lowercase(pattern).contains('ς') && !lowercase(subject).contains('ς') {
        assert forall|i: int| 0 <= i < lowercase(pattern).len() implies lowercase(pattern)[i]
            != 'ς' by {
            assert(lowercase(pattern).contains(lowercase(pattern)[i]));
        }
        assert forall|i: int| 0 <= i < lowercase(subject).len() implies lowercase(subject)[i]
            != 'ς' by {
            assert(lowercase(subject).contains(lowercase(subject)[i]));
        }
        assert(folded(pattern) =~= lowercase(pattern));
        assert(folded(subject) =~= lowercase(subject));
    }
}

/// Patterns and subjects that are the same in lower case match alike.
pub proof fn lemma_match_depends_on_lower_case(
    pattern: &str,
    subject: &str,
    out: bool,
    other_pattern: &str,
    other_subject: &str,
    other_out: bool,
)
    requires
        call_ensures(pattern_matches, (pattern, subject), out),
        call_ensures(pattern_matches, (other_pattern, other_subject), other_out),
        lowercase(pattern@) == lowercase(other_pattern@),
        lowercase(subject@) == lowercase(other_subject@),
    ensures
        out == other_out,
{
}

/// What the matcher answers: whether the lower-case form of the pattern matches
/// that of the subject as a glob. Without a `*` in it, that is whether the two
/// are the same.
pub proof fn lemma_pattern_matches_answer(pattern: &str, subject: &str, out: bool)
    requires
        call_ensures(pattern_matches, (pattern, subject), out),
    ensures
        out == matches_pattern(pattern@, subject@),
        !lowercase(pattern@).contains('ς') && !lowercase(subject@).contains('ς') ==> out
            == glob(lowercase(pattern@), lowercase(subject@)),
        !lowercase(pattern@).contains('ς') && !lowercase(subject@).contains('ς')
            && !lowercase(pattern@).contains('*') ==> out == (lowercase(pattern@)
            == lowercase(subject@)),
{
    lemma_match_is_glob_of_lower_case(pattern@, subject@);
    if !lowercase(pattern@).contains('*') {
        lemma_glob_literal(lowercase(pattern@), lowercase(subject@));
    }
}

/// The first rule that matches is found at its place.
proof fn lemma_first_match_at(rules: Seq<Seq<char>>, subject: Seq<char>, i: int)
    requires
        0 <= i < rules.len(),
        matches_pattern(rules[i], subject),
        forall|j: int| 0 <= j < i ==> !matches_pattern(#[trigger] rules[j], subject),
    ensures
        first_match(rules, subject) == Some(rules[i]),
{
    lemma_first_match(rules, subject);
    if first_match(rules, subject) is Some {
        let rule = first_match(rules, subject)->0;
        let k = choose|k: int|
            0 <= k < rules.len() && rule == #[trigger] rules[k] && matches_pattern(
                rules[k],
                subject,
            ) && forall|j: int| 0 <= j < k ==> !matches_pattern(#[trigger] rules[j], subject);
        if k < i {
            assert(!matches_pattern(rules[k], subject));
        } else if i < k {
            assert(!matches_pattern(rules[i], subject));
        }
    }
}

/// What a policy says of a subject: the first deny rule that matches decides,
/// else the first approval rule that matches, and the reason names the rule;
/// where none matches the subject is allowed.
pub proof fn lemma_ruling_names_first_rule(rules: PolicyRules, subject: Seq<char>, i: int)
    ensures
        0 <= i < rules.deny.len() && matches_pattern(rules.deny[i], subject) && (forall|j: int|
            0 <= j < i ==> !matches_pattern(#[trigger] rules.deny[j], subject)) ==> ruling(
            rules,
            subject,
        ) == Ruling::Deny("blocked by harness policy (rule: "@ + rules.deny[i] + ")"@),
        (forall|j: int|
            0 <= j < rules.deny.len() ==> !matches_pattern(#[trigger] rules.deny[j], subject))
            && 0 <= i < rules.require_approval.len() && matches_pattern(
            rules.require_approval[i],
            subject,
        ) && (forall|j: int|
            0 <= j < i ==> !matches_pattern(#[trigger] rules.require_approval[j], subject))
            ==> ruling(rules, subject) == Ruling::RequireApproval(
            "approval required by harness policy (rule: "@ + rules.require_approval[i] + ")"@,
        ),
        (forall|j: int|
            0 <= j < rules.deny.len() ==> !matches_pattern(#[trigger] rules.deny[j], subject)) && (
        forall|j: int|
            0 <= j < rules.require_approval.len() ==> !matches_pattern(
                #[trigger] rules.require_approval[j],
                subject,
            )) ==> ruling(rules, subject) == Ruling::Allow,
{
    lemma_first_match(rules.deny, subject);
    lemma_first_match(rules.require_approval, subject);
    if 0 <= i < rules.deny.len() && matches_pattern(rules.deny[i], subject) && (forall|j: int|
        0 <= j < i ==> !matches_pattern(#[trigger] rules.deny[j], subject)) {
        lemma_first_match_at(rules.deny, subject, i);
    }
    if 0 <= i < rules.require_approval.len() && matches_pattern(rules.require_approval[i], subject)
        && (forall|j: int|
        0 <= j < i ==> !matches_pattern(#[trigger] rules.require_approval[j], subject)) {
        lemma_first_match_at(rules.require_approval, subject, i);
    }
}

/// A policy is read rule by rule, and a verdict with its reason.
pub proof fn lemma_policy_is_its_rules(policy: HarnessPolicy, verdict: PolicyVerdict, i: int)
    ensures
        policy@.deny.len() == policy.deny@.len(),
        0 <= i < policy.deny@.len() ==> policy@.deny[i] == policy.deny@[i]@,
        policy@.require_approval.len() == policy.require_approval@.len(),
        0 <= i < policy.require_approval@.len() ==> policy@.require_approval[i]
            == policy.require_approval@[i]@,
        verdict is Allow <==> verdict@ is Allow,
        verdict matches PolicyVerdict::Deny(reason) ==> verdict@ == Ruling::Deny(reason@),
        verdict matches PolicyVerdict::RequireApproval(reason) ==> verdict@
            == Ruling::RequireApproval(reason@),
{
}

/// The verdict on a subject is decided by the first rule that matches it, deny
/// rules before approval rules, and names that rule.
pub proof fn lemma_check_answer(
    policy: HarnessPolicy,
    subject: &str,
    verdict: PolicyVerdict,
    i: int,
)
    requires
        call_ensures(HarnessPolicy::check, (&policy, subject), verdict),
    ensures
        0 <= i < policy.deny@.len() && matches_pattern(policy.deny@[i]@, subject@) && (forall|
            j: int,
        |
            0 <= j < i ==> !matches_pattern((#[trigger] policy.deny@[j])@, subject@)) ==> {
            &&& verdict matches PolicyVerdict::Deny(reason)
            &&& reason@ == "blocked by harness policy (rule: "@ + policy.deny@[i]@ + ")"@
        },
        (forall|j: int|
            0 <= j < policy.deny@.len() ==> !matches_pattern(
                (#[trigger] policy.deny@[j])@,
                subject@,
            )) && 0 <= i < policy.require_approval@.len() && matches_pattern(
            policy.require_approval@[i]@,
            subject@,
        ) && (forall|j: int|
            0 <= j < i ==> !matches_pattern(
                (#[trigger] policy.require_approval@[j])@,
                subject@,
            )) ==> {
            &&& verdict matches PolicyVerdict::RequireApproval(reason)
            &&& reason@ == "approval required by harness policy (rule: "@
                + policy.require_approval@[i]@ + ")"@
        },
        (forall|j: int|
            0 <= j < policy.deny@.len() ==> !matches_pattern(
                (#[trigger] policy.deny@[j])@,
                subject@,
            )) && (forall|j: int|
            0 <= j < policy.require_approval@.len() ==> !matches_pattern(
                (#[trigger] policy.require_approval@[j])@,
                subject@,
            )) ==> verdict is Allow,
{
    assert forall|j: int| 0 <= j < policy@.deny.len() implies #[trigger] policy@.deny[j]
        == policy.deny@[j]@ by {}
    assert forall|j: int| 0 <= j < policy@.require_approval.len() implies #[trigger]
        policy@.require_approval[j] == policy.require_approval@[j]@ by {}
    lemma_ruling_names_first_rule(policy@, subject@, i);
}

/// Two policies with the same rules rule alike on every subject.
pub proof fn lemma_same_rules_rule_alike(
    policy: HarnessPolicy,
    other: HarnessPolicy,
    subject: &str,
    verdict: PolicyVerdict,
    other_verdict: PolicyVerdict,
)
    requires
        call_ensures(HarnessPolicy::check, (&policy, subject), verdict),
        call_ensures(HarnessPolicy::check, (&other, subject), other_verdict),
        policy.deny@.len() == other.deny@.len(),
        forall|i: int| 0 <= i < policy.deny@.len() ==> policy.deny@[i]@ == other.deny@[i]@,
        policy.require_approval@.len() == other.require_approval@.len(),
        forall|i: int|
            0 <= i < policy.require_approval@.len() ==> policy.require_approval@[i]@
                == other.require_approval@[i]@,
    ensures
        verdict@ == other_verdict@,
{
    assert(policy@ =~= other@) by {
        assert(policy@.deny =~= other@.deny);
        assert(policy@.require_approval =~= other@.require_approval);
    }
}

/// A copy of a policy has the same rules in the same order, a policy by default
/// has none, and a policy is empty exactly when it has none.
pub proof fn lemma_policy_copies(
    policy: HarnessPolicy,
    copy: HarnessPolicy,
    fresh: HarnessPolicy,
    empty: bool,
)
    requires
        call_ensures(<HarnessPolicy as Clone>::clone, (&policy,), copy),
        call_ensures(<HarnessPolicy as Default>::default, (), fresh),
        call_ensures(HarnessPolicy::is_empty, (&policy,), empty),
    ensures
        copy.deny@.len() == policy.deny@.len(),
        forall|i: int| 0 <= i < policy.deny@.len() ==> copy.deny@[i]@ == policy.deny@[i]@,
        copy.require_approval@.len() == policy.require_approval@.len(),
        forall|i: int|
            0 <= i < policy.require_approval@.len() ==> copy.require_approval@[i]@
                == policy.require_approval@[i]@,
        fresh.deny@.len() == 0 && fresh.require_approval@.len() == 0,
        empty <==> policy.deny@.len() == 0 && policy.require_approval@.len() == 0,
{
    assert(texts(copy.deny@).len() == copy.deny@.len());
    assert(texts(copy.require_approval@).len() == copy.require_approval@.len());
    assert(texts(fresh.deny@).len() == fresh.deny@.len());
    assert(texts(fresh.require_approval@).len() == fresh.require_approval@.len());
    assert forall|i: int| 0 <= i < policy.deny@.len() implies copy.deny@[i]@
        == policy.deny@[i]@ by {
        assert(texts(copy.deny@)[i] == texts(policy.deny@)[i]);
    }
    assert forall|i: int| 0 <= i < policy.require_approval@.len() implies copy.require_approval@[i]@
        == policy.require_approval@[i]@ by {
        assert(texts(copy.require_approval@)[i] == texts(policy.require_approval@)[i]);
    }
}

/// A verdict names the rule that it rests on, and a copy of it is the same.
pub proof fn lemma_verdict_answer(
    denied: Option<&str>,
    approval: Option<&str>,
    verdict: PolicyVerdict,
    copy: PolicyVerdict,
)
    requires
        call_ensures(verdict_of, (denied, approval), verdict),
        call_ensures(<PolicyVerdict as Clone>::clone, (&verdict,), copy),
    ensures
        copy@ == verdict@,
        denied matches Some(rule) ==> {
            &&& verdict matches PolicyVerdict::Deny(reason)
            &&& reason@ == "blocked by harness policy (rule: "@ + rule@ + ")"@
        },
        denied is None && approval is Some ==> {
            &&& verdict matches PolicyVerdict::RequireApproval(reason)
            &&& reason@ == "approval required by harness policy (rule: "@ + approval->0@ + ")"@
        },
        denied is None && approval is None ==> verdict is Allow,
{
}

} // verus!
