//! Profiles: bundles served by a control plane that provision a session.
//!
//! A profile is pure data. Deployments differ only in the content of their
//! profiles, which come from a local path or from an HTTP(S) URL.

use crate::context::{clone_ingest, ingest_info, IngestConfig, IngestInfo};
use crate::policy::{HarnessPolicy, PolicyRules};
use crate::text::{chars_of, same_text, starts_with, text_of, to_uppercase, uppercase};
use vstd::prelude::*;

verus! {

/// What a session is provisioned with.
#[derive(Debug)]
pub struct Profile {
    /// Stable identifier, stamped on every event.
    pub id: String,
    /// Description shown at bootstrap.
    pub description: Option<String>,
    /// Remote endpoint; the local log is written regardless.
    pub ingest: Option<IngestConfig>,
    /// Tool policy.
    pub policy: HarnessPolicy,
    /// Configuration keys pinned for the session with their values, in the
    /// order of the keys.
    pub config_locked: Vec<(String, String)>,
    /// The workspace to check out, if one is to be.
    pub workspace: Option<WorkspaceSpec>,
    /// Recipe to launch the session with.
    pub recipe: Option<String>,
}

/// A repository to check out as the workspace.
#[derive(Debug)]
pub struct WorkspaceSpec {
    /// Git URL to clone.
    pub repo: String,
    /// Directory name for the clone; defaults to the name of the repository.
    pub dir: Option<String>,
    /// Branch or ref to check out.
    pub git_ref: Option<String>,
}

/// What a [`WorkspaceSpec`] says.
pub struct WorkspaceInfo {
    /// Git URL to clone.
    pub repo: Seq<char>,
    /// Directory name for the clone.
    pub dir: Option<Seq<char>>,
    /// Branch or ref to check out.
    pub git_ref: Option<Seq<char>>,
}

impl View for WorkspaceSpec {
    type V = WorkspaceInfo;

    open spec fn view(&self) -> WorkspaceInfo {
        WorkspaceInfo {
            repo: self.repo@,
            dir: text_of(self.dir),
            git_ref: text_of(self.git_ref),
        }
    }
}

impl Clone for WorkspaceSpec {
    fn clone(&self) -> (copy: Self)
        ensures
            copy@ == self@,
    {
        WorkspaceSpec {
            repo: self.repo.clone(),
            dir: self.dir.clone(),
            git_ref: self.git_ref.clone(),
        }
    }
}

/// The order of texts: by the first character in which they differ, and a text
/// before those that it is the start of.
pub open spec fn text_before(a: Seq<char>, b: Seq<char>) -> bool
    decreases a.len(),
{
    if a.len() == 0 || b.len() == 0 {
        a.len() < b.len()
    } else {
        a[0] < b[0] || (a[0] == b[0] && text_before(a.skip(1), b.skip(1)))
    }
}

/// The keys of a list of pairs.
pub open spec fn keys(pairs: Seq<(String, String)>) -> Seq<Seq<char>> {
    pairs.map_values(|pair: (String, String)| pair.0@)
}

/// The values of a list of pairs.
pub open spec fn values(pairs: Seq<(String, String)>) -> Seq<Seq<char>> {
    pairs.map_values(|pair: (String, String)| pair.1@)
}

/// What a [`Profile`] says.
pub struct ProfileInfo {
    /// Stable identifier.
    pub id: Seq<char>,
    /// Description shown at bootstrap.
    pub description: Option<Seq<char>>,
    /// Remote endpoint.
    pub ingest: Option<IngestInfo>,
    /// Tool policy.
    pub policy: PolicyRules,
    /// Keys of the locked configuration.
    pub locked_keys: Seq<Seq<char>>,
    /// Values of the locked configuration.
    pub locked_values: Seq<Seq<char>>,
    /// The workspace to check out.
    pub workspace: Option<WorkspaceInfo>,
    /// Recipe to launch the session with.
    pub recipe: Option<Seq<char>>,
}

impl View for Profile {
    type V = ProfileInfo;

    open spec fn view(&self) -> ProfileInfo {
        ProfileInfo {
            id: self.id@,
            description: text_of(self.description),
            ingest: ingest_info(self.ingest),
            policy: self.policy@,
            locked_keys: keys(self.config_locked@),
            locked_values: values(self.config_locked@),
            workspace: match self.workspace {
                Some(spec) => Some(spec@),
                None => None,
            },
            recipe: text_of(self.recipe),
        }
    }
}

/// A copy of a list of pairs.
fn clone_pairs(pairs: &Vec<(String, String)>) -> (copy: Vec<(String, String)>)
    ensures
        keys(copy@) == keys(pairs@),
        values(copy@) == values(pairs@),
{
    let mut copy: Vec<(String, String)> = Vec::new();
    let mut i: usize = 0;
    while i < pairs.len()
        invariant
            i <= pairs@.len(),
            copy@ == pairs@.take(i as int),
        decreases pairs@.len() - i,
    {
        let pair = &pairs[i];
        copy.push((pair.0.clone(), pair.1.clone()));
        i += 1;
        assert(copy@ =~= pairs@.take(i as int));
    }
    assert(copy@ =~= pairs@);
    copy
}

impl Clone for Profile {
    fn clone(&self) -> (copy: Self)
        ensures
            copy@ == self@,
    {
        Profile {
            id: self.id.clone(),
            description: self.description.clone(),
            ingest: clone_ingest(&self.ingest),
            policy: self.policy.clone(),
            config_locked: clone_pairs(&self.config_locked),
            workspace: match &self.workspace {
                Some(spec) => Some(spec.clone()),
                None => None,
            },
            recipe: self.recipe.clone(),
        }
    }
}

/// Whether `a` comes before `b` in the order of texts.
fn comes_before(a: &str, b: &str) -> (before: bool)
    ensures
        before == text_before(a@, b@),
{
    let left = chars_of(a);
    let right = chars_of(b);
    let mut i: usize = 0;
    assert(left@.skip(0) =~= left@);
    assert(right@.skip(0) =~= right@);
    while i < left.len() && i < right.len()
        invariant
            left@ == a@,
            right@ == b@,
            i <= left@.len(),
            i <= right@.len(),
            text_before(a@, b@) == text_before(left@.skip(i as int), right@.skip(i as int)),
        decreases left@.len() - i,
    {
        if left[i] != right[i] {
            return left[i] < right[i];
        }
        assert(left@.skip(i as int).skip(1) =~= left@.skip(i + 1));
        assert(right@.skip(i as int).skip(1) =~= right@.skip(i + 1));
        i += 1;
    }
    left.len() < right.len()
}

/// The order of texts is transitive.
proof fn lemma_before_transitive(a: Seq<char>, b: Seq<char>, c: Seq<char>)
    requires
        text_before(a, b),
        text_before(b, c),
    ensures
        text_before(a, c),
    decreases a.len(),
{
    if a.len() > 0 && b.len() > 0 && c.len() > 0 && a[0] == b[0] && b[0] == c[0] {
        lemma_before_transitive(a.skip(1), b.skip(1), c.skip(1));
    }
}

/// Of two texts that differ, one comes before the other.
proof fn lemma_before_total(a: Seq<char>, b: Seq<char>)
    requires
        a != b,
        !text_before(a, b),
    ensures
        text_before(b, a),
    decreases a.len(),
{
    if a.len() == 0 || b.len() == 0 {
        if a.len() == b.len() {
            assert(a =~= b);
        }
    } else if a[0] == b[0] {
        if a.skip(1) == b.skip(1) {
            assert(a.skip(1).len() == b.skip(1).len());
            assert forall|i: int| 0 <= i < a.len() implies a[i] == b[i] by {
                if i > 0 {
                    assert(a.skip(1)[i - 1] == b.skip(1)[i - 1]);
                }
            }
            assert(a =~= b);
        }
        lemma_before_total(a.skip(1), b.skip(1));
    }
}

/// The value `value` is locked under `key`.
pub open spec fn locks(pairs: Seq<(String, String)>, key: Seq<char>, value: Seq<char>) -> bool {
    exists|i: int|
        0 <= i < pairs.len() && (#[trigger] pairs[i]).0@ == key && pairs[i].1@ == value
}

impl Profile {
    /// Locks a key to a value, in place of any value that it was locked to.
    pub fn lock(&mut self, key: String, value: String)
        requires
            old(self).wf(),
        ensures
            final(self).wf(),
            forall|k: Seq<char>, v: Seq<char>| #[trigger]
                locks(final(self).config_locked@, k, v) == if k == key@ {
                    v == value@
                } else {
                    locks(old(self).config_locked@, k, v)
                },
            *final(self) == (Profile { config_locked: final(self).config_locked, ..*old(self) }),
    {
        let ghost before = self.config_locked@;
        let ghost text = value@;
        let mut i: usize = 0;
        while i < self.config_locked.len() && comes_before(
            self.config_locked[i].0.as_str(),
            key.as_str(),
        )
            invariant
                i <= self.config_locked@.len(),
                self.config_locked@ == before,
                *self == *old(self),
                forall|j: int| 0 <= j < i ==> text_before((#[trigger] before[j]).0@, key@),
            decreases self.config_locked@.len() - i,
        {
            i += 1;
        }
        let ghost name = key@;
        let ghost at = i as int;
        proof {
            assert forall|a: int, b: int| 0 <= a < b < before.len() implies text_before(
                (#[trigger] before[a]).0@,
                (#[trigger] before[b]).0@,
            ) by {
                assert(text_before(keys(before)[a], keys(before)[b]));
            }
            lemma_not_before_itself(name);
        }
        if i < self.config_locked.len() && same_text(
            self.config_locked[i].0.as_str(),
            key.as_str(),
        ) {
            self.config_locked.set(i, (key, value));
            let ghost after = self.config_locked@;
            proof {
                assert(keys(after) =~= keys(before));
                assert forall|k: Seq<char>, v: Seq<char>| #[trigger] locks(after, k, v) == if k
                    == name {
                    v == text
                } else {
                    locks(before, k, v)
                } by {
                    lemma_lock_replaced(before, after, at, name, text, k, v);
                }
            }
        } else {
            self.config_locked.insert(i, (key, value));
            let ghost after = self.config_locked@;
            proof {
                lemma_lock_inserted(before, after, at, name, text);
            }
        }
    }

    /// The locked keys are in order, and none occurs twice.
    pub open spec fn wf(&self) -> bool {
        forall|i: int, j: int|
            0 <= i < j < self.config_locked@.len() ==> text_before(
                #[trigger] keys(self.config_locked@)[i],
                #[trigger] keys(self.config_locked@)[j],
            )
    }
}

/// No text comes before itself.
proof fn lemma_not_before_itself(a: Seq<char>)
    ensures
        !text_before(a, a),
    decreases a.len(),
{
    if a.len() > 0 {
        lemma_not_before_itself(a.skip(1));
    }
}

/// What is locked once the pair at `at` has been replaced.
proof fn lemma_lock_replaced(
    before: Seq<(String, String)>,
    after: Seq<(String, String)>,
    at: int,
    name: Seq<char>,
    text: Seq<char>,
    k: Seq<char>,
    v: Seq<char>,
)
    requires
        0 <= at < before.len(),
        forall|a: int, b: int|
            0 <= a < b < before.len() ==> text_before(
                (#[trigger] before[a]).0@,
                (#[trigger] before[b]).0@,
            ),
        before[at].0@ == name,
        after == before.update(at, after[at]),
        after[at].0@ == name,
        after[at].1@ == text,
    ensures
        locks(after, k, v) == if k == name {
            v == text
        } else {
            locks(before, k, v)
        },
{
    lemma_not_before_itself(name);
    assert forall|j: int| 0 <= j < before.len() && j != at implies (#[trigger] before[j]).0@
        != name by {
        if j < at {
            assert(text_before(before[j].0@, before[at].0@));
        } else {
            assert(text_before(before[at].0@, before[j].0@));
        }
    }
    if locks(after, k, v) {
        let j = choose|j: int|
            0 <= j < after.len() && (#[trigger] after[j]).0@ == k && after[j].1@ == v;
        if j != at {
            assert(before[j] == after[j]);
        }
    }
    if k == name && v == text {
        assert(after[at].0@ == k && after[at].1@ == v);
    }
    if k != name && locks(before, k, v) {
        let j = choose|j: int|
            0 <= j < before.len() && (#[trigger] before[j]).0@ == k && before[j].1@ == v;
        assert(after[j] == before[j]);
    }
}

/// What is locked once a new pair has been inserted at its place, and that the
/// keys are still in order.
proof fn lemma_lock_inserted(
    before: Seq<(String, String)>,
    after: Seq<(String, String)>,
    at: int,
    name: Seq<char>,
    text: Seq<char>,
)
    requires
        0 <= at <= before.len(),
        forall|a: int, b: int|
            0 <= a < b < before.len() ==> text_before(
                (#[trigger] before[a]).0@,
                (#[trigger] before[b]).0@,
            ),
        forall|j: int| 0 <= j < at ==> text_before((#[trigger] before[j]).0@, name),
        at < before.len() ==> before[at].0@ != name && !text_before(before[at].0@, name),
        after.len() == before.len() + 1,
        after == before.insert(at, after[at]),
        after[at].0@ == name,
        after[at].1@ == text,
    ensures
        forall|a: int, b: int|
            0 <= a < b < after.len() ==> text_before(
                #[trigger] keys(after)[a],
                #[trigger] keys(after)[b],
            ),
        forall|k: Seq<char>, v: Seq<char>| #[trigger]
            locks(after, k, v) == if k == name {
                v == text
            } else {
                locks(before, k, v)
            },
{
    lemma_not_before_itself(name);
    assert forall|j: int| at <= j < before.len() implies text_before(
        name,
        (#[trigger] before[j]).0@,
    ) by {
        lemma_before_total(before[at].0@, name);
        if at < j {
            assert(text_before(before[at].0@, before[j].0@));
            lemma_before_transitive(name, before[at].0@, before[j].0@);
        }
    }
    assert forall|j: int| 0 <= j < after.len() implies #[trigger] after[j] == if j < at {
        before[j]
    } else if j == at {
        after[at]
    } else {
        before[j - 1]
    } by {
        assert(after[j] == before.insert(at, after[at])[j]);
    }
    assert forall|a: int, b: int| 0 <= a < b < after.len() implies text_before(
        #[trigger] keys(after)[a],
        #[trigger] keys(after)[b],
    ) by {
        assert(keys(after)[a] == after[a].0@);
        assert(keys(after)[b] == after[b].0@);
        if a != at && b != at {
            let left = if a < at { a } else { a - 1 };
            let right = if b < at { b } else { b - 1 };
            assert(text_before(before[left].0@, before[right].0@));
        } else if a == at {
            assert(text_before(name, before[b - 1].0@));
        } else {
            assert(text_before(before[a].0@, name));
        }
    }
    assert forall|k: Seq<char>, v: Seq<char>| #[trigger] locks(after, k, v) == if k == name {
        v == text
    } else {
        locks(before, k, v)
    } by {
        if locks(after, k, v) {
            let j = choose|j: int|
                0 <= j < after.len() && (#[trigger] after[j]).0@ == k && after[j].1@ == v;
            if j < at {
                assert(before[j].0@ == k && before[j].1@ == v);
            } else if j > at {
                assert(before[j - 1].0@ == k && before[j - 1].1@ == v);
            }
        }
        if k == name && v == text {
            assert(after[at].0@ == k && after[at].1@ == v);
        }
        if k != name && locks(before, k, v) {
            let j = choose|j: int|
                0 <= j < before.len() && (#[trigger] before[j]).0@ == k && before[j].1@ == v;
            let moved = if j < at { j } else { j + 1 };
            assert(after[moved] == before[j]);
        }
    }
}

/// Each locked key has one value.
pub proof fn lemma_locked_keys_distinct(profile: Profile, i: int, j: int)
    requires
        profile.wf(),
        0 <= i < j < profile.config_locked@.len(),
    ensures
        profile.config_locked@[i].0@ != profile.config_locked@[j].0@,
{
    let all = keys(profile.config_locked@);
    assert(text_before(all[i], all[j]));
    lemma_not_before_itself(all[i]);
}

/// Where a profile comes from.
#[derive(Debug, Clone, Copy, PartialEq, Eq, Structural)]
pub enum ProfileSource {
    /// An HTTP(S) URL.
    Url,
    /// A local path.
    Path,
}

impl ProfileSource {
    /// Tells a URL from a path.
    pub fn of(source: &str) -> (kind: ProfileSource)
        ensures
            kind == if "http://"@.is_prefix_of(source@) || "https://"@.is_prefix_of(source@) {
                ProfileSource::Url
            } else {
                ProfileSource::Path
            },
    {
        if starts_with(source, "http://") || starts_with(source, "https://") {
            ProfileSource::Url
        } else {
            ProfileSource::Path
        }
    }
}

/// The names of the environment variables that pin the locked configuration,
/// in the order in which they are set: the keys in upper case.
pub open spec fn env_names(locked: Seq<(String, String)>) -> Seq<Seq<char>> {
    keys(locked).map_values(|key: Seq<char>| uppercase(key))
}

/// The environment variables that pin the locked configuration, with their
/// values, in the order in which they are set.
pub fn locked_env(locked: &Vec<(String, String)>) -> (env: Vec<(String, String)>)
    ensures
        keys(env@) == env_names(locked@),
        values(env@) == values(locked@),
{
    let mut env: Vec<(String, String)> = Vec::new();
    let mut i: usize = 0;
    while i < locked.len()
        invariant
            i <= locked@.len(),
            env@.len() == i,
            forall|j: int|
                0 <= j < i ==> (#[trigger] env@[j]).0@ == uppercase(locked@[j].0@) && env@[j].1@
                    == locked@[j].1@,
        decreases locked@.len() - i,
    {
        let pair = &locked[i];
        env.push((to_uppercase(pair.0.as_str()), pair.1.clone()));
        i += 1;
    }
    assert(keys(env@) =~= env_names(locked@));
    assert(values(env@) =~= values(locked@));
    env
}

/// The environment after the variables `names` have been set to `values`, one
/// after the other.
pub open spec fn env_after(
    env: Map<Seq<char>, Seq<char>>,
    names: Seq<Seq<char>>,
    values: Seq<Seq<char>>,
) -> Map<Seq<char>, Seq<char>>
    decreases names.len(),
{
    if names.len() == 0 {
        env
    } else {
        env_after(env, names.drop_last(), values.drop_last()).insert(names.last(), values.last())
    }
}

/// The last of the settings of a variable wins.
proof fn lemma_last_setting_wins(
    env: Map<Seq<char>, Seq<char>>,
    names: Seq<Seq<char>>,
    values: Seq<Seq<char>>,
    i: int,
)
    requires
        names.len() == values.len(),
        0 <= i < names.len(),
        forall|j: int| i < j < names.len() ==> names[j] != names[i],
    ensures
        env_after(env, names, values).contains_pair(names[i], values[i]),
    decreases names.len(),
{
    let last = names.len() - 1;
    if i < last {
        assert(names[last] != names[i]);
        lemma_last_setting_wins(env, names.drop_last(), values.drop_last(), i);
    }
}

/// A locked key overrides what the environment said before; of several keys
/// with the same upper-case form the last wins.
pub proof fn lemma_locked_config_wins(
    profile: Profile,
    env: Map<Seq<char>, Seq<char>>,
    i: int,
)
    requires
        0 <= i < profile.config_locked@.len(),
        forall|j: int|
            i < j < profile.config_locked@.len() ==> uppercase(
                (#[trigger] profile.config_locked@[j]).0@,
            ) != uppercase(profile.config_locked@[i].0@),
    ensures
        env_after(
            env,
            env_names(profile.config_locked@),
            values(profile.config_locked@),
        ).contains_pair(uppercase(profile.config_locked@[i].0@), profile.config_locked@[i].1@),
{
    let locked = profile.config_locked@;
    let names = env_names(locked);
    assert forall|j: int| i < j < names.len() implies names[j] != names[i] by {
        assert(names[j] == uppercase(locked[j].0@));
    }
    lemma_last_setting_wins(env, names, values(locked), i);
}

/// The locked configuration touches no variable but those of its keys.
pub proof fn lemma_unlocked_config_stays(
    profile: Profile,
    env: Map<Seq<char>, Seq<char>>,
    other: Seq<char>,
)
    requires
        !env_names(profile.config_locked@).contains(other),
    ensures
        ({
            let after = env_after(
                env,
                env_names(profile.config_locked@),
                values(profile.config_locked@),
            );
            &&& after.contains_key(other) == env.contains_key(other)
            &&& after[other] == env[other]
        }),
{
    lemma_unlocked_untouched(
        env,
        env_names(profile.config_locked@),
        values(profile.config_locked@),
        other,
    );
}

/// Setting other variables does not touch a variable.
proof fn lemma_unlocked_untouched(
    env: Map<Seq<char>, Seq<char>>,
    names: Seq<Seq<char>>,
    values: Seq<Seq<char>>,
    other: Seq<char>,
)
    requires
        names.len() == values.len(),
        !names.contains(other),
    ensures
        env_after(env, names, values).contains_key(other) == env.contains_key(other),
        env_after(env, names, values)[other] == env[other],
    decreases names.len(),
{
    if names.len() > 0 {
        let before = names.drop_last();
        assert(names.contains(names.last()));
        assert forall|c: Seq<char>| before.contains(c) implies names.contains(c) by {
            let k = choose|k: int| 0 <= k < before.len() && before[k] == c;
            assert(names[k] == c);
        }
        lemma_unlocked_untouched(env, before, values.drop_last(), other);
    }
}

/// Each locked key is set under its name in upper case to its own value, in the
/// order of the keys, and nothing else is set.
pub proof fn lemma_locked_env_answer(
    locked: Vec<(String, String)>,
    env: Vec<(String, String)>,
    i: int,
)
    requires
        call_ensures(locked_env, (&locked,), env),
    ensures
        env@.len() == locked@.len(),
        0 <= i < locked@.len() ==> env@[i].0@ == uppercase(locked@[i].0@) && env@[i].1@
            == locked@[i].1@,
{
    assert(keys(env@).len() == env@.len());
    if 0 <= i < locked@.len() {
        assert(keys(env@)[i] == uppercase(keys(locked@)[i]));
        assert(values(env@)[i] == values(locked@)[i]);
    }
}

/// Locking a key gives it that value and no other, leaves every other key with
/// its value, and keeps the keys in order.
pub proof fn lemma_lock_answer(profile: &mut Profile, key: String, value: String, i: int, j: int)
    requires
        call_ensures(Profile::lock, (profile, key, value), ()),
        old(profile).wf(),
    ensures
        exists|k: int|
            0 <= k < final(profile).config_locked@.len() && (
            #[trigger] final(profile).config_locked@[k]).0@ == key@
                && final(profile).config_locked@[k].1@ == value@,
        0 <= i < final(profile).config_locked@.len() && final(profile).config_locked@[i].0@
            == key@ ==> final(profile).config_locked@[i].1@ == value@,
        0 <= i < old(profile).config_locked@.len() && old(profile).config_locked@[i].0@ != key@
            ==> exists|k: int|
            0 <= k < final(profile).config_locked@.len() && (
            #[trigger] final(profile).config_locked@[k]).0@ == old(profile).config_locked@[i].0@
                && final(profile).config_locked@[k].1@ == old(profile).config_locked@[i].1@,
        0 <= i < final(profile).config_locked@.len() && final(profile).config_locked@[i].0@
            != key@ ==> exists|k: int|
            0 <= k < old(profile).config_locked@.len() && (
            #[trigger] old(profile).config_locked@[k]).0@
                == final(profile).config_locked@[i].0@ && old(profile).config_locked@[k].1@
                == final(profile).config_locked@[i].1@,
        0 <= i < j < final(profile).config_locked@.len() ==> text_before(
            final(profile).config_locked@[i].0@,
            final(profile).config_locked@[j].0@,
        ),
        final(profile).id == old(profile).id,
        final(profile).description == old(profile).description,
        final(profile).ingest == old(profile).ingest,
        final(profile).policy == old(profile).policy,
        final(profile).workspace == old(profile).workspace,
        final(profile).recipe == old(profile).recipe,
{
    let before = old(profile).config_locked@;
    let after = final(profile).config_locked@;
    assert(locks(after, key@, value@));
    if 0 <= i < after.len() {
        assert(locks(after, after[i].0@, after[i].1@));
    }
    if 0 <= i < before.len() && before[i].0@ != key@ {
        assert(locks(before, before[i].0@, before[i].1@));
        assert(locks(after, before[i].0@, before[i].1@));
    }
    if 0 <= i < j < after.len() {
        assert(text_before(keys(after)[i], keys(after)[j]));
    }
}

/// The first character in which two texts differ decides their order, and what
/// is only the start of a text comes before it.
pub proof fn lemma_order_of_texts(
    common: Seq<char>,
    a: Seq<char>,
    b: Seq<char>,
)
    requires
        a.len() > 0 && b.len() > 0 ==> a[0] != b[0],
    ensures
        a.len() > 0 && b.len() > 0 ==> (text_before(common + a, common + b) <==> a[0] < b[0]),
        a.len() == 0 || b.len() == 0 ==> (text_before(common + a, common + b) <==> a.len()
            < b.len()),
    decreases common.len(),
{
    if common.len() == 0 {
        assert(common + a =~= a);
        assert(common + b =~= b);
    } else {
        let rest = common.skip(1);
        lemma_order_of_texts(rest, a, b);
        assert((common + a).skip(1) =~= rest + a);
        assert((common + b).skip(1) =~= rest + b);
    }
}

/// A source is a URL exactly when it starts with one of the two schemes.
pub proof fn lemma_source_by_scheme(source: &str, kind: ProfileSource)
    requires
        call_ensures(ProfileSource::of, (source,), kind),
    ensures
        kind == ProfileSource::Url <==> {
            ||| source@.len() >= 7 && source@.subrange(0, 7) == "http://"@
            ||| source@.len() >= 8 && source@.subrange(0, 8) == "https://"@
        },
        kind == ProfileSource::Path || kind == ProfileSource::Url,
{
    reveal_strlit("http://");
    reveal_strlit("https://");
}

/// A copy of a profile says the same in every field.
pub proof fn lemma_profile_copies(
    profile: Profile,
    copy: Profile,
    spec: WorkspaceSpec,
    spec_copy: WorkspaceSpec,
    i: int,
)
    requires
        call_ensures(<Profile as Clone>::clone, (&profile,), copy),
        call_ensures(<WorkspaceSpec as Clone>::clone, (&spec,), spec_copy),
    ensures
        copy.id@ == profile.id@,
        text_of(copy.description) == text_of(profile.description),
        ingest_info(copy.ingest) == ingest_info(profile.ingest),
        copy.policy@ == profile.policy@,
        copy.config_locked@.len() == profile.config_locked@.len(),
        0 <= i < profile.config_locked@.len() ==> copy.config_locked@[i].0@
            == profile.config_locked@[i].0@ && copy.config_locked@[i].1@
            == profile.config_locked@[i].1@,
        copy.workspace is Some <==> profile.workspace is Some,
        profile.workspace is Some ==> copy.workspace->0.repo@ == profile.workspace->0.repo@
            && text_of(copy.workspace->0.dir) == text_of(profile.workspace->0.dir) && text_of(
            copy.workspace->0.git_ref,
        ) == text_of(profile.workspace->0.git_ref),
        text_of(copy.recipe) == text_of(profile.recipe),
        spec_copy.repo@ == spec.repo@,
        text_of(spec_copy.dir) == text_of(spec.dir),
        text_of(spec_copy.git_ref) == text_of(spec.git_ref),
{
    assert(copy@ == profile@);
    assert(keys(copy.config_locked@).len() == copy.config_locked@.len());
    assert(keys(profile.config_locked@).len() == profile.config_locked@.len());
    if 0 <= i < profile.config_locked@.len() {
        assert(keys(copy.config_locked@)[i] == keys(profile.config_locked@)[i]);
        assert(values(copy.config_locked@)[i] == values(profile.config_locked@)[i]);
    }
    if profile.workspace is Some {
        assert(copy.workspace->0@ == profile.workspace->0@);
    }
}

} // verus!
