//! What a submission says of the final state of a workspace.

use crate::context::{HarnessContext, HARNESS_CONTEXT_ENV};
use crate::events::HarnessEvent;
use crate::harness::{
    active, emit_active, identified, lemma_numbering_continues, live, seq_after, settled, stamped,
    utc_timestamp, HarnessCell,
};
use crate::json::{
    json, json_array, json_clone, json_object, json_text, jsons, object_insert, object_new,
    Entries, Json,
};
use crate::text::{
    decimal, decimal_of, lemma_decimal_stands_for_number, lines, lines_of, number_of, str_of,
    string_of, text_of, texts,
};
use vstd::prelude::*;
use vstd::string::*;
use vstd::utf8::*;

verus! {

/// How many bytes of a text a submission keeps.
pub const DIFF_CAP: usize = 1_000_000;

/// The number of characters at the start of `s` whose UTF-8 form is no longer
/// than `limit` bytes.
pub open spec fn fitting(s: Seq<char>, limit: int) -> nat
    decreases s.len(),
{
    if s.len() > 0 && encode_scalar(s[0] as u32).len() <= limit {
        1 + fitting(s.drop_first(), limit - encode_scalar(s[0] as u32).len())
    } else {
        0
    }
}

/// A text that a submission keeps: as much of it as fits into the cap, and how
/// many bytes that leaves out.
pub open spec fn capped_text(s: Seq<char>) -> Seq<char> {
    let len = encode_utf8(s).len();
    if len > DIFF_CAP {
        let kept = s.take(fitting(s, DIFF_CAP as int) as int);
        kept + "…<truncated "@ + decimal((len - encode_utf8(kept).len()) as nat)
            + " bytes>"@
    } else {
        s
    }
}

/// The UTF-8 form of a single character.
proof fn lemma_encode_one(s: Seq<char>)
    requires
        s.len() > 0,
    ensures
        encode_utf8(s.take(1)) == encode_scalar(s[0] as u32),
{
    reveal_with_fuel(encode_utf8, 2);
    assert(encode_utf8(s.take(1)) =~= encode_scalar(s[0] as u32));
}

/// The UTF-8 form of a text begins with those of its first characters.
proof fn lemma_encode_prefix(s: Seq<char>, k: int)
    requires
        0 <= k <= s.len(),
    ensures
        encode_utf8(s.take(k)).len() <= encode_utf8(s).len(),
        k < s.len() ==> encode_utf8(s.take(k)).len() < encode_utf8(s.take(k + 1)).len(),
        is_char_boundary(encode_utf8(s), encode_utf8(s.take(k)).len() as int),
    decreases k,
{
    encode_utf8_valid_utf8(s);
    if k == 0 {
        assert(s.take(0) =~= seq![]);
        is_char_boundary_start_end_of_seq(encode_utf8(s));
        if s.len() > 0 {
            assert(s.take(1).len() == 1);
        }
    } else {
        let tail = s.drop_first();
        lemma_encode_prefix(tail, k - 1);
        let first = encode_scalar(s[0] as u32);
        assert(s.take(k).drop_first() =~= tail.take(k - 1));
        if k < s.len() {
            assert(s.take(k + 1).drop_first() =~= tail.take(k));
        }
        encode_utf8_first_scalar(s);
        assert(pop_first_scalar(encode_utf8(s)) =~= encode_utf8(tail));
    }
}

/// The start of a text that fits is as long as can be: it fits, and one more
/// character would not.
pub proof fn lemma_fitting_is_longest(s: Seq<char>, limit: int)
    requires
        limit >= 0,
    ensures
        fitting(s, limit) <= s.len(),
        encode_utf8(s.take(fitting(s, limit) as int)).len() <= limit,
        fitting(s, limit) < s.len() ==> encode_utf8(s.take(fitting(s, limit) as int + 1)).len()
            > limit,
    decreases s.len(),
{
    let n = fitting(s, limit) as int;
    if s.len() > 0 && encode_scalar(s[0] as u32).len() <= limit {
        let tail = s.drop_first();
        lemma_fitting_is_longest(tail, limit - encode_scalar(s[0] as u32).len());
        assert(s.take(n).drop_first() =~= tail.take(n - 1));
        if n < s.len() {
            assert(s.take(n + 1).drop_first() =~= tail.take(n));
        }
    } else {
        assert(s.take(0) =~= seq![]);
        if s.len() > 0 {
            lemma_encode_one(s);
        }
    }
}

/// There is only one longest start that fits.
proof fn lemma_fitting_unique(s: Seq<char>, limit: int, k: int)
    requires
        0 <= k <= s.len(),
        encode_utf8(s.take(k)).len() <= limit,
        k < s.len() ==> encode_utf8(s.take(k + 1)).len() > limit,
    ensures
        fitting(s, limit) == k,
    decreases s.len(),
{
    if s.len() > 0 {
        let first = encode_scalar(s[0] as u32);
        if k == 0 {
            lemma_encode_one(s);
        } else {
            let tail = s.drop_first();
            assert(s.take(k).drop_first() =~= tail.take(k - 1));
            assert(s.take(k)[0] == s[0]);
            if k < s.len() {
                assert(s.take(k + 1).drop_first() =~= tail.take(k));
                assert(s.take(k + 1)[0] == s[0]);
            }
            lemma_fitting_unique(tail, limit - first.len(), k - 1);
        }
    }
}

/// A text that a submission keeps.
pub fn cap_text(s: &str) -> (out: String)
    ensures
        out@ == capped_text(s@),
{
    let ghost bytes = encode_utf8(s@);
    let len: usize = s.as_bytes().len();
    if len > DIFF_CAP {
        proof {
            encode_utf8_valid_utf8(s@);
            is_char_boundary_start_end_of_seq(bytes);
        }
        let mut end: usize = DIFF_CAP;
        while !s.is_char_boundary(end)
            invariant
                end <= DIFF_CAP,
                bytes == encode_utf8(s@),
                valid_utf8(bytes),
                is_char_boundary(bytes, 0),
                forall|i: int| end < i <= DIFF_CAP ==> !is_char_boundary(bytes, i),
            decreases end,
        {
            end -= 1;
        }
        let (kept, rest) = s.split_at(end);
        proof {
            decode_utf8_split(bytes, end as int);
            encode_utf8_decode_utf8(s@);
            encode_utf8_decode_utf8(kept@);
            encode_utf8_decode_utf8(rest@);
            assert(s@ =~= kept@ + rest@);
            let k = kept@.len() as int;
            assert(s@.take(k) =~= kept@);
            lemma_encode_prefix(s@, k);
            if k < s@.len() {
                lemma_encode_prefix(s@, k + 1);
            }
            lemma_fitting_unique(s@, DIFF_CAP as int, k);
        }
        let mut out = kept.to_owned();
        out.append("…<truncated ");
        out.append(string_of(decimal_of((len - end) as u64)).as_str());
        out.append(" bytes>");
        out
    } else {
        s.to_owned()
    }
}

/// The git state of a workspace at submission.
pub struct RepoState {
    /// The diff against the base commit, or why there is none.
    pub diff: Result<String, String>,
    /// The listing of the untracked files, if there is one.
    pub untracked: Option<String>,
}

/// The commit that the submission is a diff against.
pub open spec fn base_text(base_commit: Option<Seq<char>>) -> Seq<char> {
    match base_commit {
        Some(commit) => commit,
        None => "HEAD"@,
    }
}

/// The commit that the submission is a diff against.
pub fn diff_base(base_commit: &Option<String>) -> (base: String)
    ensures
        base@ == base_text(text_of(*base_commit)),
{
    match base_commit {
        Some(commit) => commit.clone(),
        None => "HEAD".to_owned(),
    }
}

/// The text of the diff, or a note of why there is none.
pub open spec fn diff_text(diff: Result<String, String>) -> Seq<char> {
    match diff {
        Ok(diff) => diff@,
        Err(error) => "<git diff failed: "@ + error@ + ">"@,
    }
}

/// What a submission says.
pub open spec fn artifact_entries(
    message: Option<Seq<char>>,
    base_commit: Option<Seq<char>>,
    repo: Option<RepoState>,
) -> Entries {
    let noted = match message {
        Some(message) => Entries::empty().insert("message"@, Json::Text(message)),
        None => Entries::empty(),
    };
    match repo {
        Some(repo) => noted.insert("base_commit"@, Json::Text(base_text(base_commit))).insert(
            "diff"@,
            Json::Text(capped_text(diff_text(repo.diff))),
        ).insert(
            "untracked_files"@,
            Json::Array(
                match repo.untracked {
                    Some(listing) => lines(listing@),
                    None => seq![],
                }.map_values(|line: Seq<char>| Json::Text(line)),
            ),
        ),
        None => noted.insert("note"@, Json::Text("workspace is not a git repo; no diff captured"@)),
    }
}

/// A list of strings as a JSON array.
fn text_array(lines: &Vec<String>) -> (array: serde_json::Value)
    ensures
        json(array) == Json::Array(texts(lines@).map_values(|line: Seq<char>| Json::Text(line))),
{
    let mut values: Vec<serde_json::Value> = Vec::new();
    let mut i: usize = 0;
    while i < lines.len()
        invariant
            i <= lines@.len(),
            values@.len() == i,
            forall|j: int|
                0 <= j < i ==> json(#[trigger] values@[j]) == Json::Text(lines@[j]@),
        decreases lines@.len() - i,
    {
        values.push(json_text(lines[i].as_str()));
        i += 1;
    }
    assert(jsons(values@) =~= texts(lines@).map_values(|line: Seq<char>| Json::Text(line)));
    json_array(values)
}

/// The payload of the event that records a submission. `repo` is `None` where
/// the workspace is not a git repository.
pub fn artifact_payload(
    message: Option<&str>,
    base_commit: &Option<String>,
    repo: &Option<RepoState>,
) -> (payload: serde_json::Value)
    ensures
        json(payload) == Json::Object(
            artifact_entries(str_of(message), text_of(*base_commit), *repo),
        ),
{
    let mut payload = object_new();
    if let Some(message) = message {
        object_insert(&mut payload, "message", json_text(message));
    }
    match repo {
        Some(repo) => {
            let base = diff_base(base_commit);
            object_insert(&mut payload, "base_commit", json_text(base.as_str()));
            let diff = match &repo.diff {
                Ok(diff) => cap_text(diff.as_str()),
                Err(error) => {
                    let mut note = "<git diff failed: ".to_owned();
                    note.append(error.as_str());
                    note.append(">");
                    cap_text(note.as_str())
                },
            };
            object_insert(&mut payload, "diff", json_text(diff.as_str()));
            let files: Vec<String> = match &repo.untracked {
                Some(listing) => lines_of(listing.as_str()),
                None => Vec::new(),
            };
            assert(repo.untracked is None ==> texts(files@) =~= seq![]);
            object_insert(&mut payload, "untracked_files", text_array(&files));
        },
        None => {
            object_insert(
                &mut payload,
                "note",
                json_text("workspace is not a git repo; no diff captured"),
            );
        },
    }
    json_object(payload)
}

/// The payload of the event that ends a session.
pub fn session_end_payload() -> (payload: serde_json::Value)
    ensures
        json(payload) == Json::Object(Entries::empty().insert("reason"@, Json::Text("submitted"@))),
{
    let mut payload = object_new();
    object_insert(&mut payload, "reason", json_text("submitted"));
    json_object(payload)
}

/// What to tell a user who submits without a session.
pub open spec fn refusal() -> Seq<char> {
    "no active harness session found (looked for "@ + HARNESS_CONTEXT_ENV@
        + " and .goose-harness/session.json in ancestors)"@
}

/// `out` is what a submission comes to: the events to emit, in order, or without
/// an active session the refusal.
pub open spec fn submitted(
    active: Option<&HarnessContext>,
    message: Option<Seq<char>>,
    repo: Option<RepoState>,
    out: Result<Vec<(String, serde_json::Value)>, String>,
) -> bool {
    match active {
        Some(ctx) => {
            &&& out matches Ok(events)
            &&& events@.len() == 2
            &&& events@[0].0@ == "artifact"@
            &&& json(events@[0].1) == Json::Object(
                artifact_entries(message, text_of(ctx.base_commit), repo),
            )
            &&& events@[1].0@ == "session_end"@
            &&& json(events@[1].1) == Json::Object(
                Entries::empty().insert("reason"@, Json::Text("submitted"@)),
            )
        },
        None => out matches Err(text) && text@ == refusal(),
    }
}

/// The kinds and the payloads of the events that submit a session, in order;
/// without an active session, what to tell the user.
pub fn submission(
    active: Option<&HarnessContext>,
    message: Option<&str>,
    repo: &Option<RepoState>,
) -> (out: Result<Vec<(String, serde_json::Value)>, String>)
    ensures
        submitted(active, str_of(message), *repo, out),
{
    match active {
        Some(ctx) => {
            let mut events: Vec<(String, serde_json::Value)> = Vec::new();
            let artifact = artifact_payload(message, &ctx.base_commit, repo);
            events.push(("artifact".to_owned(), artifact));
            events.push(("session_end".to_owned(), session_end_payload()));
            Ok(events)
        },
        None => {
            let mut text = "no active harness session found (looked for ".to_owned();
            text.append(HARNESS_CONTEXT_ENV);
            text.append(" and .goose-harness/session.json in ancestors)");
            Err(text)
        },
    }
}

/// `events` are those that submit a session: two of them, numbered from
/// `seq` on, that belong to no agent session.
pub open spec fn submits(
    events: Seq<HarnessEvent>,
    ctx: HarnessContext,
    seq: u64,
    message: Option<Seq<char>>,
    repo: Option<RepoState>,
) -> bool {
    &&& events.len() == 2
    &&& utc_timestamp(events[0].ts@)
    &&& stamped(
        events[0],
        ctx,
        seq,
        "artifact"@,
        None,
        Json::Object(artifact_entries(message, text_of(ctx.base_commit), repo)),
    )
    &&& utc_timestamp(events[1].ts@)
    &&& stamped(
        events[1],
        ctx,
        seq_after(seq, 1),
        "session_end"@,
        None,
        Json::Object(Entries::empty().insert("reason"@, Json::Text("submitted"@))),
    )
}

/// Submits the active session: the artifact, and right behind it the end of the
/// session. Without an active session, what to tell the user.
pub fn submit_events(
    cell: &mut HarnessCell,
    found: Option<HarnessContext>,
    message: Option<&str>,
    repo: &Option<RepoState>,
) -> (out: Result<Vec<HarnessEvent>, String>)
    ensures
        match live(*old(cell), found) {
            Some((ctx, seq)) => {
                &&& out matches Ok(events)
                &&& submits(events@, ctx, seq, str_of(message), *repo)
                &&& settled(*final(cell), Some((ctx, seq_after(seq, 2))))
            },
            None => {
                &&& out matches Err(text)
                &&& text@ == refusal()
                &&& settled(*final(cell), None)
            },
        },
{
    let planned = match active(cell, found) {
        Some(harness) => submission(Some(harness.context()), message, repo),
        None => submission(None, message, repo),
    };
    let derived = match planned {
        Ok(derived) => derived,
        Err(text) => {
            return Err(text);
        },
    };
    let ghost (ctx, seq) = live(*old(cell), found)->0;
    let mut events: Vec<HarnessEvent> = Vec::new();
    let mut i: usize = 0;
    while i < derived.len()
        invariant
            i <= derived@.len(),
            settled(*cell, Some((ctx, seq_after(seq, i as int)))),
            events@.len() == i,
            forall|j: int|
                0 <= j < i ==> utc_timestamp((#[trigger] events@[j]).ts@) && stamped(
                    events@[j],
                    ctx,
                    seq_after(seq, j),
                    derived@[j].0@,
                    None,
                    json(derived@[j].1),
                ),
        decreases derived@.len() - i,
    {
        let payload = json_clone(&derived[i].1);
        proof {
            lemma_numbering_continues(seq, i as int, 1);
        }
        let event = emit_active(cell, None, derived[i].0.as_str(), None, payload);
        if let Some(event) = event {
            events.push(event);
        }
        i += 1;
    }
    Ok(events)
}

/// A text of up to a million bytes is kept as it is. Of a longer one the
/// longest start is kept that has no more bytes than that, and it is said how
/// many bytes are missing.
pub proof fn lemma_cap_text_answer(s: &str, out: String)
    requires
        call_ensures(cap_text, (s,), out),
    ensures
        encode_utf8(s@).len() <= 1_000_000 ==> out@ == s@,
        encode_utf8(s@).len() > 1_000_000 ==> exists|k: int|
            {
                &&& 0 <= k < s@.len()
                &&& encode_utf8(#[trigger] s@.take(k)).len() <= 1_000_000
                &&& encode_utf8(s@.take(k + 1)).len() > 1_000_000
                &&& out@ == s@.take(k) + "…<truncated "@ + decimal(
                    (encode_utf8(s@).len() - encode_utf8(s@.take(k)).len()) as nat,
                ) + " bytes>"@
            },
{
    if encode_utf8(s@).len() > 1_000_000 {
        lemma_fitting_is_longest(s@, 1_000_000);
        let k = fitting(s@, 1_000_000) as int;
        if k == s@.len() {
            assert(s@.take(k) =~= s@);
        }
        assert(encode_utf8(s@.take(k)).len() <= 1_000_000);
    }
}

/// The numbers that are written out are those of the decimal notation.
pub proof fn lemma_decimal_is_written(n: u64, digits: Vec<char>)
    requires
        call_ensures(decimal_of, (n,), digits),
    ensures
        decimal(n as nat) == digits@,
        number_of(decimal(n as nat)) == n,
{
    lemma_decimal_stands_for_number(n, digits);
}

/// A submission is a diff against the commit that the session started from, and
/// against what is checked out where that is not known.
pub proof fn lemma_diff_base_answer(base_commit: Option<String>, base: String)
    requires
        call_ensures(diff_base, (&base_commit,), base),
    ensures
        base_commit matches Some(commit) ==> base@ == commit@,
        base_commit is None ==> base@ == "HEAD"@,
{
}

/// What an artifact says: the message if there is one; of a repository the base
/// commit, the diff as far as the cap allows or why there is none, and the
/// untracked files one by one; without a repository only that there is none.
pub open spec fn tells_artifact(
    payload: Json,
    message: Option<&str>,
    base_commit: Option<String>,
    repo: Option<RepoState>,
) -> bool {
    &&& payload matches Json::Object(said)
    &&& said.contains_key("message"@) <==> message is Some
    &&& message is Some ==> said["message"@] == Json::Text(message->0@)
    &&& repo is None ==> {
        &&& said.contains_key("note"@)
        &&& said["note"@] == Json::Text("workspace is not a git repo; no diff captured"@)
        &&& forall|k: Seq<char>| #[trigger]
            said.contains_key(k) ==> k == "message"@ || k == "note"@
    }
    &&& repo matches Some(state) ==> {
        &&& said.contains_key("base_commit"@)
        &&& base_commit is Some ==> said["base_commit"@] == Json::Text(base_commit->0@)
        &&& base_commit is None ==> said["base_commit"@] == Json::Text("HEAD"@)
        &&& said.contains_key("diff"@)
        &&& state.diff matches Ok(diff) ==> said["diff"@] == Json::Text(capped_text(diff@))
        &&& state.diff matches Err(error) ==> said["diff"@] == Json::Text(
            capped_text("<git diff failed: "@ + error@ + ">"@),
        )
        &&& said.contains_key("untracked_files"@)
        &&& said["untracked_files"@] matches Json::Array(files)
        &&& state.untracked is None ==> files.len() == 0
        &&& state.untracked matches Some(listing) ==> {
            &&& files.len() == lines(listing@).len()
            &&& forall|i: int|
                0 <= i < files.len() ==> #[trigger] files[i] == Json::Text(lines(listing@)[i])
        }
        &&& forall|k: Seq<char>| #[trigger]
            said.contains_key(k) ==> k == "message"@ || k == "base_commit"@ || k == "diff"@ || k
                == "untracked_files"@
    }
}

/// The entries of an artifact tell it.
proof fn lemma_artifact_is_told(
    message: Option<&str>,
    base_commit: Option<String>,
    repo: Option<RepoState>,
)
    ensures
        tells_artifact(
            Json::Object(artifact_entries(str_of(message), text_of(base_commit), repo)),
            message,
            base_commit,
            repo,
        ),
{
    reveal_strlit("message");
    reveal_strlit("note");
    reveal_strlit("base_commit");
    reveal_strlit("diff");
    reveal_strlit("untracked_files");
    assert("message"@.len() == 7 && "base_commit"@.len() == 11);
    assert("diff"@.len() == 4 && "untracked_files"@.len() == 15 && "note"@.len() == 4);
}

/// The end of a session says that it was submitted, and nothing else.
pub open spec fn tells_end(payload: Json) -> bool {
    &&& payload matches Json::Object(said)
    &&& said.contains_key("reason"@) && said["reason"@] == Json::Text("submitted"@)
    &&& forall|k: Seq<char>| #[trigger] said.contains_key(k) ==> k == "reason"@
}

/// The payloads of a submission tell what they are to tell.
pub proof fn lemma_submission_payloads(
    message: Option<&str>,
    base_commit: Option<String>,
    repo: Option<RepoState>,
    artifact: serde_json::Value,
    end: serde_json::Value,
)
    requires
        call_ensures(artifact_payload, (message, &base_commit, &repo), artifact),
        call_ensures(session_end_payload, (), end),
    ensures
        tells_artifact(json(artifact), message, base_commit, repo),
        tells_end(json(end)),
{
    lemma_artifact_is_told(message, base_commit, repo);
}

/// What a text keeps in an artifact is what capping it gives.
pub proof fn lemma_artifact_caps_diff(s: &str, out: String)
    requires
        call_ensures(cap_text, (s,), out),
    ensures
        capped_text(s@) == out@,
{
}

/// The untracked files of an artifact are the lines of the listing.
pub proof fn lemma_artifact_lists_lines(listing: &str, listed: Vec<String>, i: int)
    requires
        call_ensures(lines_of, (listing,), listed),
    ensures
        lines(listing@).len() == listed@.len(),
        0 <= i < listed@.len() ==> lines(listing@)[i] == listed@[i]@,
{
    assert(texts(listed@).len() == listed@.len());
    if 0 <= i < listed@.len() {
        assert(texts(listed@)[i] == listed@[i]@);
    }
}

/// A submission is refused exactly without an active session; else it is the
/// artifact and then the end of the session.
pub proof fn lemma_submission_answer(
    active: Option<&HarnessContext>,
    message: Option<&str>,
    repo: Option<RepoState>,
    out: Result<Vec<(String, serde_json::Value)>, String>,
)
    requires
        call_ensures(submission, (active, message, &repo), out),
    ensures
        active is None ==> {
            &&& out matches Err(text)
            &&& text@ == "no active harness session found (looked for "@
                + "GOOSE_HARNESS_CONTEXT"@
                + " and .goose-harness/session.json in ancestors)"@
        },
        active matches Some(ctx) ==> {
            &&& out matches Ok(events)
            &&& events@.len() == 2
            &&& events@[0].0@ == "artifact"@
            &&& tells_artifact(json(events@[0].1), message, ctx.base_commit, repo)
            &&& events@[1].0@ == "session_end"@
            &&& tells_end(json(events@[1].1))
        },
{
    if let Some(ctx) = active {
        lemma_artifact_is_told(message, ctx.base_commit, repo);
    }
}

/// Submitting the active session gives two events that belong to no agent
/// session, the artifact and behind it the end, and the harness goes on behind
/// them. Without an active session nothing is emitted.
pub proof fn lemma_submit_answer(
    cell: &mut HarnessCell,
    found: Option<HarnessContext>,
    message: Option<&str>,
    repo: Option<RepoState>,
    out: Result<Vec<HarnessEvent>, String>,
)
    requires
        call_ensures(submit_events, (cell, found, message, &repo), out),
    ensures
        live(*old(cell), found) is None ==> {
            &&& out matches Err(text)
            &&& text@ == "no active harness session found (looked for "@
                + "GOOSE_HARNESS_CONTEXT"@
                + " and .goose-harness/session.json in ancestors)"@
            &&& live(*final(cell), None) is None
        },
        live(*old(cell), found) matches Some((ctx, seq)) ==> {
            &&& out matches Ok(events)
            &&& events@.len() == 2
            &&& identified(events@[0], ctx, seq as int, None)
            &&& utc_timestamp(events@[0].ts@)
            &&& events@[0].kind@ == "artifact"@
            &&& tells_artifact(json(events@[0].payload), message, ctx.base_commit, repo)
            &&& identified(events@[1], ctx, seq + 1, None)
            &&& utc_timestamp(events@[1].ts@)
            &&& events@[1].kind@ == "session_end"@
            &&& tells_end(json(events@[1].payload))
            &&& live(*final(cell), None) == Some((ctx, seq_after(seq, 2)))
        },
{
    if let Some((ctx, _)) = live(*old(cell), found) {
        lemma_artifact_is_told(message, ctx.base_commit, repo);
    }
}

} // verus!
