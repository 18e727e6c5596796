//! The report on the active session.

use crate::context::{events_file_of, HarnessContext};
use crate::path::{displayed, joined_path, path_display};
use crate::text::{
    decimal, decimal_of, lines, lines_of, quote_list, quoted, str_of, string_of, text_of, texts,
};
use vstd::prelude::*;
use vstd::string::*;

verus! {

/// How the paths and the rules of a session are shown.
pub struct Shown {
    /// The workspace.
    pub workspace: String,
    /// The path of the event log.
    pub events_path: String,
    /// The rules that deny.
    pub deny: String,
    /// The rules that ask for approval.
    pub require_approval: String,
}

/// How many events the log holds: one on each line.
pub open spec fn event_count(log: Option<Seq<char>>) -> nat {
    match log {
        Some(log) => lines(log).len(),
        None => 0,
    }
}

/// The line that shows an optional value, if there is one.
pub open spec fn optional_line(label: Seq<char>, value: Option<Seq<char>>) -> Seq<Seq<char>> {
    match value {
        Some(value) => seq![label + value],
        None => seq![],
    }
}

/// What the report on the active session says, line by line, where the event
/// log holds `log` if it can be read.
pub open spec fn report(
    ctx: HarnessContext,
    workspace: Seq<char>,
    events_path: Seq<char>,
    deny: Seq<char>,
    require_approval: Seq<char>,
    log: Option<Seq<char>>,
) -> Seq<Seq<char>> {
    seq!["Harness session: "@ + ctx.harness_session_id@]
        + optional_line("Principal:       "@, text_of(ctx.principal))
        + optional_line("Profile:         "@, text_of(ctx.profile_id))
        + seq!["Workspace:       "@ + workspace]
        + seq![
        match ctx.ingest {
            Some(ingest) => "Ingest:          "@ + ingest.endpoint@,
            None => "Ingest:          (local JSONL only)"@,
        },
    ] + (if ctx.policy@.deny.len() == 0 && ctx.policy@.require_approval.len() == 0 {
        seq![]
    } else {
        seq!["Policy:          deny="@ + deny + " require_approval="@ + require_approval]
    }) + seq!["Events:          "@ + decimal(event_count(log)) + " recorded at "@ + events_path]
}

/// A label and a value on one line.
fn line_of(label: &str, value: &str) -> (line: String)
    ensures
        line@ == label@ + value@,
{
    let mut line = label.to_owned();
    line.append(value);
    line
}

/// The report on the active session, given how its parts are shown.
pub fn report_lines(ctx: &HarnessContext, shown: &Shown, log: Option<&str>) -> (out: Vec<String>)
    ensures
        texts(out@) == report(
            *ctx,
            shown.workspace@,
            shown.events_path@,
            shown.deny@,
            shown.require_approval@,
            str_of(log),
        ),
{
    let mut out: Vec<String> = Vec::new();
    out.push(line_of("Harness session: ", ctx.harness_session_id.as_str()));
    if let Some(principal) = &ctx.principal {
        out.push(line_of("Principal:       ", principal.as_str()));
    }
    if let Some(profile_id) = &ctx.profile_id {
        out.push(line_of("Profile:         ", profile_id.as_str()));
    }
    out.push(line_of("Workspace:       ", shown.workspace.as_str()));
    match &ctx.ingest {
        Some(ingest) => {
            out.push(line_of("Ingest:          ", ingest.endpoint.as_str()));
        },
        None => {
            out.push("Ingest:          (local JSONL only)".to_owned());
        },
    }
    if !ctx.policy.is_empty() {
        let mut line = line_of("Policy:          deny=", shown.deny.as_str());
        line.append(" require_approval=");
        line.append(shown.require_approval.as_str());
        out.push(line);
    }
    let count: usize = match log {
        Some(log) => count_lines(log),
        None => 0,
    };
    let mut line = line_of("Events:          ", string_of(decimal_of(count as u64)).as_str());
    line.append(" recorded at ");
    line.append(shown.events_path.as_str());
    out.push(line);
    assert(texts(out@) =~= report(
        *ctx,
        shown.workspace@,
        shown.events_path@,
        shown.deny@,
        shown.require_approval@,
        str_of(log),
    ));
    out
}

/// What there is to show of the active session, if there is one, where the
/// event log holds `log` if it can be read.
pub open spec fn status_of(active: Option<&HarnessContext>, log: Option<Seq<char>>) -> Seq<
    Seq<char>,
> {
    match active {
        Some(ctx) => report(
            *ctx,
            displayed(ctx.workspace),
            displayed(events_file_of(ctx.workspace)),
            quoted(ctx.policy@.deny),
            quoted(ctx.policy@.require_approval),
            log,
        ),
        None => seq!["No active harness session."@],
    }
}

/// What there is to show of the active session, if there is one, where the
/// event log holds `log` if it can be read.
pub fn status_lines(active: Option<&HarnessContext>, log: Option<&str>) -> (out: Vec<String>)
    ensures
        texts(out@) == status_of(active, str_of(log)),
{
    match active {
        Some(ctx) => {
            let shown = Shown {
                workspace: path_display(&ctx.workspace),
                events_path: path_display(&ctx.events_path()),
                deny: quote_list(&ctx.policy.deny),
                require_approval: quote_list(&ctx.policy.require_approval),
            };
            report_lines(ctx, &shown, log)
        },
        None => {
            let mut out: Vec<String> = Vec::new();
            out.push("No active harness session.".to_owned());
            assert(texts(out@) =~= seq!["No active harness session."@]);
            out
        },
    }
}

/// The number of lines of a text.
fn count_lines(s: &str) -> (n: usize)
    ensures
        n == lines(s@).len(),
{
    let lines = lines_of(s);
    assert(texts(lines@).len() == lines@.len());
    lines.len()
}

/// The report on a session: its identifier, the person and the profile where
/// they are known, the workspace, the endpoint, the rules where there are any,
/// and how many events the log holds, one on each line.
pub proof fn lemma_report_answer(
    ctx: HarnessContext,
    shown: Shown,
    log: Option<&str>,
    out: Vec<String>,
    events: Vec<String>,
    digits: Vec<char>,
)
    requires
        call_ensures(report_lines, (&ctx, &shown, log), out),
        log is Some ==> call_ensures(lines_of, (log->0,), events),
        log is None ==> events@.len() == 0,
        events@.len() <= u64::MAX,
        call_ensures(decimal_of, (events@.len() as u64,), digits),
    ensures
        ({
            let persons: int = if ctx.principal is Some {
                1
            } else {
                0
            };
            let profiles: int = if ctx.profile_id is Some {
                1
            } else {
                0
            };
            let rules: int = if ctx.policy.deny@.len() > 0 || ctx.policy.require_approval@.len()
                > 0 {
                1
            } else {
                0
            };
            let at = 1 + persons + profiles;
            &&& out@.len() == at + 3 + rules
            &&& out@[0]@ == "Harness session: "@ + ctx.harness_session_id@
            &&& ctx.principal is Some ==> out@[1]@ == "Principal:       "@ + ctx.principal->0@
            &&& ctx.profile_id is Some ==> out@[1 + persons]@ == "Profile:         "@
                + ctx.profile_id->0@
            &&& out@[at]@ == "Workspace:       "@ + shown.workspace@
            &&& ctx.ingest is Some ==> out@[at + 1]@ == "Ingest:          "@
                + ctx.ingest->0.endpoint@
            &&& ctx.ingest is None ==> out@[at + 1]@ == "Ingest:          (local JSONL only)"@
            &&& rules > 0 ==> out@[at + 2]@ == "Policy:          deny="@ + shown.deny@
                + " require_approval="@ + shown.require_approval@
            &&& out@.last()@ == "Events:          "@ + digits@ + " recorded at "@
                + shown.events_path@
        }),
{
    assert(texts(out@).len() == out@.len());
    assert forall|i: int| 0 <= i < out@.len() implies #[trigger] texts(out@)[i] == out@[i]@ by {}
    assert(texts(events@).len() == events@.len());
    let at: int = 1 + (if ctx.principal is Some {
        1int
    } else {
        0
    }) + (if ctx.profile_id is Some {
        1int
    } else {
        0
    });
    assert(texts(out@)[0] == out@[0]@);
    assert(texts(out@)[1] == out@[1]@);
    assert(texts(out@)[at - 1] == out@[at - 1]@);
    assert(texts(out@)[at] == out@[at]@);
    assert(texts(out@)[at + 1] == out@[at + 1]@);
    assert(texts(out@)[at + 2] == out@[at + 2]@);
    assert(texts(out@)[out@.len() - 1] == out@.last()@);
}

/// The status of the active session is the report on it, with its paths as they
/// are displayed and its rules as they are quoted. Without one there is a
/// single line that says so.
pub proof fn lemma_status_answer(
    active: Option<&HarnessContext>,
    log: Option<&str>,
    out: Vec<String>,
    shown: Shown,
    report_out: Vec<String>,
    i: int,
)
    requires
        call_ensures(status_lines, (active, log), out),
        active is Some ==> {
            &&& shown.workspace@ == displayed(active->0.workspace)
            &&& shown.events_path@ == displayed(
                joined_path(joined_path(active->0.workspace, ".goose-harness"@), "events.jsonl"@),
            )
            &&& shown.deny@ == quoted(texts(active->0.policy.deny@))
            &&& shown.require_approval@ == quoted(texts(active->0.policy.require_approval@))
            &&& call_ensures(report_lines, (active->0, &shown, log), report_out)
        },
    ensures
        active is None ==> out@.len() == 1 && out@[0]@ == "No active harness session."@,
        active is Some ==> {
            &&& out@.len() == report_out@.len()
            &&& 0 <= i < out@.len() ==> out@[i]@ == report_out@[i]@
        },
{
    assert(texts(out@).len() == out@.len());
    assert(texts(report_out@).len() == report_out@.len());
    if active is None {
        assert(texts(out@)[0] == out@[0]@);
    } else if 0 <= i < out@.len() {
        assert(texts(out@)[i] == out@[i]@);
        assert(texts(report_out@)[i] == report_out@[i]@);
    }
}

} // verus!
