//! Enforcement of the tool policy on tool requests before they are dispatched.

use crate::context::HarnessContext;
use crate::events::HarnessEvent;
use crate::harness::{
    active, decision_payload, identified, lemma_numbering_continues, live,
    record_permission_decision,
    seq_after, settled, stamped, utc_timestamp, HarnessCell,
};
use crate::json::{json, Json};
use crate::message::ToolRequest;
use crate::policy::{ruling, HarnessPolicy, PolicyRules, PolicyVerdict, Ruling};
use vstd::prelude::*;
use vstd::string::*;

verus! {

/// Inspects tool requests by the policy of the active harness. Does nothing
/// when the harness is inactive or the policy is empty.
#[derive(Debug, Clone, Copy)]
pub struct HarnessPolicyInspector;

/// What is to become of a tool request.
#[derive(Debug, PartialEq)]
pub enum InspectionAction {
    /// It is refused.
    Deny,
    /// A human has to approve, for the given reason.
    RequireApproval(Option<String>),
}

/// What the inspection of a tool request came to.
#[derive(Debug, PartialEq)]
pub struct InspectionResult {
    /// The request that was inspected.
    pub tool_request_id: String,
    /// What is to become of it.
    pub action: InspectionAction,
    /// Why.
    pub reason: String,
    /// Which inspector says so.
    pub inspector_name: String,
    /// Identifier of the finding.
    pub finding_id: Option<String>,
}

/// What an inspection gives: the results, and the events that record the
/// decisions behind them.
pub struct Inspection {
    /// One result for each request that is not simply allowed, in order.
    pub results: Vec<InspectionResult>,
    /// One event for each result, in the same order.
    pub events: Vec<HarnessEvent>,
}

/// A tool request that a policy does not simply allow.
pub struct Finding {
    /// Identifier of the request.
    pub request: Seq<char>,
    /// The tool that it names.
    pub subject: Seq<char>,
    /// What the policy says of the tool.
    pub ruling: Ruling,
}

/// What a policy finds in a request. A request without a valid call, and a
/// tool that is allowed, give nothing.
pub open spec fn finding(rules: PolicyRules, request: ToolRequest) -> Option<Finding> {
    match request.tool_call {
        Ok(call) => match ruling(rules, call.name@) {
            Ruling::Allow => None,
            ruling => Some(Finding { request: request.id@, subject: call.name@, ruling }),
        },
        Err(_) => None,
    }
}

/// What a policy finds in a list of requests, in order.
pub open spec fn findings(rules: PolicyRules, requests: Seq<ToolRequest>) -> Seq<Finding> {
    requests.filter_map(|request: ToolRequest| finding(rules, request))
}

/// How the decision behind a finding is recorded.
pub open spec fn decision_text(ruling: Ruling) -> Seq<char> {
    match ruling {
        Ruling::Deny(_) => "policy_deny"@,
        _ => "policy_require_approval"@,
    }
}

/// `result` says of the request what the policy says.
pub open spec fn reports(result: InspectionResult, request: Seq<char>, ruling: Ruling) -> bool {
    &&& result.tool_request_id@ == request
    &&& match ruling {
        Ruling::Deny(reason) => result.action is Deny && result.reason@ == reason,
        Ruling::RequireApproval(reason) => {
            &&& result.action matches InspectionAction::RequireApproval(Some(why))
            &&& why@ == reason
            &&& result.reason@ == reason
        },
        Ruling::Allow => false,
    }
    &&& result.inspector_name@ == "harness_policy"@
    &&& result.finding_id is None
}

/// `event` records the decision behind the finding.
pub open spec fn records(
    event: HarnessEvent,
    ctx: HarnessContext,
    seq: u64,
    session_id: Seq<char>,
    finding: Finding,
) -> bool {
    utc_timestamp(event.ts@) && stamped(
        event,
        ctx,
        seq,
        "permission_decision"@,
        Some(session_id),
        decision_payload(finding.subject, decision_text(finding.ruling), "native"@),
    )
}

/// The result for a request that a verdict concerns; `None` if it is allowed.
pub fn result_of(request_id: &str, verdict: PolicyVerdict) -> (result: Option<InspectionResult>)
    ensures
        result is None <==> verdict is Allow,
        result matches Some(result) ==> reports(result, request_id@, verdict@),
{
    let (action, reason) = match verdict {
        PolicyVerdict::Allow => {
            return None;
        },
        PolicyVerdict::Deny(reason) => (InspectionAction::Deny, reason),
        PolicyVerdict::RequireApproval(reason) => (
            InspectionAction::RequireApproval(Some(reason.clone())),
            reason,
        ),
    };
    Some(
        InspectionResult {
            tool_request_id: request_id.to_owned(),
            action,
            reason,
            inspector_name: "harness_policy".to_owned(),
            finding_id: None,
        },
    )
}

impl HarnessPolicyInspector {
    /// The name of the inspector.
    pub fn name(&self) -> (name: &'static str)
        ensures
            name@ == "harness_policy"@,
    {
        "harness_policy"
    }

    /// Whether the inspector has anything to enforce.
    pub fn is_enabled(&self, cell: &mut HarnessCell, found: Option<HarnessContext>) -> (enabled:
        bool)
        ensures
            enabled == match live(*old(cell), found) {
                Some((ctx, _)) => ctx.policy@.deny.len() > 0 || ctx.policy@.require_approval.len()
                    > 0,
                None => false,
            },
            settled(*final(cell), live(*old(cell), found)),
    {
        match active(cell, found) {
            Some(harness) => !harness.policy().is_empty(),
            None => false,
        }
    }

    /// Inspects tool requests, and records each decision that is not simply to
    /// allow. Nothing is found when the harness is inactive.
    pub fn inspect(
        &self,
        cell: &mut HarnessCell,
        found: Option<HarnessContext>,
        session_id: &str,
        tool_requests: &[ToolRequest],
    ) -> (inspection: Inspection)
        ensures
            match live(*old(cell), found) {
                Some((ctx, seq)) => {
                    let all = findings(ctx.policy@, tool_requests@);
                    &&& inspection.results@.len() == all.len()
                    &&& forall|i: int|
                        0 <= i < all.len() ==> reports(
                            #[trigger] inspection.results@[i],
                            all[i].request,
                            all[i].ruling,
                        )
                    &&& inspection.events@.len() == all.len()
                    &&& forall|i: int|
                        0 <= i < all.len() ==> records(
                            #[trigger] inspection.events@[i],
                            ctx,
                            seq_after(seq, i),
                            session_id@,
                            all[i],
                        )
                    &&& settled(*final(cell), Some((ctx, seq_after(seq, all.len() as int))))
                },
                None => {
                    &&& inspection.results@.len() == 0
                    &&& inspection.events@.len() == 0
                    &&& settled(*final(cell), None)
                },
            },
    {
        let mut results: Vec<InspectionResult> = Vec::new();
        let mut events: Vec<HarnessEvent> = Vec::new();
        let policy: HarnessPolicy = match active(cell, found) {
            Some(harness) => harness.policy().clone(),
            None => {
                return Inspection { results, events };
            },
        };
        let ghost (ctx, seq) = live(*old(cell), found)->0;
        let ghost pick = |request: ToolRequest| finding(ctx.policy@, request);
        let mut i: usize = 0;
        assert(tool_requests@.take(0) =~= seq![]);
        while i < tool_requests.len()
            invariant
                i <= tool_requests@.len(),
                policy@ == ctx.policy@,
                pick == (|request: ToolRequest| finding(ctx.policy@, request)),
                ({
                    let all = tool_requests@.take(i as int).filter_map(pick);
                    &&& results@.len() == all.len()
                    &&& forall|j: int|
                        0 <= j < all.len() ==> reports(
                            #[trigger] results@[j],
                            all[j].request,
                            all[j].ruling,
                        )
                    &&& events@.len() == all.len()
                    &&& forall|j: int|
                        0 <= j < all.len() ==> records(
                            #[trigger] events@[j],
                            ctx,
                            seq_after(seq, j),
                            session_id@,
                            all[j],
                        )
                    &&& settled(*cell, Some((ctx, seq_after(seq, all.len() as int))))
                }),
            decreases tool_requests@.len() - i,
        {
            let request = &tool_requests[i];
            let ghost done = tool_requests@.take(i as int);
            proof {
                assert(tool_requests@.take(i + 1).drop_last() =~= done);
                lemma_numbering_continues(seq, done.filter_map(pick).len() as int, 1);
            }
            if let Ok(call) = &request.tool_call {
                let verdict = policy.check(call.name.as_str());
                let decision = match &verdict {
                    PolicyVerdict::Deny(_) => "policy_deny",
                    _ => "policy_require_approval",
                };
                if let Some(result) = result_of(request.id.as_str(), verdict) {
                    let event = record_permission_decision(
                        cell,
                        None,
                        Some(session_id),
                        call.name.as_str(),
                        decision,
                        "native",
                    );
                    if let Some(event) = event {
                        events.push(event);
                    }
                    results.push(result);
                }
            }
            i += 1;
        }
        assert(tool_requests@.take(i as int) =~= tool_requests@);
        Inspection { results, events }
    }
}

/// A policy without rules finds nothing.
pub proof fn lemma_empty_policy_finds_nothing(rules: PolicyRules, requests: Seq<ToolRequest>)
    requires
        rules.deny.len() == 0,
        rules.require_approval.len() == 0,
    ensures
        findings(rules, requests).len() == 0,
    decreases requests.len(),
{
    if requests.len() > 0 {
        lemma_empty_policy_finds_nothing(rules, requests.drop_last());
    }
}

/// What a policy finds in a request rests on the name of the tool alone: a
/// request with a valid call is found exactly when the policy does not simply
/// allow that name, whatever the arguments and whoever executed it.
pub proof fn lemma_finding_rests_on_name(rules: PolicyRules, request: ToolRequest)
    ensures
        request.tool_call is Err ==> finding(rules, request) is None,
        request.tool_call matches Ok(call) ==> {
            &&& finding(rules, request) is None <==> ruling(rules, call.name@) is Allow
            &&& finding(rules, request) matches Some(found) ==> {
                &&& found.request == request.id@
                &&& found.subject == call.name@
                &&& found.ruling == ruling(rules, call.name@)
            }
        },
{
}

/// Two requests with the same identifier and the same tool are found alike.
pub proof fn lemma_same_tool_is_found_alike(
    rules: PolicyRules,
    request: ToolRequest,
    other: ToolRequest,
)
    requires
        request.id@ == other.id@,
        request.tool_call matches Ok(call) && other.tool_call matches Ok(other_call) && call.name@
            == other_call.name@,
    ensures
        finding(rules, request) == finding(rules, other),
{
}

/// One more request adds what is found in it, behind what was found before.
pub proof fn lemma_findings_grow(
    rules: PolicyRules,
    requests: Seq<ToolRequest>,
    request: ToolRequest,
)
    ensures
        findings(rules, Seq::empty()).len() == 0,
        finding(rules, request) is None ==> findings(rules, requests.push(request)) == findings(
            rules,
            requests,
        ),
        finding(rules, request) matches Some(found) ==> findings(rules, requests.push(request))
            == findings(rules, requests).push(found),
{
    assert(requests.push(request).drop_last() =~= requests);
}

/// What is found in a request stands behind what is found in those before it.
proof fn lemma_finding_has_its_place(rules: PolicyRules, requests: Seq<ToolRequest>, i: int)
    requires
        0 <= i < requests.len(),
        finding(rules, requests[i]) is Some,
    ensures
        findings(rules, requests.take(i)).len() < findings(rules, requests).len(),
        findings(rules, requests)[findings(rules, requests.take(i)).len() as int] == finding(
            rules,
            requests[i],
        )->0,
    decreases requests.len(),
{
    let shorter = requests.drop_last();
    lemma_findings_grow(rules, shorter, requests.last());
    assert(shorter.push(requests.last()) =~= requests);
    if i == requests.len() - 1 {
        assert(requests.take(i) =~= shorter);
    } else {
        assert(requests.take(i) =~= shorter.take(i));
        lemma_finding_has_its_place(rules, shorter, i);
    }
}

/// Whatever is found is found in one of the requests.
proof fn lemma_findings_come_of_requests(rules: PolicyRules, requests: Seq<ToolRequest>, k: int)
    requires
        0 <= k < findings(rules, requests).len(),
    ensures
        exists|i: int|
            0 <= i < requests.len() && finding(rules, #[trigger] requests[i]) == Some(
                findings(rules, requests)[k],
            ),
    decreases requests.len(),
{
    if requests.len() > 0 {
        let shorter = requests.drop_last();
        lemma_findings_grow(rules, shorter, requests.last());
        assert(shorter.push(requests.last()) =~= requests);
        if k < findings(rules, shorter).len() {
            lemma_findings_come_of_requests(rules, shorter, k);
            let i = choose|i: int|
                0 <= i < shorter.len() && finding(rules, #[trigger] shorter[i]) == Some(
                    findings(rules, shorter)[k],
                );
            assert(requests[i] == shorter[i]);
        } else {
            assert(finding(rules, requests[requests.len() - 1]) is Some);
        }
    }
}

/// The result at `k` refuses the request, and the event at `k` records that the
/// policy denied the tool.
pub open spec fn refused_at(
    inspection: Inspection,
    k: int,
    request: ToolRequest,
    tool: Seq<char>,
    reason: Seq<char>,
) -> bool {
    &&& 0 <= k < inspection.results@.len()
    &&& inspection.results@[k].tool_request_id@ == request.id@
    &&& inspection.results@[k].action is Deny
    &&& inspection.results@[k].reason@ == reason
    &&& decided_at(inspection, k, tool, "policy_deny"@)
}

/// The result at `k` asks a human to approve the request, and the event at `k`
/// records that the policy asks for it.
pub open spec fn questioned_at(
    inspection: Inspection,
    k: int,
    request: ToolRequest,
    tool: Seq<char>,
    reason: Seq<char>,
) -> bool {
    &&& 0 <= k < inspection.results@.len()
    &&& inspection.results@[k].tool_request_id@ == request.id@
    &&& inspection.results@[k].action matches InspectionAction::RequireApproval(Some(why))
    &&& why@ == reason
    &&& inspection.results@[k].reason@ == reason
    &&& decided_at(inspection, k, tool, "policy_require_approval"@)
}

/// The event at `k` records a decision of the policy on a tool.
pub open spec fn decided_at(
    inspection: Inspection,
    k: int,
    tool: Seq<char>,
    decision: Seq<char>,
) -> bool {
    &&& 0 <= k < inspection.events@.len()
    &&& inspection.events@[k].kind@ == "permission_decision"@
    &&& json(inspection.events@[k].payload) matches Json::Object(payload)
    &&& payload.contains_key("subject"@) && payload["subject"@] == Json::Text(tool)
    &&& payload.contains_key("decision"@) && payload["decision"@] == Json::Text(decision)
    &&& payload.contains_key("source"@) && payload["source"@] == Json::Text("native"@)
    &&& forall|key: Seq<char>| #[trigger]
        payload.contains_key(key) ==> key == "subject"@ || key == "decision"@ || key == "source"@
    &&& inspection.results@[k].inspector_name@ == "harness_policy"@
    &&& inspection.results@[k].finding_id is None
}

/// Every request whose tool the policy does not simply allow gives a result and
/// an event, whatever else there is to the request, behind those of the requests
/// before it. Without an active harness
/// there is neither.
pub proof fn lemma_inspect_enforces_policy(
    inspector: HarnessPolicyInspector,
    cell: &mut HarnessCell,
    found: Option<HarnessContext>,
    session_id: &str,
    tool_requests: &[ToolRequest],
    inspection: Inspection,
    i: int,
)
    requires
        call_ensures(
            HarnessPolicyInspector::inspect,
            (&inspector, cell, found, session_id, tool_requests),
            inspection,
        ),
        0 <= i < tool_requests@.len(),
    ensures
        inspection.events@.len() == inspection.results@.len(),
        live(*old(cell), found) is None ==> inspection.results@.len() == 0 && live(
            *final(cell),
            None,
        ) is None,
        live(*old(cell), found) matches Some((ctx, seq)) ==> {
            &&& live(*final(cell), None) == Some(
                (ctx, seq_after(seq, inspection.results@.len() as int)),
            )
            &&& inspection.results@.len() == findings(ctx.policy@, tool_requests@).len()
            &&& tool_requests@[i].tool_call matches Ok(call) ==> {
                let k = findings(ctx.policy@, tool_requests@.take(i)).len() as int;
                &&& ruling(ctx.policy@, call.name@) matches Ruling::Deny(reason) ==> refused_at(
                    inspection,
                    k,
                    tool_requests@[i],
                    call.name@,
                    reason,
                )
                &&& ruling(ctx.policy@, call.name@) matches Ruling::RequireApproval(reason)
                    ==> questioned_at(inspection, k, tool_requests@[i], call.name@, reason)
            }
        },
{
    if let Some((ctx, seq)) = live(*old(cell), found) {
        let rules = ctx.policy@;
        if let Ok(call) = tool_requests@[i].tool_call {
            if !(ruling(rules, call.name@) is Allow) {
                lemma_finding_has_its_place(rules, tool_requests@, i);
                let k = findings(rules, tool_requests@.take(i)).len() as int;
                let all = findings(rules, tool_requests@);
                assert(reports(inspection.results@[k], all[k].request, all[k].ruling));
                assert(records(inspection.events@[k], ctx, seq_after(seq, k), session_id@, all[k]));
                reveal_strlit("subject");
                reveal_strlit("decision");
                reveal_strlit("source");
                assert("subject"@.len() == 7 && "decision"@.len() == 8 && "source"@.len() == 6);
                if let Ruling::Deny(reason) = ruling(rules, call.name@) {
                    assert(refused_at(inspection, k, tool_requests@[i], call.name@, reason));
                }
                if let Ruling::RequireApproval(reason) = ruling(rules, call.name@) {
                    assert(questioned_at(inspection, k, tool_requests@[i], call.name@, reason));
                }
            }
        }
    }
}

/// Every result of an inspection concerns a request with a valid call whose
/// tool the policy does not simply allow, and its event is one of the inspected
/// session, numbered on from where the harness stood.
pub proof fn lemma_inspect_finds_nothing_else(
    inspector: HarnessPolicyInspector,
    cell: &mut HarnessCell,
    found: Option<HarnessContext>,
    session_id: &str,
    tool_requests: &[ToolRequest],
    inspection: Inspection,
    k: int,
)
    requires
        call_ensures(
            HarnessPolicyInspector::inspect,
            (&inspector, cell, found, session_id, tool_requests),
            inspection,
        ),
        0 <= k < inspection.results@.len(),
    ensures
        live(*old(cell), found) matches Some((ctx, seq)) && {
            &&& exists|i: int|
                0 <= i < tool_requests@.len() && {
                    &&& (#[trigger] tool_requests@[i]).id@
                        == inspection.results@[k].tool_request_id@
                    &&& tool_requests@[i].tool_call matches Ok(call)
                    &&& !(ruling(ctx.policy@, call.name@) is Allow)
                }
            &&& identified(inspection.events@[k], ctx, seq + k, Some(session_id))
            &&& utc_timestamp(inspection.events@[k].ts@)
        },
{
    let (ctx, seq) = live(*old(cell), found)->0;
    let all = findings(ctx.policy@, tool_requests@);
    lemma_findings_come_of_requests(ctx.policy@, tool_requests@, k);
    let i = choose|i: int|
        0 <= i < tool_requests@.len() && finding(ctx.policy@, #[trigger] tool_requests@[i]) == Some(
            all[k],
        );
    assert(reports(inspection.results@[k], all[k].request, all[k].ruling));
    assert(records(inspection.events@[k], ctx, seq_after(seq, k), session_id@, all[k]));
    assert(tool_requests@[i].id@ == inspection.results@[k].tool_request_id@);
}

/// The inspector has something to enforce exactly when there is an active
/// harness whose policy has a rule. To ask settles the harness and changes
/// nothing else. The inspector is known by its name.
pub proof fn lemma_enabled_with_rules(
    inspector: HarnessPolicyInspector,
    cell: &mut HarnessCell,
    found: Option<HarnessContext>,
    enabled: bool,
    name: &'static str,
)
    requires
        call_ensures(HarnessPolicyInspector::is_enabled, (&inspector, cell, found), enabled),
        call_ensures(HarnessPolicyInspector::name, (&inspector,), name),
    ensures
        name@ == "harness_policy"@,
        final(cell).state() is Some,
        live(*final(cell), None) == live(*old(cell), found),
        enabled <==> (live(*old(cell), found) matches Some((ctx, _)) && (ctx.policy.deny@.len() > 0
            || ctx.policy.require_approval@.len() > 0)),
{
}

/// A verdict gives a result exactly when it is not to allow, and the result
/// says the same.
pub proof fn lemma_result_says_verdict(
    request_id: &str,
    verdict: PolicyVerdict,
    result: Option<InspectionResult>,
)
    requires
        call_ensures(result_of, (request_id, verdict), result),
    ensures
        verdict is Allow <==> result is None,
        result matches Some(out) ==> {
            &&& out.tool_request_id@ == request_id@
            &&& out.inspector_name@ == "harness_policy"@
            &&& out.finding_id is None
        },
        verdict matches PolicyVerdict::Deny(why) ==> result->0.action is Deny
            && result->0.reason@ == why@,
        verdict matches PolicyVerdict::RequireApproval(why) ==> {
            &&& result->0.action matches InspectionAction::RequireApproval(Some(shown))
            &&& shown@ == why@
            &&& result->0.reason@ == why@
        },
{
}

} // verus!
