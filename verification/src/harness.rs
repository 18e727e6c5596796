//! Live harness state: the context, the numbering of events, and the taps that
//! turn what happens in a session into events.
//!
//! When no context is found the harness is inactive and every tap is a no-op.

use crate::context::HarnessContext;
use crate::events::{block_kind, block_payload, events_for_message, SCHEMA_VERSION, HarnessEvent};
use crate::json::{json, json_object, json_text, object_insert, object_new, Entries, Json};
use crate::message::Message;
use crate::policy::HarnessPolicy;
use crate::text::{str_of, text_of};
use vstd::prelude::*;
use vstd::string::*;

verus! {

/// A point in time of UTC in RFC 3339 form: a date and a time of day, perhaps
/// with a fraction of a second, and the offset. A year of more than four digits
/// has a sign.
pub open spec fn utc_timestamp(ts: Seq<char>) -> bool {
    &&& ts.len() >= 25
    &&& '0' <= ts[0] <= '9' ==> {
        &&& ts[4] == '-'
        &&& ts[7] == '-'
        &&& ts[10] == 'T'
        &&& ts[13] == ':'
        &&& ts[16] == ':'
    }
    &&& "+00:00"@.is_suffix_of(ts)
}

/// Calls `chrono::Utc::now` and `DateTime::to_rfc3339`: the current time.
///
/// The text depends on the clock; whatever the time, it is one of UTC. A clock
/// that is set before 1970 makes `chrono` panic.
#[verifier::external_body]
fn now_rfc3339() -> (ts: String)
    ensures
        utc_timestamp(ts@),
{
    chrono::Utc::now().to_rfc3339()
}

/// Live harness state of this process: the context and the event counter.
pub struct Harness {
    ctx: HarnessContext,
    seq: u64,
}

/// The sequence number `n` events after number `seq`. Numbers wrap around.
pub open spec fn seq_after(seq: u64, n: int) -> u64 {
    ((seq + n) % 0x1_0000_0000_0000_0000) as u64
}

/// `event` is numbered `seq`, bears the identity in `ctx`, and says what the
/// other arguments say.
pub open spec fn stamped(
    event: HarnessEvent,
    ctx: HarnessContext,
    seq: u64,
    kind: Seq<char>,
    goose_session_id: Option<Seq<char>>,
    payload: Json,
) -> bool {
    &&& event.v == SCHEMA_VERSION
    &&& event.harness_session_id@ == ctx.harness_session_id@
    &&& text_of(event.principal) == text_of(ctx.principal)
    &&& text_of(event.profile_id) == text_of(ctx.profile_id)
    &&& text_of(event.goose_session_id) == goose_session_id
    &&& event.seq == seq
    &&& event.kind@ == kind
    &&& json(event.payload) == payload
}

/// `after` is `before` with `n` more events numbered.
pub open spec fn advanced(before: Harness, after: Harness, n: int) -> bool {
    after.ctx() == before.ctx() && after.next_seq() == seq_after(before.next_seq(), n)
}

/// `events` are those of the blocks of `message`, numbered from `seq` on.
pub open spec fn message_events(
    events: Seq<HarnessEvent>,
    ctx: HarnessContext,
    seq: u64,
    goose_session_id: Seq<char>,
    message: Message,
) -> bool {
    &&& events.len() == message.content@.len()
    &&& forall|i: int|
        0 <= i < events.len() ==> utc_timestamp((#[trigger] events[i]).ts@) && stamped(
            events[i],
            ctx,
            seq_after(seq, i),
            block_kind(message.role, message.content@[i]),
            Some(goose_session_id),
            block_payload(message, message.content@[i]),
        )
}

impl Harness {
    /// The context of the session.
    pub closed spec fn ctx(&self) -> HarnessContext {
        self.ctx
    }

    /// The number of the next event.
    pub closed spec fn next_seq(&self) -> u64 {
        self.seq
    }

    /// The harness of a context; its first event will be number zero.
    pub fn new(ctx: HarnessContext) -> (harness: Self)
        ensures
            harness.ctx() == ctx,
            harness.next_seq() == 0,
    {
        Harness { ctx, seq: 0 }
    }

    /// The context of the session.
    pub fn context(&self) -> (ctx: &HarnessContext)
        ensures
            *ctx == self.ctx(),
    {
        &self.ctx
    }

    /// The tool policy of the session.
    pub fn policy(&self) -> (policy: &HarnessPolicy)
        ensures
            *policy == self.ctx().policy,
    {
        &self.ctx.policy
    }

    /// The next event, at the time `ts`.
    pub fn envelope(
        &mut self,
        kind: &str,
        goose_session_id: Option<&str>,
        payload: serde_json::Value,
        ts: String,
    ) -> (event: HarnessEvent)
        ensures
            stamped(
                event,
                old(self).ctx(),
                old(self).next_seq(),
                kind@,
                str_of(goose_session_id),
                json(payload),
            ),
            event.ts@ == ts@,
            advanced(*old(self), *final(self), 1),
    {
        let seq: u64 = self.seq;
        self.seq = seq.wrapping_add(1);
        HarnessEvent {
            v: SCHEMA_VERSION,
            harness_session_id: self.ctx.harness_session_id.clone(),
            principal: self.ctx.principal.clone(),
            profile_id: self.ctx.profile_id.clone(),
            goose_session_id: match goose_session_id {
                Some(id) => Some(id.to_owned()),
                None => None,
            },
            seq,
            ts,
            kind: kind.to_owned(),
            payload,
        }
    }

    /// The next event, at the current time. The caller hands it to the sink.
    pub fn emit(
        &mut self,
        kind: &str,
        goose_session_id: Option<&str>,
        payload: serde_json::Value,
    ) -> (event: HarnessEvent)
        ensures
            stamped(
                event,
                old(self).ctx(),
                old(self).next_seq(),
                kind@,
                str_of(goose_session_id),
                json(payload),
            ),
            utc_timestamp(event.ts@),
            advanced(*old(self), *final(self), 1),
    {
        self.envelope(kind, goose_session_id, payload, now_rfc3339())
    }

    /// The events of one persisted message, one for each of its blocks.
    pub fn record_message(&mut self, goose_session_id: &str, message: &Message) -> (events: Vec<
        HarnessEvent,
    >)
        ensures
            message_events(
                events@,
                old(self).ctx(),
                old(self).next_seq(),
                goose_session_id@,
                *message,
            ),
            advanced(*old(self), *final(self), message.content@.len() as int),
    {
        let ghost before = *self;
        let derived = events_for_message(message);
        let ghost all = derived@;
        let mut events: Vec<HarnessEvent> = Vec::new();
        let ghost mut done: int = 0;
        for pair in it: derived.into_iter()
            invariant
                it.seq() == all,
                done == it.index(),
                all.len() == message.content@.len(),
                forall|i: int|
                    0 <= i < all.len() ==> (#[trigger] all[i]).0@ == block_kind(
                        message.role,
                        message.content@[i],
                    ),
                forall|i: int|
                    0 <= i < all.len() ==> json((#[trigger] all[i]).1)
                        == block_payload(*message, message.content@[i]),
                advanced(before, *self, done),
                events@.len() == done,
                forall|i: int|
                    0 <= i < events@.len() ==> utc_timestamp((#[trigger] events@[i]).ts@)
                        && stamped(
                        events@[i],
                        before.ctx(),
                        seq_after(before.next_seq(), i),
                        block_kind(message.role, message.content@[i]),
                        Some(goose_session_id@),
                        block_payload(*message, message.content@[i]),
                    ),
        {
            let (kind, payload) = pair;
            let event = self.emit(kind.as_str(), Some(goose_session_id), payload);
            events.push(event);
            proof {
                lemma_numbering_continues(before.next_seq(), done, 1);
                done = done + 1;
            }
        }
        events
    }
}

/// Numbering on from where an earlier numbering ended leaves no gap.
pub proof fn lemma_numbering_continues(seq: u64, n: int, more: int)
    ensures
        seq_after(seq_after(seq, n), more) == seq_after(seq, n + more),
{
    assert(((seq + n) % 0x1_0000_0000_0000_0000 + more) % 0x1_0000_0000_0000_0000 == (seq + n
        + more) % 0x1_0000_0000_0000_0000) by (nonlinear_arith);
}

/// Within one process the numbers of the events go up, for as many events as
/// there are numbers.
pub proof fn lemma_numbers_go_up(i: int, j: int)
    requires
        0 <= i < j < 0x1_0000_0000_0000_0000,
    ensures
        seq_after(0, i) < seq_after(0, j),
{
}

/// The process-wide harness: settled once, by the first use or by a bootstrap.
pub struct HarnessCell {
    resolved: Option<Option<Harness>>,
}

/// The harness was already settled for this process.
#[derive(Debug, Clone, Copy, PartialEq, Eq)]
pub struct AlreadyInitialized;

impl AlreadyInitialized {
    /// What to tell the user.
    pub fn message(&self) -> (out: &'static str)
        ensures
            out@ == "harness already initialized for this process"@,
    {
        "harness already initialized for this process"
    }
}

impl HarnessCell {
    /// `None` until the harness is settled; then the harness, if it is active.
    pub closed spec fn state(&self) -> Option<Option<Harness>> {
        self.resolved
    }

    /// A harness that is not settled yet.
    pub fn new() -> (cell: Self)
        ensures
            cell.state() is None,
    {
        HarnessCell { resolved: None }
    }

    /// Whether the harness is settled.
    pub fn is_resolved(&self) -> (resolved: bool)
        ensures
            resolved == (self.state() is Some),
    {
        self.resolved.is_some()
    }

    /// The active harness, if there is one.
    pub fn harness(&self) -> (harness: Option<&Harness>)
        ensures
            match harness {
                Some(harness) => self.state() == Some(Some(*harness)),
                None => self.state() == None::<Option<Harness>> || self.state() == Some(
                    None::<Harness>,
                ),
            },
    {
        match &self.resolved {
            Some(Some(harness)) => Some(harness),
            _ => None,
        }
    }
}

/// The context of the active harness and the number of its next event, where
/// `found` is the context that discovery leads to if it has to run; `None`
/// when the harness is inactive.
pub open spec fn live(cell: HarnessCell, found: Option<HarnessContext>) -> Option<
    (HarnessContext, u64),
> {
    match cell.state() {
        Some(Some(harness)) => Some((harness.ctx(), harness.next_seq())),
        Some(None) => None,
        None => match found {
            Some(ctx) => Some((ctx, 0)),
            None => None,
        },
    }
}

/// The harness is settled: inactive, or active with that context and that
/// number for its next event.
pub open spec fn settled(cell: HarnessCell, live: Option<(HarnessContext, u64)>) -> bool {
    match live {
        Some((ctx, seq)) => cell.state() matches Some(Some(harness)) && harness.ctx() == ctx
            && harness.next_seq() == seq,
        None => cell.state() == Some(None::<Harness>),
    }
}

/// What [`live`] says once `n` more events have been numbered.
pub open spec fn live_after(live: Option<(HarnessContext, u64)>, n: int) -> Option<
    (HarnessContext, u64),
> {
    match live {
        Some((ctx, seq)) => Some((ctx, seq_after(seq, n))),
        None => None,
    }
}

/// The active harness of the process, if any.
///
/// The first call settles it: `found` is the context that discovery led to, if
/// it led to one. Once the harness is settled, `found` plays no role.
pub fn active(cell: &mut HarnessCell, found: Option<HarnessContext>) -> (harness: Option<&Harness>)
    ensures
        settled(*final(cell), live(*old(cell), found)),
        old(cell).state() is Some ==> final(cell).state() == old(cell).state(),
        match harness {
            Some(harness) => final(cell).state() == Some(Some(*harness)),
            None => final(cell).state() == Some(None::<Harness>),
        },
{
    if cell.resolved.is_none() {
        cell.resolved = Some(
            match found {
                Some(ctx) => Some(Harness::new(ctx)),
                None => None,
            },
        );
    }
    cell.harness()
}

/// Activates the harness with a freshly made context. Fails if the harness is
/// already settled for this process.
pub fn activate(cell: &mut HarnessCell, ctx: HarnessContext) -> (activated: Result<
    (),
    AlreadyInitialized,
>)
    ensures
        activated is Ok <==> old(cell).state() is None,
        activated is Ok ==> settled(*final(cell), Some((ctx, 0))),
        activated is Err ==> final(cell).state() == old(cell).state(),
{
    if cell.resolved.is_some() {
        return Err(AlreadyInitialized);
    }
    cell.resolved = Some(Some(Harness::new(ctx)));
    Ok(())
}

/// Tap: a message has been persisted. Gives its events; none when inactive.
pub fn record_message(
    cell: &mut HarnessCell,
    found: Option<HarnessContext>,
    goose_session_id: &str,
    message: &Message,
) -> (events: Vec<HarnessEvent>)
    ensures
        match live(*old(cell), found) {
            Some((ctx, seq)) => message_events(events@, ctx, seq, goose_session_id@, *message),
            None => events@.len() == 0,
        },
        settled(*final(cell), live_after(live(*old(cell), found), message.content@.len() as int)),
{
    active(cell, found);
    match &mut cell.resolved {
        Some(Some(harness)) => harness.record_message(goose_session_id, message),
        _ => Vec::new(),
    }
}

/// `event` is the one that the arguments describe if the harness is active,
/// and there is none otherwise.
pub open spec fn tapped(
    live: Option<(HarnessContext, u64)>,
    event: Option<HarnessEvent>,
    kind: Seq<char>,
    goose_session_id: Option<Seq<char>>,
    payload: Json,
) -> bool {
    match live {
        Some((ctx, seq)) => {
            &&& event matches Some(event)
            &&& utc_timestamp(event.ts@)
            &&& stamped(event, ctx, seq, kind, goose_session_id, payload)
        },
        None => event is None,
    }
}

/// The next event of the active harness, at the current time; `None` when
/// inactive.
pub fn emit_active(
    cell: &mut HarnessCell,
    found: Option<HarnessContext>,
    kind: &str,
    goose_session_id: Option<&str>,
    payload: serde_json::Value,
) -> (event: Option<HarnessEvent>)
    ensures
        tapped(live(*old(cell), found), event, kind@, str_of(goose_session_id), json(payload)),
        settled(*final(cell), live_after(live(*old(cell), found), 1)),
{
    active(cell, found);
    match &mut cell.resolved {
        Some(Some(harness)) => Some(harness.emit(kind, goose_session_id, payload)),
        _ => None,
    }
}

/// What a usage event says.
pub open spec fn usage_payload(model: Seq<char>, usage: Json) -> Json {
    Json::Object(Entries::empty().insert("model"@, Json::Text(model)).insert("usage"@, usage))
}

/// Tap: token usage has been recorded for a session.
pub fn record_usage(
    cell: &mut HarnessCell,
    found: Option<HarnessContext>,
    goose_session_id: &str,
    model: &str,
    usage_json: serde_json::Value,
) -> (event: Option<HarnessEvent>)
    ensures
        tapped(
            live(*old(cell), found),
            event,
            "usage"@,
            Some(goose_session_id@),
            usage_payload(model@, json(usage_json)),
        ),
        settled(*final(cell), live_after(live(*old(cell), found), 1)),
{
    let mut payload = object_new();
    object_insert(&mut payload, "model", json_text(model));
    object_insert(&mut payload, "usage", usage_json);
    emit_active(cell, found, "usage", Some(goose_session_id), json_object(payload))
}

/// What the event of a permission decision says.
pub open spec fn decision_payload(
    subject: Seq<char>,
    decision: Seq<char>,
    source: Seq<char>,
) -> Json {
    Json::Object(
        Entries::empty().insert("subject"@, Json::Text(subject)).insert(
            "decision"@,
            Json::Text(decision),
        ).insert("source"@, Json::Text(source)),
    )
}

/// Tap: a permission decision has been made, on either path.
pub fn record_permission_decision(
    cell: &mut HarnessCell,
    found: Option<HarnessContext>,
    goose_session_id: Option<&str>,
    subject: &str,
    decision: &str,
    source: &str,
) -> (event: Option<HarnessEvent>)
    ensures
        tapped(
            live(*old(cell), found),
            event,
            "permission_decision"@,
            str_of(goose_session_id),
            decision_payload(subject@, decision@, source@),
        ),
        settled(*final(cell), live_after(live(*old(cell), found), 1)),
{
    let mut payload = object_new();
    object_insert(&mut payload, "subject", json_text(subject));
    object_insert(&mut payload, "decision", json_text(decision));
    object_insert(&mut payload, "source", json_text(source));
    emit_active(cell, found, "permission_decision", goose_session_id, json_object(payload))
}

/// A harness that has been settled stays as it is, whatever a later discovery
/// would lead to.
pub proof fn lemma_settled_once(
    cell: HarnessCell,
    settled_as: Option<(HarnessContext, u64)>,
    later: Option<HarnessContext>,
)
    requires
        settled(cell, settled_as),
    ensures
        live(cell, later) == settled_as,
        cell.state() is Some,
{
}

/// `event` bears the identity of the session in `ctx` and the number `seq`, and
/// belongs to the agent session `goose_session_id` if there is one.
pub open spec fn identified(
    event: HarnessEvent,
    ctx: HarnessContext,
    seq: int,
    goose_session_id: Option<&str>,
) -> bool {
    &&& event.v == 1
    &&& event.seq == seq % 0x1_0000_0000_0000_0000
    &&& event.harness_session_id@ == ctx.harness_session_id@
    &&& event.principal is Some <==> ctx.principal is Some
    &&& event.principal is Some ==> event.principal->0@ == ctx.principal->0@
    &&& event.profile_id is Some <==> ctx.profile_id is Some
    &&& event.profile_id is Some ==> event.profile_id->0@ == ctx.profile_id->0@
    &&& event.goose_session_id is Some <==> goose_session_id is Some
    &&& goose_session_id is Some ==> event.goose_session_id->0@ == goose_session_id->0@
}

/// Every event of a harness bears the identity of its session, the next number,
/// and the kind, the payload and the time that it is given; the harness goes on
/// with the number behind it.
pub proof fn lemma_envelope_answer(
    harness: &mut Harness,
    kind: &str,
    goose_session_id: Option<&str>,
    payload: serde_json::Value,
    ts: String,
    event: HarnessEvent,
)
    requires
        call_ensures(Harness::envelope, (harness, kind, goose_session_id, payload, ts), event),
    ensures
        identified(event, old(harness).ctx(), old(harness).next_seq() as int, goose_session_id),
        event.kind@ == kind@,
        json(event.payload) == json(payload),
        event.ts@ == ts@,
        final(harness).ctx() == old(harness).ctx(),
        final(harness).next_seq() == (old(harness).next_seq() + 1) % 0x1_0000_0000_0000_0000,
{
}

/// An event that is emitted is the next one of the harness, at a time of UTC.
pub proof fn lemma_emit_answer(
    harness: &mut Harness,
    kind: &str,
    goose_session_id: Option<&str>,
    payload: serde_json::Value,
    event: HarnessEvent,
)
    requires
        call_ensures(Harness::emit, (harness, kind, goose_session_id, payload), event),
    ensures
        identified(event, old(harness).ctx(), old(harness).next_seq() as int, goose_session_id),
        event.kind@ == kind@,
        json(event.payload) == json(payload),
        utc_timestamp(event.ts@),
        final(harness).ctx() == old(harness).ctx(),
        final(harness).next_seq() == (old(harness).next_seq() + 1) % 0x1_0000_0000_0000_0000,
{
}

/// A new harness has its context and starts to number at zero, and shows the
/// context and the policy that it was made with.
pub proof fn lemma_harness_keeps_context(
    ctx: HarnessContext,
    harness: Harness,
    shown: &HarnessContext,
    policy: &HarnessPolicy,
)
    requires
        call_ensures(Harness::new, (ctx,), harness),
        call_ensures(Harness::context, (&harness,), shown),
        call_ensures(Harness::policy, (&harness,), policy),
    ensures
        harness.ctx() == ctx,
        harness.next_seq() == 0,
        *shown == ctx,
        *policy == ctx.policy,
{
}

/// A message gives an event for each of its blocks, with the kind and the
/// payload of the block and in the order of the blocks, numbered without a gap.
pub proof fn lemma_record_message_answer(
    harness: &mut Harness,
    goose_session_id: &str,
    message: Message,
    events: Vec<HarnessEvent>,
    i: int,
)
    requires
        call_ensures(Harness::record_message, (harness, goose_session_id, &message), events),
    ensures
        events@.len() == message.content@.len(),
        0 <= i < events@.len() ==> {
            &&& identified(
                events@[i],
                old(harness).ctx(),
                old(harness).next_seq() + i,
                Some(goose_session_id),
            )
            &&& utc_timestamp(events@[i].ts@)
            &&& events@[i].kind@ == block_kind(message.role, message.content@[i])
            &&& json(events@[i].payload) == block_payload(message, message.content@[i])
        },
        final(harness).ctx() == old(harness).ctx(),
        final(harness).next_seq() == (old(harness).next_seq() + message.content@.len())
            % 0x1_0000_0000_0000_0000,
{
    if 0 <= i < events@.len() {
        assert(utc_timestamp(events@[i].ts@));
    }
}

/// The active harness is the one that was settled, and only where none was
/// settled the one of the context that was found, which starts to number at
/// zero.
pub proof fn lemma_live_is_settled_or_found(cell: HarnessCell, found: Option<HarnessContext>)
    ensures
        cell.state() matches Some(Some(harness)) ==> live(cell, found) == Some(
            (harness.ctx(), harness.next_seq()),
        ),
        cell.state() == Some(None::<Harness>) ==> live(cell, found) is None,
        cell.state() is None && found is Some ==> live(cell, found) == Some((found->0, 0u64)),
        cell.state() is None && found is None ==> live(cell, found) is None,
{
}

/// The first use settles the harness: active with what was found, or inactive
/// for good. Later uses give what was settled.
pub proof fn lemma_active_answer(
    cell: &mut HarnessCell,
    found: Option<HarnessContext>,
    harness: Option<&Harness>,
)
    requires
        call_ensures(active, (cell, found), harness),
    ensures
        old(cell).state() is Some ==> final(cell).state() == old(cell).state(),
        old(cell).state() matches Some(Some(settled)) ==> harness == Some(&settled),
        old(cell).state() == Some(None::<Harness>) ==> harness is None,
        old(cell).state() is None && found is None ==> harness is None && final(cell).state()
            == Some(None::<Harness>),
        old(cell).state() is None && found is Some ==> {
            &&& harness matches Some(fresh)
            &&& fresh.ctx() == found->0
            &&& fresh.next_seq() == 0
            &&& final(cell).state() == Some(Some(*fresh))
        },
{
}

/// A bootstrap makes the harness active with its context exactly when nothing
/// was settled before, and changes nothing otherwise.
pub proof fn lemma_activate_answer(
    cell: &mut HarnessCell,
    ctx: HarnessContext,
    activated: Result<(), AlreadyInitialized>,
)
    requires
        call_ensures(activate, (cell, ctx), activated),
    ensures
        old(cell).state() is None ==> {
            &&& activated is Ok
            &&& final(cell).state() matches Some(Some(harness))
            &&& harness.ctx() == ctx
            &&& harness.next_seq() == 0
        },
        old(cell).state() is Some ==> activated is Err && final(cell).state()
            == old(cell).state(),
{
}

/// A fresh cell is not settled, and a cell shows whether it is and with what.
pub proof fn lemma_cell_shows_state(
    fresh: HarnessCell,
    cell: HarnessCell,
    resolved: bool,
    harness: Option<&Harness>,
)
    requires
        call_ensures(HarnessCell::new, (), fresh),
        call_ensures(HarnessCell::is_resolved, (&cell,), resolved),
        call_ensures(HarnessCell::harness, (&cell,), harness),
    ensures
        fresh.state() is None,
        resolved <==> cell.state() is Some,
        harness is Some <==> (cell.state() matches Some(Some(_))),
        harness matches Some(inside) ==> cell.state() == Some(Some(*inside)),
{
}

/// What is emitted is the next event of the active harness, which goes on with
/// the number behind it. Nothing is emitted by an inactive one.
pub proof fn lemma_emit_active_answer(
    cell: &mut HarnessCell,
    found: Option<HarnessContext>,
    kind: &str,
    goose_session_id: Option<&str>,
    payload: serde_json::Value,
    event: Option<HarnessEvent>,
)
    requires
        call_ensures(emit_active, (cell, found, kind, goose_session_id, payload), event),
    ensures
        live(*old(cell), found) is None ==> event is None && live(*final(cell), None) is None,
        live(*old(cell), found) matches Some((ctx, seq)) ==> {
            &&& event matches Some(out)
            &&& identified(out, ctx, seq as int, goose_session_id)
            &&& utc_timestamp(out.ts@)
            &&& out.kind@ == kind@
            &&& json(out.payload) == json(payload)
            &&& live(*final(cell), None) == Some((ctx, seq_after(seq, 1)))
        },
        final(cell).state() is Some,
{
}

/// Numbers go on by as many as there are events, and start again at zero behind
/// the greatest.
pub proof fn lemma_numbers_count_events(seq: u64, n: int)
    requires
        0 <= n,
    ensures
        seq + n <= u64::MAX ==> seq_after(seq, n) == seq + n,
        seq_after(u64::MAX, 1) == 0,
        seq_after(seq, n) == (seq + n) % 0x1_0000_0000_0000_0000,
{
}

/// A persisted message gives its events, one for each block, if the harness is
/// active, and none otherwise.
pub proof fn lemma_message_tap_answer(
    cell: &mut HarnessCell,
    found: Option<HarnessContext>,
    goose_session_id: &str,
    message: Message,
    events: Vec<HarnessEvent>,
    i: int,
)
    requires
        call_ensures(record_message, (cell, found, goose_session_id, &message), events),
    ensures
        live(*old(cell), found) is None ==> events@.len() == 0 && live(*final(cell), None) is None,
        live(*old(cell), found) matches Some((ctx, seq)) ==> {
            &&& events@.len() == message.content@.len()
            &&& live(*final(cell), None) == Some((ctx, seq_after(seq, events@.len() as int)))
            &&& 0 <= i < events@.len() ==> {
                &&& identified(events@[i], ctx, seq + i, Some(goose_session_id))
                &&& utc_timestamp(events@[i].ts@)
                &&& events@[i].kind@ == block_kind(message.role, message.content@[i])
                &&& json(events@[i].payload) == block_payload(message, message.content@[i])
            }
        },
        final(cell).state() is Some,
{
    if 0 <= i < events@.len() {
        assert(utc_timestamp(events@[i].ts@) || live(*old(cell), found) is None);
    }
}

/// Recorded usage gives an event with the model and the usage, and nothing
/// else, if the harness is active, and none otherwise.
pub proof fn lemma_usage_tap_answer(
    cell: &mut HarnessCell,
    found: Option<HarnessContext>,
    goose_session_id: &str,
    model: &str,
    usage_json: serde_json::Value,
    event: Option<HarnessEvent>,
)
    requires
        call_ensures(record_usage, (cell, found, goose_session_id, model, usage_json), event),
    ensures
        live(*old(cell), found) is None ==> event is None && live(*final(cell), None) is None,
        live(*old(cell), found) matches Some((ctx, seq)) ==> {
            &&& live(*final(cell), None) == Some((ctx, seq_after(seq, 1)))
            &&& event matches Some(out)
            &&& identified(out, ctx, seq as int, Some(goose_session_id))
            &&& utc_timestamp(out.ts@)
            &&& out.kind@ == "usage"@
            &&& json(out.payload) matches Json::Object(payload)
            &&& payload.contains_key("model"@) && payload["model"@] == Json::Text(model@)
            &&& payload.contains_key("usage"@) && payload["usage"@] == json(usage_json)
            &&& forall|k: Seq<char>| #[trigger]
                payload.contains_key(k) ==> k == "model"@ || k == "usage"@
        },
        final(cell).state() is Some,
{
    reveal_strlit("model");
    reveal_strlit("usage");
    assert("model"@[0] != "usage"@[0]);
}

/// A permission decision gives an event with the subject, the decision and the
/// source, and nothing else, if the harness is active, and none otherwise.
pub proof fn lemma_decision_tap_answer(
    cell: &mut HarnessCell,
    found: Option<HarnessContext>,
    goose_session_id: Option<&str>,
    subject: &str,
    decision: &str,
    source: &str,
    event: Option<HarnessEvent>,
)
    requires
        call_ensures(
            record_permission_decision,
            (cell, found, goose_session_id, subject, decision, source),
            event,
        ),
    ensures
        live(*old(cell), found) is None ==> event is None && live(*final(cell), None) is None,
        live(*old(cell), found) matches Some((ctx, seq)) ==> {
            &&& live(*final(cell), None) == Some((ctx, seq_after(seq, 1)))
            &&& event matches Some(out)
            &&& identified(out, ctx, seq as int, goose_session_id)
            &&& utc_timestamp(out.ts@)
            &&& out.kind@ == "permission_decision"@
            &&& json(out.payload) matches Json::Object(payload)
            &&& payload.contains_key("subject"@) && payload["subject"@] == Json::Text(subject@)
            &&& payload.contains_key("decision"@) && payload["decision"@] == Json::Text(decision@)
            &&& payload.contains_key("source"@) && payload["source"@] == Json::Text(source@)
            &&& forall|k: Seq<char>| #[trigger]
                payload.contains_key(k) ==> k == "subject"@ || k == "decision"@ || k == "source"@
        },
        final(cell).state() is Some,
{
    reveal_strlit("subject");
    reveal_strlit("decision");
    reveal_strlit("source");
    assert("subject"@.len() == 7 && "decision"@.len() == 8 && "source"@.len() == 6);
}

/// A refused bootstrap tells the user that the harness was settled before.
pub proof fn lemma_refused_bootstrap_says_why(error: AlreadyInitialized, out: &'static str)
    requires
        call_ensures(AlreadyInitialized::message, (&error,), out),
    ensures
        out@ == "harness already initialized for this process"@,
{
}

} // verus!
