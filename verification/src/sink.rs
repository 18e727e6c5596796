//! Delivery of events: the local log, and a bounded buffer for a remote
//! endpoint with batching and retry.
//!
//! Every event goes to the local log, whatever becomes of its remote delivery.
//! This module decides which events wait for the endpoint, when they are
//! posted, and what the answer means for them.

use crate::context::{clone_ingest, events_file_of, ingest_info, HarnessContext, IngestConfig};
use crate::events::HarnessEvent;
use crate::path::{joined_path, path_clone};
use crate::text::{lemma_appended_line, lines, str_of, text_of, without_return};
use std::path::PathBuf;
use vstd::prelude::*;
use vstd::string::*;

verus! {

/// Remote batches are posted at this size, or at the next tick.
pub const BATCH_SIZE: usize = 50;

/// How many events are kept for the endpoint while it is down.
pub const MAX_REMOTE_BUFFER: usize = 10_000;

/// After the first, every so many dropped events call for a warning.
pub const WARN_EVERY: u64 = 1000;

/// The newest events, as many as the buffer holds.
pub open spec fn newest<E>(events: Seq<E>) -> Seq<E> {
    if events.len() > MAX_REMOTE_BUFFER {
        events.skip(events.len() - MAX_REMOTE_BUFFER)
    } else {
        events
    }
}

/// How many events do not fit into the buffer.
pub open spec fn excess<E>(events: Seq<E>) -> nat {
    if events.len() > MAX_REMOTE_BUFFER {
        (events.len() - MAX_REMOTE_BUFFER) as nat
    } else {
        0
    }
}

/// The delivery state of a session.
pub struct Pump {
    ingest: Option<IngestConfig>,
    remote_buffer: Vec<HarnessEvent>,
    dropped: u64,
}

/// What the delivery loop has to react to.
pub enum PumpInput {
    /// An event to deliver.
    Event(HarnessEvent),
    /// Someone waits until the buffer has been offered to the endpoint.
    Flush,
    /// No further events will come.
    Closed,
    /// The flush interval has passed.
    Tick,
}

/// The event that an input brings to the local log, whatever the state of the
/// remote delivery.
pub open spec fn logged_by(input: PumpInput) -> Option<HarnessEvent> {
    match input {
        PumpInput::Event(event) => Some(event),
        _ => None,
    }
}

/// The local log after the given inputs: every event, in order.
pub open spec fn log_of(inputs: Seq<PumpInput>) -> Seq<HarnessEvent> {
    inputs.filter_map(|input: PumpInput| logged_by(input))
}

impl PumpInput {
    /// What to append to the local log before the input is reacted to.
    pub fn to_log(&self) -> (event: Option<&HarnessEvent>)
        ensures
            event is Some <==> logged_by(*self) is Some,
            event matches Some(event) ==> logged_by(*self) == Some(*event),
    {
        match self {
            PumpInput::Event(event) => Some(event),
            _ => None,
        }
    }
}

/// What to append to the local log for an event in its JSON form.
pub fn log_line(event_json: &str) -> (line: String)
    ensures
        line@ == event_json@ + "\n"@,
{
    let mut line = event_json.to_owned();
    line.append("\n");
    line
}

/// Each event that is appended to the local log stands on a line of its own,
/// and the lines in front of it stay as they are.
pub proof fn lemma_one_line_per_event(log: Seq<char>, event_json: Seq<char>)
    requires
        log.len() == 0 || log.last() == '\n',
        !event_json.contains('\n'),
    ensures
        lines(log + (event_json + "\n"@)) == lines(log).push(without_return(event_json)),
        (log + (event_json + "\n"@)).last() == '\n',
{
    reveal_strlit("\n");
    assert(event_json + "\n"@ =~= event_json.push('\n'));
    lemma_appended_line(log, event_json);
}

/// What to do once the post, if one is due, is over.
#[derive(Debug, Clone, Copy, PartialEq, Eq, Structural)]
pub enum PumpNext {
    /// Wait for the next input.
    Continue,
    /// Tell the one who waits.
    Acknowledge,
    /// End the loop.
    Stop,
}

/// How the delivery loop reacts.
#[derive(Debug, Clone, Copy, PartialEq, Eq, Structural)]
pub struct PumpStep {
    /// How many events have been dropped so far, where that calls for a
    /// warning.
    pub warn_dropped: Option<u64>,
    /// Whether the buffer is to be posted.
    pub post: bool,
    /// What to do then.
    pub next: PumpNext,
}

/// How the endpoint took a post.
#[derive(Debug, Clone, Copy, PartialEq, Eq, Structural)]
pub enum PostOutcome {
    /// It answered that all is well.
    Accepted,
    /// It answered otherwise.
    Refused,
    /// It could not be reached.
    Failed,
}

/// What there is to say of a post.
#[derive(Debug, Clone, Copy, PartialEq, Eq, Structural)]
pub enum PostReport {
    /// The buffer is delivered.
    Delivered,
    /// The buffer is delivered after so many events had to be dropped.
    Recovered(u64),
    /// So many events stay for another attempt.
    Retained(usize),
}

/// A batch to post.
pub struct PostRequest<'a> {
    /// URL to post to.
    pub endpoint: &'a str,
    /// Bearer token to authenticate with.
    pub token: Option<&'a str>,
    /// The events of the batch, oldest first.
    pub events: &'a Vec<HarnessEvent>,
}

/// Whether the number of dropped events calls for a warning.
pub open spec fn warning_due(dropped: u64) -> bool {
    dropped == 1 || dropped % WARN_EVERY == 0
}

impl Pump {
    /// The endpoint that events are posted to.
    pub closed spec fn ingest(&self) -> Option<IngestConfig> {
        self.ingest
    }

    /// The events that wait for the endpoint, oldest first.
    pub closed spec fn buffered(&self) -> Seq<HarnessEvent> {
        self.remote_buffer@
    }

    /// How many events have been dropped since the last successful post.
    pub closed spec fn dropped(&self) -> u64 {
        self.dropped
    }

    /// The buffer is bounded.
    pub open spec fn wf(&self) -> bool {
        self.buffered().len() <= MAX_REMOTE_BUFFER
    }

    /// Whether there is something to post.
    pub open spec fn pending(&self) -> bool {
        self.ingest() is Some && self.buffered().len() > 0
    }
}

/// `after` is `before` with one more event in the buffer, and `warn_dropped` is
/// the number of dropped events where it calls for a warning. A full buffer
/// loses its oldest event.
pub open spec fn buffered_in(
    before: Pump,
    event: HarnessEvent,
    after: Pump,
    warn_dropped: Option<u64>,
) -> bool {
    let all = before.buffered().push(event);
    &&& after.ingest() == before.ingest()
    &&& after.buffered() == newest(all)
    &&& after.dropped() == before.dropped() + excess(all)
    &&& warn_dropped == if excess(all) > 0 && warning_due(after.dropped()) {
        Some(after.dropped())
    } else {
        None
    }
}

/// `step` is how the delivery loop reacts to `input`, and `after` is the state
/// that `before` becomes.
pub open spec fn stepped(before: Pump, input: PumpInput, after: Pump, step: PumpStep) -> bool {
    match input {
        PumpInput::Event(event) => if before.ingest() is Some {
            &&& buffered_in(before, event, after, step.warn_dropped)
            &&& step.post == (after.buffered().len() >= BATCH_SIZE)
            &&& step.next == PumpNext::Continue
        } else {
            &&& after == before
            &&& step == (PumpStep { warn_dropped: None, post: false, next: PumpNext::Continue })
        },
        PumpInput::Flush => after == before && step == (PumpStep {
            warn_dropped: None,
            post: before.pending(),
            next: PumpNext::Acknowledge,
        }),
        PumpInput::Closed => after == before && step == (PumpStep {
            warn_dropped: None,
            post: before.pending(),
            next: PumpNext::Stop,
        }),
        PumpInput::Tick => after == before && step == (PumpStep {
            warn_dropped: None,
            post: before.pending(),
            next: PumpNext::Continue,
        }),
    }
}

/// `after` is what a post with the given outcome makes of `before`: the buffer
/// is done with once it was accepted, and stays as it is otherwise.
pub open spec fn accounted(before: Pump, outcome: PostOutcome, after: Pump) -> bool {
    if outcome == PostOutcome::Accepted {
        &&& after.ingest() == before.ingest()
        &&& after.buffered() == Seq::<HarnessEvent>::empty()
        &&& after.dropped() == 0
    } else {
        after == before
    }
}

impl Pump {
    /// The delivery state of a session that starts.
    pub fn new(ingest: Option<IngestConfig>) -> (pump: Self)
        ensures
            pump.wf(),
            pump.ingest() == ingest,
            pump.buffered() == Seq::<HarnessEvent>::empty(),
            pump.dropped() == 0,
    {
        Pump { ingest, remote_buffer: Vec::new(), dropped: 0 }
    }

    /// How many events have been dropped since the last successful post.
    pub fn dropped_events(&self) -> (n: u64)
        ensures
            n == self.dropped(),
    {
        self.dropped
    }

    /// How many events wait for the endpoint.
    pub fn buffered_events(&self) -> (n: usize)
        ensures
            n == self.buffered().len(),
    {
        self.remote_buffer.len()
    }

    /// Keeps an event for the endpoint. A full buffer loses its oldest event.
    /// Gives the number of dropped events where it calls for a warning.
    pub fn buffer_remote(&mut self, event: HarnessEvent) -> (warn_dropped: Option<u64>)
        requires
            old(self).wf(),
            old(self).buffered().len() == MAX_REMOTE_BUFFER ==> old(self).dropped() < u64::MAX,
        ensures
            final(self).wf(),
            buffered_in(*old(self), event, *final(self), warn_dropped),
    {
        let ghost before = self.remote_buffer@;
        let mut warn_dropped: Option<u64> = None;
        if self.remote_buffer.len() >= MAX_REMOTE_BUFFER {
            self.remote_buffer.remove(0);
            self.dropped = self.dropped + 1;
            if self.dropped == 1 || self.dropped % WARN_EVERY == 0 {
                warn_dropped = Some(self.dropped);
            }
        }
        self.remote_buffer.push(event);
        assert(self.remote_buffer@ =~= newest(before.push(event)));
        warn_dropped
    }

    /// How the delivery loop reacts to an input.
    pub fn step(&mut self, input: PumpInput) -> (step: PumpStep)
        requires
            old(self).wf(),
            input is Event && old(self).buffered().len() == MAX_REMOTE_BUFFER
                ==> old(self).dropped() < u64::MAX,
        ensures
            final(self).wf(),
            stepped(*old(self), input, *final(self), step),
    {
        match input {
            PumpInput::Event(event) => {
                if self.ingest.is_none() {
                    return PumpStep { warn_dropped: None, post: false, next: PumpNext::Continue };
                }
                let warn_dropped = self.buffer_remote(event);
                let post: bool = self.remote_buffer.len() >= BATCH_SIZE;
                PumpStep { warn_dropped, post, next: PumpNext::Continue }
            },
            PumpInput::Flush => {
                let post: bool = self.request().is_some();
                PumpStep { warn_dropped: None, post, next: PumpNext::Acknowledge }
            },
            PumpInput::Closed => {
                let post: bool = self.request().is_some();
                PumpStep { warn_dropped: None, post, next: PumpNext::Stop }
            },
            PumpInput::Tick => {
                let post: bool = self.request().is_some();
                PumpStep { warn_dropped: None, post, next: PumpNext::Continue }
            },
        }
    }

    /// The batch to post: all that waits. `None` without an endpoint or when
    /// nothing waits.
    pub fn request(&self) -> (request: Option<PostRequest<'_>>)
        ensures
            request is Some <==> self.pending(),
            request matches Some(request) ==> {
                &&& self.ingest() matches Some(ingest)
                &&& request.endpoint@ == ingest.endpoint@
                &&& str_of(request.token) == text_of(ingest.token)
                &&& request.events@ == self.buffered()
            },
    {
        match &self.ingest {
            Some(ingest) => if self.remote_buffer.is_empty() {
                None
            } else {
                let token: Option<&str> = match &ingest.token {
                    Some(token) => Some(token.as_str()),
                    None => None,
                };
                Some(
                    PostRequest {
                        endpoint: ingest.endpoint.as_str(),
                        token,
                        events: &self.remote_buffer,
                    },
                )
            },
            None => None,
        }
    }

    /// What the outcome of a post means, and what there is to say of it.
    pub fn posted(&mut self, outcome: PostOutcome) -> (report: PostReport)
        requires
            old(self).wf(),
        ensures
            final(self).wf(),
            accounted(*old(self), outcome, *final(self)),
            report == if outcome != PostOutcome::Accepted {
                PostReport::Retained(old(self).buffered().len() as usize)
            } else if old(self).dropped() > 0 {
                PostReport::Recovered(old(self).dropped())
            } else {
                PostReport::Delivered
            },
    {
        match outcome {
            PostOutcome::Accepted => {
                let dropped: u64 = self.dropped;
                self.dropped = 0;
                self.remote_buffer.clear();
                if dropped > 0 {
                    PostReport::Recovered(dropped)
                } else {
                    PostReport::Delivered
                }
            },
            _ => PostReport::Retained(self.remote_buffer.len()),
        }
    }
}

/// The buffer after one more event depends only on all that came.
proof fn lemma_newest_push<E>(events: Seq<E>, event: E)
    ensures
        newest(newest(events).push(event)) == newest(events.push(event)),
        excess(events) + excess(newest(events).push(event)) == excess(events.push(event)),
{
    assert(newest(newest(events).push(event)) =~= newest(events.push(event)));
}

/// What waits after `events` have come one by one to a buffer that held
/// `buffer`, and how many were dropped meanwhile.
pub open spec fn fed<E>(buffer: Seq<E>, events: Seq<E>) -> (Seq<E>, nat)
    decreases events.len(),
{
    if events.len() == 0 {
        (buffer, 0)
    } else {
        let (before, lost) = fed(buffer, events.drop_last());
        let all = before.push(events.last());
        (newest(all), lost + excess(all))
    }
}

/// While no post succeeds, the newest events wait, in the order in which they
/// came, and every other one is counted as dropped.
pub proof fn lemma_newest_events_wait<E>(buffer: Seq<E>, events: Seq<E>)
    requires
        buffer.len() <= MAX_REMOTE_BUFFER,
    ensures
        fed(buffer, events) == (newest(buffer + events), excess(buffer + events)),
        fed(buffer, events).0.len() + fed(buffer, events).1 == buffer.len() + events.len(),
    decreases events.len(),
{
    if events.len() == 0 {
        assert(buffer + events =~= buffer);
    } else {
        let before = events.drop_last();
        lemma_newest_events_wait(buffer, before);
        lemma_newest_push(buffer + before, events.last());
        assert((buffer + before).push(events.last()) =~= buffer + events);
    }
}

/// One turn of the delivery loop.
pub struct Turn {
    /// What the loop reacts to.
    pub input: PumpInput,
    /// How it reacts.
    pub step: PumpStep,
    /// The state after that.
    pub mid: Pump,
    /// How the endpoint took the post, if there was one.
    pub outcome: Option<PostOutcome>,
}

/// `turn` makes `after` of `before`: the loop reacts to the input, and posts if
/// that is due.
pub open spec fn turned(before: Pump, turn: Turn, after: Pump) -> bool {
    &&& stepped(before, turn.input, turn.mid, turn.step)
    &&& match turn.outcome {
        Some(outcome) => turn.step.post && accounted(turn.mid, outcome, after),
        None => !turn.step.post && after == turn.mid,
    }
}

/// The loop goes through the states `pumps` by taking `turns`. It takes no turn
/// after the one that ends it.
pub open spec fn ran(pumps: Seq<Pump>, turns: Seq<Turn>) -> bool {
    &&& pumps.len() == turns.len() + 1
    &&& forall|i: int|
        0 <= i < turns.len() - 1 ==> (#[trigger] turns[i]).step.next != PumpNext::Stop
    &&& forall|i: int|
        0 <= i < turns.len() ==> turned(pumps[i], #[trigger] turns[i], pumps[i + 1])
}

/// What the loop reacts to in its turns.
pub open spec fn inputs(turns: Seq<Turn>) -> Seq<PumpInput> {
    turns.map_values(|turn: Turn| turn.input)
}

/// `events`, and behind them the event that `input` brings, if it brings one.
pub open spec fn with_input(events: Seq<HarnessEvent>, input: PumpInput) -> Seq<HarnessEvent> {
    match logged_by(input) {
        Some(event) => events.push(event),
        None => events,
    }
}

/// The local log after some turns, where it held `log` before them.
pub open spec fn log_after(log: Seq<HarnessEvent>, turns: Seq<Turn>) -> Seq<HarnessEvent>
    decreases turns.len(),
{
    if turns.len() == 0 {
        log
    } else {
        with_input(log_after(log, turns.drop_last()), turns.last().input)
    }
}

/// The events that came since the last post that was accepted.
pub open spec fn unaccepted(turns: Seq<Turn>) -> Seq<HarnessEvent>
    decreases turns.len(),
{
    if turns.len() == 0 || turns.last().outcome == Some(PostOutcome::Accepted) {
        seq![]
    } else {
        with_input(unaccepted(turns.drop_last()), turns.last().input)
    }
}

/// A part of a run is a run.
proof fn lemma_shorter_run(pumps: Seq<Pump>, turns: Seq<Turn>)
    requires
        ran(pumps, turns),
        turns.len() > 0,
    ensures
        ran(pumps.drop_last(), turns.drop_last()),
        turned(pumps.drop_last().last(), turns.last(), pumps.last()),
{
    let last = turns.len() - 1;
    assert(turned(pumps[last], turns[last], pumps[last + 1]));
    assert forall|i: int| 0 <= i < last - 1 implies (#[trigger] turns.drop_last()[i]).step.next
        != PumpNext::Stop by {
        assert(turns[i].step.next != PumpNext::Stop);
    }
    assert forall|i: int| 0 <= i < last implies turned(
        pumps.drop_last()[i],
        #[trigger] turns.drop_last()[i],
        pumps.drop_last()[i + 1],
    ) by {
        assert(turned(pumps[i], turns[i], pumps[i + 1]));
    }
}

/// The local log gets every event, in order, and nothing else, whatever there
/// is of an endpoint and whatever the endpoint answers.
pub proof fn lemma_log_is_complete(log: Seq<HarnessEvent>, turns: Seq<Turn>)
    ensures
        log_after(log, turns) == log + log_of(inputs(turns)),
    decreases turns.len(),
{
    if turns.len() == 0 {
        assert(inputs(turns) =~= seq![]);
        assert(log + log_of(inputs(turns)) =~= log);
    } else {
        lemma_log_is_complete(log, turns.drop_last());
        assert(inputs(turns).drop_last() =~= inputs(turns.drop_last()));
        assert(log_of(inputs(turns)) =~= with_input(
            log_of(inputs(turns.drop_last())),
            turns.last().input,
        ));
        assert(log_after(log, turns) =~= log + log_of(inputs(turns)));
    }
}

/// What waits, and what has been dropped, is decided by the events since the
/// last post that was accepted.
pub proof fn lemma_run_buffers_newest(pumps: Seq<Pump>, turns: Seq<Turn>)
    requires
        ran(pumps, turns),
        pumps[0].ingest() is Some,
        pumps[0].buffered() == Seq::<HarnessEvent>::empty(),
        pumps[0].dropped() == 0,
    ensures
        pumps.last().ingest() == pumps[0].ingest(),
        fed(Seq::empty(), unaccepted(turns)) == (
            pumps.last().buffered(),
            pumps.last().dropped() as nat,
        ),
        pumps.last().buffered() == newest(unaccepted(turns)),
        pumps.last().dropped() == excess(unaccepted(turns)),
    decreases turns.len(),
{
    let none = Seq::<HarnessEvent>::empty();
    if turns.len() > 0 {
        lemma_shorter_run(pumps, turns);
        let before = unaccepted(turns.drop_last());
        lemma_run_buffers_newest(pumps.drop_last(), turns.drop_last());
        if let PumpInput::Event(event) = turns.last().input {
            assert(before.push(event).drop_last() =~= before);
        }
    }
    lemma_newest_events_wait(none, unaccepted(turns));
    assert(none + unaccepted(turns) =~= unaccepted(turns));
}

/// What waits for the endpoint is the end of the local log.
pub proof fn lemma_waiting_events_are_logged(pumps: Seq<Pump>, turns: Seq<Turn>)
    requires
        ran(pumps, turns),
        pumps[0].ingest() is Some,
        pumps[0].buffered() == Seq::<HarnessEvent>::empty(),
        pumps[0].dropped() == 0,
    ensures
        pumps.last().buffered().is_suffix_of(log_after(Seq::empty(), turns)),
{
    let none = Seq::<HarnessEvent>::empty();
    let log = log_after(none, turns);
    let events = unaccepted(turns);
    lemma_unaccepted_are_logged(turns);
    lemma_run_buffers_newest(pumps, turns);
    let waiting = newest(events);
    let before = log.len() - events.len();
    assert forall|i: int| 0 <= i < waiting.len() implies waiting[i] == log[log.len()
        - waiting.len() + i] by {
        let k = events.len() - waiting.len() + i;
        assert(waiting[i] == events[k]);
        assert(events[k] == log.subrange(before, log.len() as int)[k]);
    }
    assert(waiting =~= log.subrange(log.len() - waiting.len(), log.len() as int));
}

/// The events since the last accepted post are the end of the local log.
proof fn lemma_unaccepted_are_logged(turns: Seq<Turn>)
    ensures
        unaccepted(turns).is_suffix_of(log_after(Seq::empty(), turns)),
    decreases turns.len(),
{
    let log = log_after(Seq::empty(), turns);
    let events = unaccepted(turns);
    if turns.len() == 0 || turns.last().outcome == Some(PostOutcome::Accepted) {
        assert(events =~= log.subrange(log.len() as int, log.len() as int));
    } else {
        lemma_unaccepted_are_logged(turns.drop_last());
        let old_log = log_after(Seq::empty(), turns.drop_last());
        let old_events = unaccepted(turns.drop_last());
        let start = old_log.len() - old_events.len();
        assert(old_events == old_log.subrange(start, old_log.len() as int));
        assert(events =~= log.subrange(start, log.len() as int));
    }
}

/// What each turn of a run does with the endpoint.
///
/// Nothing is posted without an endpoint or without events. A flush is
/// acknowledged after one attempt to post what waits, and nothing else is
/// acknowledged. The loop stops when no further events will come, after one
/// last attempt, and takes no further turn.
pub proof fn lemma_run_posts(pumps: Seq<Pump>, turns: Seq<Turn>, i: int)
    requires
        ran(pumps, turns),
        0 <= i < turns.len(),
    ensures
        pumps[0].ingest() is None ==> turns[i].outcome is None && pumps[i + 1] == pumps[0],
        pumps[i + 1].ingest() == pumps[0].ingest(),
        turns[i].outcome is Some ==> turns[i].mid.pending(),
        turns[i].step.next == PumpNext::Acknowledge <==> turns[i].input is Flush,
        turns[i].step.next == PumpNext::Stop <==> turns[i].input is Closed,
        turns[i].input is Closed ==> i == turns.len() - 1,
        !(turns[i].input is Event) ==> {
            &&& turns[i].mid == pumps[i]
            &&& turns[i].outcome is Some <==> pumps[i].pending()
        },
    decreases i,
{
    assert(turned(pumps[i], turns[i], pumps[i + 1]));
    if i > 0 {
        lemma_run_posts(pumps, turns, i - 1);
    }
}

/// When a flush is acknowledged, every event that came before it is in the
/// local log, and what waits has been offered to the endpoint.
pub proof fn lemma_flush_comes_last(
    log: Seq<HarnessEvent>,
    pumps: Seq<Pump>,
    turns: Seq<Turn>,
    i: int,
)
    requires
        ran(pumps, turns),
        0 <= i < turns.len(),
        turns[i].input is Flush,
    ensures
        turns[i].step.next == PumpNext::Acknowledge,
        log_after(log, turns.take(i)) == log + log_of(inputs(turns.take(i))),
        turns[i].outcome is Some <==> pumps[i].pending(),
{
    lemma_log_is_complete(log, turns.take(i));
    lemma_run_posts(pumps, turns, i);
}

/// What an accepted post delivers: the newest of the events since the one that
/// was accepted before it.
pub proof fn lemma_accepted_batch(pumps: Seq<Pump>, turns: Seq<Turn>)
    requires
        ran(pumps, turns),
        turns.len() > 0,
        turns.last().outcome == Some(PostOutcome::Accepted),
        pumps[0].ingest() is Some,
        pumps[0].buffered() == Seq::<HarnessEvent>::empty(),
        pumps[0].dropped() == 0,
    ensures
        turns.last().mid.buffered() == newest(
            with_input(unaccepted(turns.drop_last()), turns.last().input),
        ),
        pumps.last().buffered().len() == 0,
        pumps.last().dropped() == 0,
{
    lemma_shorter_run(pumps, turns);
    lemma_run_buffers_newest(pumps.drop_last(), turns.drop_last());
    if let PumpInput::Event(event) = turns.last().input {
        lemma_newest_push(unaccepted(turns.drop_last()), event);
    }
}

/// How a session delivers its events.
pub enum SinkPlan {
    /// A background loop appends to the log and posts to the endpoint.
    Pumped(PathBuf, Pump),
    /// Each event is appended to the log at once; the endpoint gets none.
    Synchronous(PathBuf),
}

/// Where the events of a session go.
pub enum SinkRoute {
    /// To the background loop.
    Queued,
    /// Straight to this log.
    Direct(PathBuf),
}

/// What to do with an event of a session.
pub enum SinkAction {
    /// Hand it to the background loop.
    Queue(HarnessEvent),
    /// Append it to this log before anything else happens.
    Append(PathBuf, HarnessEvent),
}

/// Where the events of a session with the given plan go.
pub open spec fn route_of(plan: SinkPlan) -> SinkRoute {
    match plan {
        SinkPlan::Pumped(_, _) => SinkRoute::Queued,
        SinkPlan::Synchronous(path) => SinkRoute::Direct(path),
    }
}

/// The delivery state that posts to the endpoint, if there is one.
pub open spec fn pump_of(plan: SinkPlan) -> Option<Pump> {
    match plan {
        SinkPlan::Pumped(_, pump) => Some(pump),
        SinkPlan::Synchronous(_) => None,
    }
}

/// What to do with an event.
pub open spec fn sent(route: SinkRoute, event: HarnessEvent) -> SinkAction {
    match route {
        SinkRoute::Queued => SinkAction::Queue(event),
        SinkRoute::Direct(path) => SinkAction::Append(path, event),
    }
}

impl SinkPlan {
    /// How the session of `ctx` delivers its events, given whether there is a
    /// runtime for a background loop.
    pub fn start(ctx: &HarnessContext, has_runtime: bool) -> (plan: SinkPlan)
        ensures
            has_runtime ==> {
                &&& plan matches SinkPlan::Pumped(path, pump)
                &&& path == events_file_of(ctx.workspace)
                &&& pump.wf()
                &&& ingest_info(pump.ingest()) == ingest_info(ctx.ingest)
                &&& pump.buffered() == Seq::<HarnessEvent>::empty()
                &&& pump.dropped() == 0
            },
            !has_runtime ==> plan == SinkPlan::Synchronous(events_file_of(ctx.workspace)),
    {
        let events_path = ctx.events_path();
        if has_runtime {
            SinkPlan::Pumped(events_path, Pump::new(clone_ingest(&ctx.ingest)))
        } else {
            SinkPlan::Synchronous(events_path)
        }
    }

    /// Where the events of the session go.
    pub fn route(&self) -> (route: SinkRoute)
        ensures
            route == route_of(*self),
    {
        match self {
            SinkPlan::Pumped(_, _) => SinkRoute::Queued,
            SinkPlan::Synchronous(path) => SinkRoute::Direct(path_clone(path)),
        }
    }
}

impl SinkRoute {
    /// What to do with an event.
    pub fn send(&self, event: HarnessEvent) -> (action: SinkAction)
        ensures
            action == sent(*self, event),
    {
        match self {
            SinkRoute::Queued => SinkAction::Queue(event),
            SinkRoute::Direct(path) => SinkAction::Append(path_clone(path), event),
        }
    }

    /// Whether a flush has a background loop to wait for.
    pub fn flush_waits(&self) -> (waits: bool)
        ensures
            waits == (*self is Queued),
    {
        match self {
            SinkRoute::Queued => true,
            SinkRoute::Direct(_) => false,
        }
    }
}

/// The log at `path` after `events` have been sent one by one along a route,
/// where it held `log` before them.
pub open spec fn log_after_sending(
    log: Seq<HarnessEvent>,
    path: PathBuf,
    route: SinkRoute,
    events: Seq<HarnessEvent>,
) -> Seq<HarnessEvent>
    decreases events.len(),
{
    if events.len() == 0 {
        log
    } else {
        let before = log_after_sending(log, path, route, events.drop_last());
        match sent(route, events.last()) {
            SinkAction::Append(at, event) => if at == path {
                before.push(event)
            } else {
                before
            },
            SinkAction::Queue(_) => before,
        }
    }
}

/// A session without a runtime has each event in its log as soon as the event
/// is sent, in order, and has nothing that could post: no delivery state, no
/// event that is handed on, and no flush that waits, endpoint or not.
pub proof fn lemma_without_runtime_all_is_logged(
    ctx: HarnessContext,
    plan: SinkPlan,
    log: Seq<HarnessEvent>,
    events: Seq<HarnessEvent>,
)
    requires
        plan == SinkPlan::Synchronous(events_file_of(ctx.workspace)),
    ensures
        log_after_sending(log, events_file_of(ctx.workspace), route_of(plan), events) == log
            + events,
        forall|i: int|
            0 <= i < events.len() ==> !(sent(route_of(plan), #[trigger] events[i]) is Queue),
        pump_of(plan) is None,
        !(route_of(plan) is Queued),
    decreases events.len(),
{
    if events.len() == 0 {
        assert(log + events =~= log);
    } else {
        lemma_without_runtime_all_is_logged(ctx, plan, log, events.drop_last());
        assert((log + events.drop_last()).push(events.last()) =~= log + events);
    }
}

/// Whatever the route, what is done with an event is done with that very event:
/// it is handed to the loop, or appended to the log of the route.
pub proof fn lemma_send_keeps_event(route: SinkRoute, event: HarnessEvent, action: SinkAction)
    requires
        call_ensures(SinkRoute::send, (&route, event), action),
    ensures
        route is Queued <==> action is Queue,
        action matches SinkAction::Queue(handed) ==> handed == event,
        action matches SinkAction::Append(path, appended) ==> {
            &&& appended == event
            &&& route == SinkRoute::Direct(path)
        },
{
}

/// Events that are sent through the loop are in the log, as they were sent and
/// in the order in which they were sent, once the loop has taken them.
pub proof fn lemma_queued_events_are_logged(
    route: SinkRoute,
    events: Seq<HarnessEvent>,
    actions: Seq<SinkAction>,
    log: Seq<HarnessEvent>,
    turns: Seq<Turn>,
)
    requires
        route is Queued,
        events.len() == actions.len() == turns.len(),
        forall|i: int|
            0 <= i < events.len() ==> call_ensures(
                SinkRoute::send,
                (&route, #[trigger] events[i]),
                actions[i],
            ),
        forall|i: int|
            0 <= i < turns.len() ==> (#[trigger] turns[i]).input == PumpInput::Event(
                actions[i]->Queue_0,
            ),
    ensures
        log_after(log, turns) == log + events,
    decreases turns.len(),
{
    if turns.len() == 0 {
        assert(log + events =~= log);
    } else {
        let last = turns.len() - 1;
        assert(call_ensures(SinkRoute::send, (&route, events[last]), actions[last]));
        assert(turns[last].input == PumpInput::Event(events[last]));
        lemma_queued_events_are_logged(
            route,
            events.drop_last(),
            actions.drop_last(),
            log,
            turns.drop_last(),
        );
        assert((log + events.drop_last()).push(events.last()) =~= log + events);
    }
}

/// An input brings its event to the log, that very event, and nothing where it
/// is none.
pub proof fn lemma_input_is_logged(input: PumpInput, event: Option<&HarnessEvent>)
    requires
        call_ensures(PumpInput::to_log, (&input,), event),
    ensures
        input matches PumpInput::Event(inside) ==> {
            &&& event == Some(&inside)
            &&& logged_by(input) == Some(inside)
        },
        !(input is Event) ==> event is None && logged_by(input) is None,
{
}

/// What is appended for an event is its JSON form and a line feed.
pub proof fn lemma_log_line_answer(event_json: &str, line: String)
    requires
        call_ensures(log_line, (event_json,), line),
    ensures
        line@ == event_json@.push('\n'),
{
    reveal_strlit("\n");
    assert(event_json@ + "\n"@ =~= event_json@.push('\n'));
}

/// A new pump has its endpoint, and nothing waits or is dropped.
pub proof fn lemma_new_pump(ingest: Option<IngestConfig>, pump: Pump, waiting: usize, dropped: u64)
    requires
        call_ensures(Pump::new, (ingest,), pump),
        call_ensures(Pump::buffered_events, (&pump,), waiting),
        call_ensures(Pump::dropped_events, (&pump,), dropped),
    ensures
        pump.ingest() == ingest,
        pump.buffered().len() == 0,
        waiting == 0,
        dropped == 0,
{
}

/// One more event waits behind the others. Only where ten thousand wait already
/// the oldest makes room and is counted, with a warning at the first and at
/// every thousandth.
pub proof fn lemma_buffer_keeps_newest(
    pump: &mut Pump,
    event: HarnessEvent,
    warn_dropped: Option<u64>,
)
    requires
        call_ensures(Pump::buffer_remote, (pump, event), warn_dropped),
        old(pump).buffered().len() <= 10_000,
    ensures
        final(pump).ingest() == old(pump).ingest(),
        final(pump).buffered().len() <= 10_000,
        final(pump).buffered().last() == event,
        old(pump).buffered().len() < 10_000 ==> {
            &&& final(pump).buffered() == old(pump).buffered().push(event)
            &&& final(pump).dropped() == old(pump).dropped()
            &&& warn_dropped is None
        },
        old(pump).buffered().len() == 10_000 ==> {
            &&& final(pump).buffered() == old(pump).buffered().skip(1).push(event)
            &&& final(pump).dropped() == old(pump).dropped() + 1
            &&& warn_dropped is Some <==> final(pump).dropped() == 1 || final(pump).dropped() % 1000
                == 0
            &&& warn_dropped is Some ==> warn_dropped == Some(final(pump).dropped())
        },
{
    let all = old(pump).buffered().push(event);
    if old(pump).buffered().len() == 10_000 {
        assert(newest(all) =~= old(pump).buffered().skip(1).push(event));
    }
}

/// How the loop reacts: an event waits if there is an endpoint, and a batch is
/// posted once fifty wait; a flush, the end and a tick post whatever waits, a
/// flush is acknowledged, and the end stops the loop.
pub proof fn lemma_step_answer(pump: &mut Pump, input: PumpInput, step: PumpStep)
    requires
        call_ensures(Pump::step, (pump, input), step),
        old(pump).buffered().len() <= 10_000,
    ensures
        final(pump).ingest() == old(pump).ingest(),
        input matches PumpInput::Event(event) ==> {
            &&& step.next == PumpNext::Continue
            &&& old(pump).ingest() is None ==> {
                &&& final(pump).buffered() == old(pump).buffered()
                &&& final(pump).dropped() == old(pump).dropped()
                &&& !step.post
                &&& step.warn_dropped is None
            }
            &&& old(pump).ingest() is Some ==> {
                &&& step.post <==> final(pump).buffered().len() >= 50
                &&& old(pump).buffered().len() < 10_000 ==> {
                    &&& final(pump).buffered() == old(pump).buffered().push(event)
                    &&& final(pump).dropped() == old(pump).dropped()
                    &&& step.warn_dropped is None
                }
                &&& old(pump).buffered().len() == 10_000 ==> {
                    &&& final(pump).buffered() == old(pump).buffered().skip(1).push(event)
                    &&& final(pump).dropped() == old(pump).dropped() + 1
                    &&& step.warn_dropped is Some <==> final(pump).dropped() == 1
                        || final(pump).dropped() % 1000 == 0
                    &&& step.warn_dropped is Some ==> step.warn_dropped == Some(
                        final(pump).dropped(),
                    )
                }
            }
        },
        !(input is Event) ==> {
            &&& final(pump).buffered() == old(pump).buffered()
            &&& final(pump).dropped() == old(pump).dropped()
            &&& step.post <==> old(pump).ingest() is Some && old(pump).buffered().len() > 0
            &&& step.warn_dropped is None
        },
        input is Flush <==> step.next == PumpNext::Acknowledge,
        input is Closed <==> step.next == PumpNext::Stop,
{
    if let PumpInput::Event(event) = input {
        let all = old(pump).buffered().push(event);
        if old(pump).buffered().len() == 10_000 {
            assert(newest(all) =~= old(pump).buffered().skip(1).push(event));
        }
    }
}

/// A batch is all that waits, for the endpoint and with its token. There is one
/// exactly when there is an endpoint and something waits.
pub proof fn lemma_request_answer(pump: Pump, request: Option<PostRequest<'_>>)
    requires
        call_ensures(Pump::request, (&pump,), request),
    ensures
        request is Some <==> pump.ingest() is Some && pump.buffered().len() > 0,
        request matches Some(batch) ==> {
            &&& batch.events@ == pump.buffered()
            &&& batch.endpoint@ == pump.ingest()->0.endpoint@
            &&& batch.token is Some <==> pump.ingest()->0.token is Some
            &&& batch.token is Some ==> batch.token->0@ == pump.ingest()->0.token->0@
        },
{
}

/// An accepted post empties the buffer and the count of dropped events, which
/// is reported if there were any. Any other outcome changes nothing and reports
/// how many events stay.
pub proof fn lemma_posted_answer(pump: &mut Pump, outcome: PostOutcome, report: PostReport)
    requires
        call_ensures(Pump::posted, (pump, outcome), report),
        old(pump).buffered().len() <= 10_000,
    ensures
        final(pump).ingest() == old(pump).ingest(),
        outcome == PostOutcome::Accepted ==> {
            &&& final(pump).buffered().len() == 0
            &&& final(pump).dropped() == 0
            &&& old(pump).dropped() == 0 ==> report == PostReport::Delivered
            &&& old(pump).dropped() > 0 ==> report == PostReport::Recovered(old(pump).dropped())
        },
        outcome != PostOutcome::Accepted ==> {
            &&& final(pump).buffered() == old(pump).buffered()
            &&& final(pump).dropped() == old(pump).dropped()
            &&& report matches PostReport::Retained(n)
            &&& n == old(pump).buffered().len()
        },
{
}

/// With a runtime, events go through a loop that has the session's endpoint;
/// without one they go straight to the log and a flush waits for nothing. The
/// log is that of the session in either case.
pub proof fn lemma_plan_answer(
    ctx: HarnessContext,
    has_runtime: bool,
    plan: SinkPlan,
    route: SinkRoute,
    waits: bool,
)
    requires
        call_ensures(SinkPlan::start, (&ctx, has_runtime), plan),
        call_ensures(SinkPlan::route, (&plan,), route),
        call_ensures(SinkRoute::flush_waits, (&route,), waits),
    ensures
        waits <==> has_runtime,
        has_runtime ==> {
            &&& route is Queued
            &&& plan matches SinkPlan::Pumped(path, pump)
            &&& path == joined_path(joined_path(ctx.workspace, ".goose-harness"@), "events.jsonl"@)
            &&& pump.buffered().len() == 0
            &&& pump.dropped() == 0
            &&& pump.ingest() is Some <==> ctx.ingest is Some
            &&& ctx.ingest is Some ==> {
                &&& pump.ingest()->0.endpoint@ == ctx.ingest->0.endpoint@
                &&& text_of(pump.ingest()->0.token) == text_of(ctx.ingest->0.token)
            }
        },
        !has_runtime ==> plan == SinkPlan::Synchronous(joined_path(
                joined_path(ctx.workspace, ".goose-harness"@),
                "events.jsonl"@,
            )) && route
            == SinkRoute::Direct(joined_path(
                joined_path(ctx.workspace, ".goose-harness"@),
                "events.jsonl"@,
            )),
{
}

} // verus!
