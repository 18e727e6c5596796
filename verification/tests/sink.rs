//! Delivery decisions.

use goose_harness::context::{HarnessContext, IngestConfig};
use goose_harness::events::{HarnessEvent, SCHEMA_VERSION};
use goose_harness::policy::HarnessPolicy;
use goose_harness::sink::{
    log_line, PostOutcome, PostReport, Pump, SinkAction, SinkRoute, PumpInput, PumpNext, PumpStep, SinkPlan, BATCH_SIZE,
    MAX_REMOTE_BUFFER,
};
use serde_json::Value;
use std::path::PathBuf;

fn event(seq: u64) -> HarnessEvent {
    HarnessEvent {
        v: SCHEMA_VERSION,
        harness_session_id: "hs".into(),
        principal: None,
        profile_id: None,
        goose_session_id: None,
        seq,
        ts: "2026-08-19T00:00:00Z".into(),
        kind: "prompt".into(),
        payload: Value::Null,
    }
}

fn ingest() -> Option<IngestConfig> {
    Some(IngestConfig {
        endpoint: "https://ingest.example.com/v1/events".into(),
        token: Some("tok_abc".into()),
    })
}

fn waiting(pump: &Pump) -> Vec<u64> {
    match pump.request() {
        Some(request) => request.events.iter().map(|e| e.seq).collect(),
        None => vec![],
    }
}

#[test]
fn a_batch_is_posted_when_it_is_full() {
    let mut pump = Pump::new(ingest());
    for seq in 0..BATCH_SIZE as u64 - 1 {
        let step = pump.step(PumpInput::Event(event(seq)));
        assert!(!step.post);
        assert_eq!(step.next, PumpNext::Continue);
    }
    assert!(pump.step(PumpInput::Event(event(49))).post);
    assert_eq!(pump.buffered_events(), 50);
    assert_eq!(pump.posted(PostOutcome::Accepted), PostReport::Delivered);
    assert_eq!(pump.buffered_events(), 0);
}

#[test]
fn ticks_flushes_and_the_end_post_what_waits() {
    let mut pump = Pump::new(ingest());
    let idle = |next| PumpStep {
        warn_dropped: None,
        post: false,
        next,
    };
    assert_eq!(pump.step(PumpInput::Tick), idle(PumpNext::Continue));
    assert_eq!(pump.step(PumpInput::Flush), idle(PumpNext::Acknowledge));
    assert_eq!(pump.step(PumpInput::Closed), idle(PumpNext::Stop));
    pump.step(PumpInput::Event(event(0)));
    let due = |next| PumpStep {
        warn_dropped: None,
        post: true,
        next,
    };
    assert_eq!(pump.step(PumpInput::Tick), due(PumpNext::Continue));
    assert_eq!(pump.step(PumpInput::Flush), due(PumpNext::Acknowledge));
    assert_eq!(pump.step(PumpInput::Closed), due(PumpNext::Stop));
}

#[test]
fn without_an_endpoint_nothing_waits() {
    let mut pump = Pump::new(None);
    for seq in 0..100 {
        assert!(!pump.step(PumpInput::Event(event(seq))).post);
    }
    assert_eq!(pump.buffered_events(), 0);
    assert!(pump.request().is_none());
    assert!(!pump.step(PumpInput::Closed).post);
}

#[test]
fn a_request_carries_endpoint_token_and_all_that_waits() {
    let mut pump = Pump::new(ingest());
    assert!(pump.request().is_none());
    pump.step(PumpInput::Event(event(3)));
    pump.step(PumpInput::Event(event(4)));
    let request = pump.request().unwrap();
    assert_eq!(request.endpoint, "https://ingest.example.com/v1/events");
    assert_eq!(request.token, Some("tok_abc"));
    assert_eq!(waiting(&pump), vec![3, 4]);
}

#[test]
fn what_was_not_accepted_stays() {
    let mut pump = Pump::new(ingest());
    pump.step(PumpInput::Event(event(0)));
    pump.step(PumpInput::Event(event(1)));
    assert_eq!(pump.posted(PostOutcome::Refused), PostReport::Retained(2));
    assert_eq!(pump.posted(PostOutcome::Failed), PostReport::Retained(2));
    assert_eq!(waiting(&pump), vec![0, 1]);
}

#[test]
fn a_full_buffer_keeps_the_newest_events() {
    let mut pump = Pump::new(ingest());
    let max = MAX_REMOTE_BUFFER as u64;
    for seq in 0..max {
        assert_eq!(pump.step(PumpInput::Event(event(seq))).warn_dropped, None);
    }
    assert_eq!(pump.dropped_events(), 0);
    let step = pump.step(PumpInput::Event(event(max)));
    assert_eq!(step.warn_dropped, Some(1));
    assert!(step.post);
    assert_eq!(pump.step(PumpInput::Event(event(max + 1))).warn_dropped, None);
    assert_eq!(pump.dropped_events(), 2);
    let kept = waiting(&pump);
    assert_eq!(kept.len(), MAX_REMOTE_BUFFER);
    assert_eq!(kept[0], 2);
    assert_eq!(kept[MAX_REMOTE_BUFFER - 1], max + 1);
    for seq in 2..999 {
        assert_eq!(pump.step(PumpInput::Event(event(max + seq))).warn_dropped, None);
    }
    let step = pump.step(PumpInput::Event(event(max + 999)));
    assert_eq!(step.warn_dropped, Some(1000));
    assert_eq!(
        pump.posted(PostOutcome::Accepted),
        PostReport::Recovered(1000)
    );
    assert_eq!(pump.dropped_events(), 0);
    assert_eq!(pump.posted(PostOutcome::Accepted), PostReport::Delivered);
}

#[test]
fn a_run_keeps_what_came_since_the_last_accepted_post() {
    let mut pump = Pump::new(ingest());
    let mut log = vec![];
    let outcomes = [PostOutcome::Accepted, PostOutcome::Failed, PostOutcome::Refused];
    for (round, outcome) in outcomes.iter().enumerate() {
        for k in 0..3 {
            let input = PumpInput::Event(event(3 * round as u64 + k));
            log.push(input.to_log().unwrap().seq);
            assert!(!pump.step(input).post);
        }
        let step = pump.step(PumpInput::Flush);
        assert!(step.post);
        assert_eq!(step.next, PumpNext::Acknowledge);
        pump.posted(*outcome);
    }
    assert_eq!(log, (0..9).collect::<Vec<u64>>());
    assert_eq!(waiting(&pump), vec![3, 4, 5, 6, 7, 8]);
}

#[test]
fn events_can_be_buffered_before_there_is_an_endpoint() {
    let mut pump = Pump::new(None);
    assert_eq!(pump.buffer_remote(event(0)), None);
    assert_eq!(pump.buffered_events(), 1);
    assert!(pump.request().is_none());
}

#[test]
fn events_are_buffered_one_by_one() {
    let mut pump = Pump::new(ingest());
    assert_eq!(pump.buffer_remote(event(7)), None);
    assert_eq!(pump.buffer_remote(event(8)), None);
    assert_eq!(waiting(&pump), vec![7, 8]);
}

#[test]
fn each_event_stands_on_its_own_line() {
    assert_eq!(log_line("{}"), "{}\n");
    let log = log_line("{\"seq\":0}") + &log_line("{\"seq\":1}");
    let lines: Vec<&str> = log.lines().collect();
    assert_eq!(lines, vec!["{\"seq\":0}", "{\"seq\":1}"]);
}

#[test]
fn the_plan_depends_on_the_runtime() {
    let ctx = HarnessContext {
        harness_session_id: "hs".into(),
        principal: None,
        profile_id: None,
        workspace: PathBuf::from("/w"),
        base_commit: None,
        ingest: ingest(),
        policy: HarnessPolicy::default(),
    };
    let log = PathBuf::from("/w/.goose-harness/events.jsonl");
    match SinkPlan::start(&ctx, true) {
        SinkPlan::Pumped(path, mut pump) => {
            assert_eq!(path, log);
            pump.step(PumpInput::Event(event(0)));
            assert_eq!(pump.request().unwrap().token, Some("tok_abc"));
        }
        SinkPlan::Synchronous(_) => panic!("there is a runtime"),
    }
    assert!(SinkPlan::start(&ctx, true).route().flush_waits());
    assert!(matches!(
        SinkPlan::start(&ctx, true).route().send(event(0)),
        SinkAction::Queue(_)
    ));
    let direct = SinkPlan::start(&ctx, false).route();
    assert!(matches!(direct, SinkRoute::Direct(_)));
    assert!(!direct.flush_waits());
    for seq in 0..3 {
        match direct.send(event(seq)) {
            SinkAction::Append(path, event) => {
                assert_eq!(path, log);
                assert_eq!(event.seq, seq);
            }
            SinkAction::Queue(_) => panic!("there is no loop"),
        }
    }
    match SinkPlan::start(&ctx, false) {
        SinkPlan::Synchronous(path) => assert_eq!(path, log),
        SinkPlan::Pumped(_, _) => panic!("there is no runtime"),
    }
}

#[test]
fn every_event_goes_to_the_log_and_nothing_else_does() {
    assert_eq!(PumpInput::Event(event(5)).to_log().unwrap().seq, 5);
    assert!(PumpInput::Flush.to_log().is_none());
    assert!(PumpInput::Closed.to_log().is_none());
    assert!(PumpInput::Tick.to_log().is_none());
}
