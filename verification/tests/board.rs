use claw::activity::{ActivityHub, RunContext, Status, FEED_CAPACITY};
use claw::logs::{level_str, LogBuffer, LogLevel, MessageVisitor};
use claw::protocol::ids::{AgentGroupId, SessionId};
use claw::runs::queue::RunQueue;

const NOW: &str = "2026-06-11T12:00:00.000Z";

fn ctx(agent: &str) -> RunContext {
    RunContext {
        agent_group_id: AgentGroupId::new(&format!("ag-{agent}")),
        agent: agent.to_owned(),
        chat: Some("Main".to_owned()),
        delegated_by: None,
        message: Some("hello".to_owned()),
    }
}

#[test]
fn lifecycle_moves_an_agent_through_running_and_back_to_idle() {
    let mut hub = ActivityHub::new();
    let id = AgentGroupId::new("ag-andy");

    hub.started(&ctx("andy"), NOW);
    let snapshot = hub.snapshot();
    let running = &snapshot.agents[0].activity;
    assert_eq!(running.status, Status::Running);
    assert_eq!(running.chat.as_deref(), Some("Main"));
    assert_eq!(running.message.as_deref(), Some("hello"));
    assert!(running.started_at.is_some());

    hub.phase(&id, "andy", "running a command", NOW);
    assert_eq!(
        hub.snapshot().agents[0].activity.phase.as_deref(),
        Some("running a command")
    );

    hub.finished(&id, "andy", NOW);
    let snapshot = hub.snapshot();
    let idle = &snapshot.agents[0].activity;
    assert_eq!(idle.status, Status::Idle);
    assert_eq!(idle.phase, None);

    // All three landed in the feed, the newest first.
    let kinds: Vec<&str> = hub.snapshot().feed.iter().map(|e| e.kind).collect();
    assert_eq!(kinds, ["finished", "phase", "started"]);
}

#[test]
fn failure_without_a_prior_start_is_still_recorded() {
    let mut hub = ActivityHub::new();
    let id = AgentGroupId::new("ag-andy");
    hub.failed(&id, "andy", "no endpoint configured", NOW);
    let snapshot = hub.snapshot();
    let slot = &snapshot.agents[0].activity;
    assert_eq!(slot.status, Status::Failed);
    assert!(slot.phase.as_deref().unwrap().contains("no endpoint"));
}

#[test]
fn subscribers_receive_updates() {
    let mut hub = ActivityHub::new();
    let update = hub.started(&ctx("andy"), NOW);
    assert_eq!(update.agent_id, "ag-andy");
    assert_eq!(update.activity.status, Status::Running);
    assert_eq!(update.event.kind, "started");
}

#[test]
fn feed_is_capped() {
    let mut hub = ActivityHub::new();
    let id = AgentGroupId::new("ag-andy");
    hub.started(&ctx("andy"), NOW);
    for n in 0..FEED_CAPACITY + 50 {
        hub.phase(&id, "andy", &format!("step {n}"), NOW);
    }
    assert!(hub.snapshot().feed.len() <= FEED_CAPACITY);
    assert!(hub.snapshot().feed[0].text.contains("step 249"));
}

#[test]
fn push_keeps_only_the_most_recent_within_capacity() {
    let mut buffer = LogBuffer::new(3);
    for n in 0..5 {
        buffer.push(NOW, "INFO", "test", format!("msg {n}"));
    }
    let snapshot = buffer.snapshot();
    let messages: Vec<&str> = snapshot.iter().map(|r| r.message.as_str()).collect();
    assert_eq!(messages, ["msg 2", "msg 3", "msg 4"]);
}

#[test]
fn seq_increases_monotonically_across_eviction() {
    let mut buffer = LogBuffer::new(2);
    for _ in 0..4 {
        buffer.push(NOW, "WARN", "test", "x".to_owned());
    }
    let seqs: Vec<u64> = buffer.snapshot().iter().map(|r| r.seq).collect();
    assert_eq!(seqs, [2, 3]);
}

#[test]
fn subscribers_receive_pushed_records() {
    let mut buffer = LogBuffer::new(8);
    let record = buffer.push(NOW, level_str(LogLevel::Error), "claw::web", "boom".to_owned());
    assert_eq!(record.level, "ERROR");
    assert_eq!(record.target, "claw::web");
    assert_eq!(record.message, "boom");
}

#[test]
fn a_record_shows_its_message_and_then_its_fields() {
    let mut visitor = MessageVisitor::new();
    visitor.record("message", "started");
    visitor.record("port", "8080");
    assert!(visitor.finish().starts_with("started"));
}

fn sid(raw: &str) -> SessionId {
    SessionId::new(raw)
}

#[test]
fn enqueue_deduplicates_until_popped() {
    let mut queue = RunQueue::new();
    assert!(queue.enqueue(sid("a")));
    assert!(!queue.enqueue(sid("a")));
    assert!(queue.enqueue(sid("b")));
    assert_eq!(queue.snapshot(), vec![sid("a"), sid("b")]);
    assert_eq!(queue.pop(), Some(sid("a")));
    assert!(queue.enqueue(sid("a")));
    assert_eq!(queue.snapshot(), vec![sid("b"), sid("a")]);
}

#[test]
fn next_returns_in_fifo_order() {
    let mut queue = RunQueue::new();
    queue.enqueue(sid("a"));
    queue.enqueue(sid("b"));
    assert_eq!(queue.pop(), Some(sid("a")));
    assert_eq!(queue.pop(), Some(sid("b")));
    assert_eq!(queue.pop(), None);
}
