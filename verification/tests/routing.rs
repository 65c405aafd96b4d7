use claw::db::connectors::Connector;
use claw::db::messaging_groups::Wiring;
use claw::channels::{Address, AdapterRegistry, ChannelError, OutboundDelivery, OutboundFile};
use claw::json::Json;
use claw::delivery::{
    after_collect, after_register, begin_attempt, conclude, given_up_until_written, prepare,
    resolve_address, sort_files, three_strikes, ApprovalDraft, AttemptStep, Attempts, Conclusion,
    QuestionDraft, Verdict,
};
use claw::protocol::content::{Operation, OutboundContent, Routing};
use claw::protocol::entities::{
    ConnectorConfig, ConnectorKind, EngageMode, IgnoredMessagePolicy, SenderScope, SessionMode,
    SmsConnectorConfig,
};
use claw::protocol::ids::{
    AgentGroupId, ConnectorId, MessageOutId, MessagingGroupId, SessionId,
};
use claw::protocol::message::MessageKind;
use claw::router::{
    dropped, enabled_by_kind, messages_reach_every_target, resolve_targets, InboundEvent,
    InboundPlan, Route, RouteOutcome, RouteStart,
};
use claw::runs::queue::RunQueue;
use claw::protocol::message::MessageSeq;
use claw::session::{NewOutboundMessage, OutboundMessage};

const STAMP: &str = "2026-06-12T00:00:00.000Z";

fn wiring(agent: &str, mode: SessionMode) -> Wiring {
    Wiring {
        id: "wire-1".to_owned(),
        messaging_group_id: MessagingGroupId::new("mg-1"),
        agent_group_id: AgentGroupId::new(agent),
        engage_mode: EngageMode::Mention,
        engage_pattern: None,
        sender_scope: SenderScope::All,
        ignored_message_policy: IgnoredMessagePolicy::Drop,
        session_mode: mode,
        priority: 0,
        created_at: STAMP.to_owned(),
    }
}

fn sms_connector(enabled: bool) -> Connector {
    Connector {
        id: ConnectorId::new("conn-1"),
        label: None,
        config: ConnectorConfig::Sms(SmsConnectorConfig {
            base_url: "http://sim:8080".to_owned(),
            token: "sms_secret".to_owned(),
            webhook_secret: None,
        }),
        agent_group_id: AgentGroupId::new("ag-andy"),
        enabled,
        created_at: STAMP.to_owned(),
    }
}

#[test]
fn get_enabled_by_kind_skips_a_disabled_connector() {
    let mut rows = vec![sms_connector(true)];
    assert!(enabled_by_kind(&rows, ConnectorKind::Sms).is_some());

    rows[0].enabled = false;
    assert_eq!(enabled_by_kind(&rows, ConnectorKind::Sms), None);
}

fn chat_event(platform_id: &str, thread_id: Option<&str>, text: &str) -> InboundEvent {
    InboundEvent {
        channel_type: "web".to_owned(),
        platform_id: platform_id.to_owned(),
        thread_id: thread_id.map(str::to_owned),
        kind: MessageKind::Chat,
        content: format!("{{\"sender\":\"you\",\"text\":\"{text}\"}}"),
        is_mention: false,
        is_group: false,
    }
}

fn group_event(platform_id: &str, text: &str, is_mention: bool) -> InboundEvent {
    InboundEvent {
        is_group: true,
        is_mention,
        ..chat_event(platform_id, None, text)
    }
}

fn sms_event(platform_id: &str, text: &str) -> InboundEvent {
    InboundEvent {
        channel_type: "sms".to_owned(),
        ..chat_event(platform_id, None, text)
    }
}

/// The rows that routing reads, the sessions that it opened and what it wrote to them.
struct Host {
    wirings: Vec<Wiring>,
    connectors: Vec<Connector>,
    sessions: Vec<(AgentGroupId, Option<String>)>,
    written: Vec<(SessionId, InboundPlan)>,
    queue: RunQueue,
}

impl Host {
    fn new(wirings: Vec<Wiring>, connectors: Vec<Connector>) -> Host {
        Host {
            wirings,
            connectors,
            sessions: Vec::new(),
            written: Vec::new(),
            queue: RunQueue::new(),
        }
    }

    fn session(&mut self, agent: &AgentGroupId, thread: &Option<String>) -> SessionId {
        let key = (agent.clone(), thread.clone());
        let at = match self.sessions.iter().position(|held| *held == key) {
            Some(at) => at,
            None => {
                self.sessions.push(key);
                self.sessions.len() - 1
            }
        };
        SessionId::new(&format!("sess-{at}"))
    }

    fn route(&mut self, event: InboundEvent) -> RouteOutcome {
        let targets = resolve_targets(
            &event.channel_type,
            &MessagingGroupId::new("mg-1"),
            &self.wirings,
            &self.connectors,
        );
        let mut route = match Route::begin(event, targets) {
            RouteStart::Drop { .. } => return dropped(),
            RouteStart::Deliver(route) => route,
        };
        while let Some((target, plan)) = route.next() {
            let session = self.session(&target.agent_group_id, &plan.session_thread);
            self.written.push((session.clone(), plan));
            route.written(&mut self.queue, session);
        }
        route.finish()
    }
}

fn delivered(outcome: RouteOutcome) -> Vec<SessionId> {
    match outcome {
        RouteOutcome::Delivered { sessions } => sessions,
        RouteOutcome::Dropped { reason } => panic!("expected delivery, dropped: {reason}"),
    }
}

#[test]
fn wired_message_creates_session_writes_and_enqueues() {
    let mut host = Host::new(vec![wiring("ag-andy", SessionMode::Shared)], Vec::new());
    let sessions = delivered(host.route(chat_event("chat-1", None, "hello")));
    assert_eq!(sessions.len(), 1);
    assert_eq!(host.queue.snapshot(), sessions);

    assert_eq!(host.written.len(), 1);
    let routing = &host.written[0].1.message.routing;
    assert_eq!(routing.platform_id.as_deref(), Some("chat-1"));
    assert_eq!(routing.channel_type.as_deref(), Some("web"));
}

#[test]
fn group_chat_accumulates_until_mentioned() {
    let mut host = Host::new(vec![wiring("ag-andy", SessionMode::Shared)], Vec::new());
    delivered(host.route(group_event("room-1", "hi all", false)));
    assert!(
        host.queue.snapshot().is_empty(),
        "a non-mention group message must not enqueue"
    );
    assert_eq!(host.written.len(), 1);
    assert!(
        !host.written[0].1.message.trigger,
        "accumulated message keeps trigger=false"
    );

    host.route(group_event("room-1", "@andy deploy", true));
    assert_eq!(
        host.queue.snapshot().len(),
        1,
        "a mention must enqueue the session"
    );
    assert_eq!(host.written.len(), 2);
}

#[test]
fn every_target_is_reached_and_only_engaged_ones_run() {
    let mut always = wiring("ag-coder", SessionMode::Shared);
    always.engage_mode = EngageMode::Pattern;
    always.engage_pattern = Some("hi".to_owned());
    let wirings = vec![wiring("ag-andy", SessionMode::Shared), always];
    let mut host = Host::new(wirings, Vec::new());
    let sessions = delivered(host.route(group_event("room-1", "hi all", false)));
    assert_eq!(sessions.len(), 2, "one session for each target");
    assert_eq!(host.queue.snapshot(), vec![sessions[1].clone()]);
    assert!(!host.written[0].1.message.trigger);
    assert!(host.written[1].1.message.trigger);

    let targets = resolve_targets("web", &MessagingGroupId::new("mg-1"), &host.wirings, &Vec::new());
    let mut queue = RunQueue::new();
    let outcome = messages_reach_every_target(
        group_event("room-1", "@andy hi", true),
        targets,
        &sessions,
        &mut queue,
    );
    assert_eq!(delivered(outcome), sessions);
    assert_eq!(queue.snapshot(), sessions);
    let outcome = messages_reach_every_target(
        group_event("room-1", "hi", true),
        Vec::new(),
        &Vec::new(),
        &mut queue,
    );
    assert!(matches!(outcome, RouteOutcome::Dropped { .. }));
    assert_eq!(queue.snapshot(), sessions);
}

#[test]
fn second_message_reuses_the_shared_session() {
    let mut host = Host::new(vec![wiring("ag-andy", SessionMode::Shared)], Vec::new());
    let a = delivered(host.route(chat_event("chat-1", None, "one")));
    let b = delivered(host.route(chat_event("chat-1", Some("ignored-thread"), "two")));
    assert_eq!(a, b, "shared mode must reuse the session");
    assert_eq!(host.sessions.len(), 1);
}

#[test]
fn per_thread_wiring_separates_sessions_by_thread() {
    let mut host = Host::new(vec![wiring("ag-andy", SessionMode::PerThread)], Vec::new());
    let a = delivered(host.route(chat_event("chat-1", Some("t1"), "one")));
    let b = delivered(host.route(chat_event("chat-1", Some("t2"), "two")));
    assert_ne!(a, b, "threads must get separate sessions");
}

#[test]
fn an_unwired_sms_number_falls_back_to_the_connectors_agent() {
    let mut host = Host::new(Vec::new(), vec![sms_connector(true)]);
    let sessions = delivered(host.route(sms_event("+33612345678", "hello")));
    assert_eq!(sessions.len(), 1);
    assert_eq!(
        host.queue.snapshot(),
        sessions,
        "an SMS DM always engages and must enqueue"
    );
    let routing = &host.written[0].1.message.routing;
    assert_eq!(routing.channel_type.as_deref(), Some("sms"));
    assert_eq!(routing.platform_id.as_deref(), Some("+33612345678"));
}

#[test]
fn a_disabled_connector_still_drops_unwired_messages() {
    let mut host = Host::new(Vec::new(), vec![sms_connector(false)]);
    let outcome = host.route(sms_event("+33612345678", "hello"));
    assert_eq!(
        outcome,
        RouteOutcome::Dropped {
            reason: "no-wiring"
        }
    );
    assert!(host.queue.snapshot().is_empty());
}

#[test]
fn an_explicit_wiring_beats_the_connector_fallback() {
    let mut host = Host::new(
        vec![wiring("ag-coder", SessionMode::Shared)],
        vec![sms_connector(true)],
    );
    let sessions = delivered(host.route(sms_event("+33612345678", "hello")));
    assert_eq!(sessions.len(), 1, "the wiring wins; no fallback fan-out");
    assert_eq!(host.sessions[0].0, AgentGroupId::new("ag-coder"));
}

#[test]
fn unknown_chat_is_auto_created_and_unwired_messages_are_dropped() {
    let mut host = Host::new(Vec::new(), Vec::new());
    let outcome = host.route(chat_event("new-chat", None, "anyone?"));
    assert_eq!(
        outcome,
        RouteOutcome::Dropped {
            reason: "no-wiring"
        }
    );
    assert!(host.queue.snapshot().is_empty());
}

fn web_routing() -> Routing {
    Routing {
        channel_type: Some("web".to_owned()),
        platform_id: Some("chat-1".to_owned()),
        thread_id: None,
    }
}

fn reply(text: &str, routing: Routing) -> NewOutboundMessage {
    NewOutboundMessage::chat(OutboundContent::from_text(text).to_text(), routing)
}

/// A session with an outbox, and a channel that fails for a while.
struct Outbox {
    registry: AdapterRegistry,
    routing: Option<Routing>,
    due: Vec<OutboundMessage>,
    files: Vec<&'static str>,
    fail_first: u32,
    calls: u32,
    seen: Vec<(Address, OutboundDelivery)>,
    registered: Vec<QuestionDraft>,
    held: Vec<ApprovalDraft>,
    failed: Vec<MessageOutId>,
    attempts: Attempts,
}

impl Outbox {
    fn new(fail_first: u32) -> Outbox {
        Outbox {
            registry: AdapterRegistry::new(vec!["web".to_owned()]),
            routing: None,
            due: Vec::new(),
            files: Vec::new(),
            fail_first,
            calls: 0,
            seen: Vec::new(),
            registered: Vec::new(),
            held: Vec::new(),
            failed: Vec::new(),
            attempts: Attempts::new(),
        }
    }

    fn write(&mut self, new: NewOutboundMessage) {
        let n = self.due.len() as i64;
        self.due.push(OutboundMessage {
            id: MessageOutId::new(&format!("out-{n}")),
            seq: MessageSeq::new(2 * n + 1),
            in_reply_to: new.in_reply_to,
            kind: new.kind,
            timestamp: STAMP.to_owned(),
            routing: new.routing,
            content: new.content,
        });
    }

    fn deliver(&mut self, address: Address, delivery: OutboundDelivery) -> Result<Option<String>, ChannelError> {
        self.calls += 1;
        if self.calls <= self.fail_first {
            return Err(ChannelError::Delivery("simulated outage".to_owned()));
        }
        self.seen.push((address, delivery));
        Ok(Some(format!("pm-{}", self.calls)))
    }

    fn attempt(&mut self, message: &OutboundMessage) -> Result<Option<String>, String> {
        let mut step = begin_attempt(message, &Ok(self.routing.clone()));
        loop {
            step = match step {
                AttemptStep::Register { question, parcel } => {
                    self.registered.push(question);
                    after_register(parcel, Ok(()))
                }
                AttemptStep::Hold { approval, parcel } => {
                    self.held.push(approval);
                    after_register(parcel, Ok(()))
                }
                AttemptStep::Collect(parcel) => {
                    let files = self
                        .files
                        .iter()
                        .map(|name| OutboundFile {
                            name: (*name).to_owned(),
                            path: format!("/out/{name}"),
                        })
                        .collect();
                    after_collect(parcel, files, &self.registry)
                }
                AttemptStep::Send {
                    adapter,
                    address,
                    delivery,
                } => {
                    assert_eq!(adapter, 0);
                    return self.deliver(address, delivery).map_err(|e| e.message());
                }
                AttemptStep::Failed(reason) => return Err(reason),
            };
        }
    }

    fn drain(&mut self) {
        for message in std::mem::take(&mut self.due) {
            let result = self.attempt(&message);
            match conclude(&mut self.attempts, &message.id, result) {
                Conclusion::Delivered { .. } => self.attempts.forget(&message.id),
                Conclusion::Retry { .. } => self.due.push(message),
                Conclusion::GiveUp { .. } => {
                    self.attempts.forget(&message.id);
                    self.failed.push(message.id);
                }
            }
        }
    }
}

#[test]
fn due_message_is_delivered_once_and_ledgered() {
    let mut outbox = Outbox::new(0);
    outbox.write(reply("hello", web_routing()));
    outbox.drain();
    outbox.drain();
    assert_eq!(outbox.seen.len(), 1, "delivered exactly once");
    assert_eq!(outbox.seen[0].0.platform_id, "chat-1");
    assert_eq!(outbox.seen[0].1.content.text.as_deref(), Some("hello"));
    assert!(outbox.registered.is_empty());
}

#[test]
fn delivering_an_ask_question_registers_a_pending_question() {
    let mut outbox = Outbox::new(0);
    let content = OutboundContent {
        text: Some("Deploy now? (ship / wait)".to_owned()),
        files: Vec::new(),
        operation: Some(Operation::AskQuestion {
            question_id: "q-1".to_owned(),
            title: "Deploy now?".to_owned(),
            question: "Deploy now?".to_owned(),
            options: vec!["ship".to_owned(), "wait".to_owned()],
        }),
        extra: Vec::new(),
    };
    outbox.write(NewOutboundMessage::chat(content.to_text(), web_routing()));
    outbox.drain();
    let registered = outbox.registered.first().expect("registered");
    assert_eq!(registered.question_id, "q-1");
    assert_eq!(registered.routing.platform_id.as_deref(), Some("chat-1"));
    assert_eq!(
        registered.options,
        vec!["ship".to_owned(), "wait".to_owned()]
    );
    assert_eq!(outbox.seen.len(), 1);
}

#[test]
fn delivering_an_approval_holds_its_command() {
    let mut outbox = Outbox::new(0);
    let content = OutboundContent {
        operation: Some(Operation::Approval {
            approval_id: "ap-1".to_owned(),
            command: "groups-create".to_owned(),
            args: vec![("name".to_owned(), Json::Text("Coder".to_owned()))],
            summary: "run `groups-create`".to_owned(),
        }),
        ..OutboundContent::from_text("Requested owner approval.")
    };
    outbox.write(NewOutboundMessage::chat(content.to_text(), web_routing()));
    let AttemptStep::Hold { parcel, .. } = begin_attempt(&outbox.due[0], &Ok(None)) else {
        panic!("a command is kept first");
    };
    let step = after_register(parcel, Err("disk full".to_owned()));
    assert!(matches!(step, AttemptStep::Failed(reason) if reason == "disk full"));

    outbox.drain();
    let held = outbox.held.first().expect("held");
    assert_eq!(held.approval_id, "ap-1");
    assert_eq!(held.command, "groups-create");
    assert_eq!(
        held.args,
        vec![("name".to_owned(), Json::Text("Coder".to_owned()))]
    );
    assert_eq!(held.summary, "run `groups-create`");
    assert_eq!(held.routing, web_routing());
    assert_eq!(outbox.seen.len(), 1);
    assert!(outbox.registered.is_empty());
}

#[test]
fn session_routing_fills_in_missing_message_routing() {
    let mut outbox = Outbox::new(0);
    outbox.routing = Some(web_routing());
    outbox.write(reply("fallback", Routing::default()));
    outbox.drain();
    assert_eq!(outbox.seen.len(), 1);
    assert_eq!(outbox.seen[0].0.platform_id, "chat-1");
}

#[test]
fn undeliverable_messages_say_why() {
    let message = reply("lost", Routing::default());
    let Err(reason) = prepare(&message.routing, None, &message.content) else {
        panic!("nowhere to go");
    };
    assert_eq!(
        reason,
        "no destination: message and session routing are both empty"
    );
    assert!(prepare(&web_routing(), None, "not json").is_err());

    let mut outbox = Outbox::new(0);
    let mut elsewhere = web_routing();
    elsewhere.channel_type = Some("fax".to_owned());
    outbox.write(reply("lost", elsewhere));
    let message = outbox.due.remove(0);
    assert_eq!(
        outbox.attempt(&message),
        Err("no adapter registered for channel type \"fax\"".to_owned())
    );
    let step = begin_attempt(&message, &Err("database is locked".to_owned()));
    assert!(matches!(step, AttemptStep::Failed(reason) if reason == "database is locked"));
}

#[test]
fn a_question_that_cannot_be_registered_is_not_sent() {
    let content = OutboundContent {
        operation: Some(Operation::AskQuestion {
            question_id: "q-1".to_owned(),
            title: "?".to_owned(),
            question: "?".to_owned(),
            options: Vec::new(),
        }),
        ..OutboundContent::from_text("?")
    };
    let mut outbox = Outbox::new(0);
    outbox.write(NewOutboundMessage::chat(content.to_text(), web_routing()));
    let AttemptStep::Register { parcel, .. } = begin_attempt(&outbox.due[0], &Ok(None)) else {
        panic!("a question is registered first");
    };
    let step = after_register(parcel, Err("disk full".to_owned()));
    assert!(matches!(step, AttemptStep::Failed(reason) if reason == "disk full"));
}

#[test]
fn outbox_files_are_attached_and_cleaned_up() {
    let mut outbox = Outbox::new(0);
    outbox.files = vec!["notes.txt", "chart.png"];
    outbox.write(reply("with file", web_routing()));
    outbox.drain();
    let files = &outbox.seen[0].1.files;
    assert_eq!(files.len(), 2);
    assert_eq!(files[0].name, "chart.png");
    assert_eq!(files[1].path, "/out/notes.txt");
    assert!(sort_files(Vec::new()).is_empty());
}

#[test]
fn transient_failures_retry_then_succeed() {
    let mut outbox = Outbox::new(2);
    outbox.write(reply("eventually", web_routing()));
    for _ in 0..3 {
        outbox.drain();
    }
    assert_eq!(outbox.seen.len(), 1, "third attempt must succeed");

    let mut attempts = Attempts::new();
    let id = MessageOutId::new("out-1");
    assert_eq!(attempts.failed(&id), Verdict::Retry(1));
    assert_eq!(attempts.failed(&id), Verdict::Retry(2));
    attempts.forget(&id);
    assert_eq!(attempts.failed(&id), Verdict::Retry(1));
}

#[test]
fn persistent_failures_mark_the_message_failed_at_three_attempts() {
    let mut outbox = Outbox::new(u32::MAX);
    outbox.write(reply("doomed", web_routing()));
    for _ in 0..5 {
        outbox.drain();
    }
    assert_eq!(outbox.calls, 3);
    assert_eq!(outbox.failed.len(), 1);
    assert!(outbox.due.is_empty());
}

#[test]
fn a_count_stays_until_the_outcome_is_written_down() {
    let mut attempts = Attempts::new();
    let id = MessageOutId::new("out-1");
    let lost = || Err("simulated outage".to_owned());
    assert!(matches!(conclude(&mut attempts, &id, lost()), Conclusion::Retry { attempts: 1, .. }));
    assert!(matches!(conclude(&mut attempts, &id, lost()), Conclusion::Retry { attempts: 2, .. }));
    // A delivery whose mark was not written is tried again, and counts on.
    let sent = conclude(&mut attempts, &id, Ok(None));
    assert!(matches!(sent, Conclusion::Delivered { .. }));
    assert!(matches!(conclude(&mut attempts, &id, lost()), Conclusion::GiveUp { .. }));
    assert_eq!(given_up_until_written(&mut attempts, &id), Verdict::GiveUp);
    attempts.forget(&id);
    assert!(matches!(conclude(&mut attempts, &id, lost()), Conclusion::Retry { attempts: 1, .. }));
}

#[test]
fn failures_of_one_message_do_not_count_for_another() {
    let mut attempts = Attempts::new();
    let id = MessageOutId::new("out-1");
    let other = MessageOutId::new("out-2");
    assert_eq!(attempts.failed(&other), Verdict::Retry(1));
    let verdicts = three_strikes(&mut attempts, &id);
    assert_eq!(
        verdicts,
        (Verdict::Retry(1), Verdict::Retry(2), Verdict::GiveUp)
    );
    assert_eq!(attempts.failed(&other), Verdict::Retry(2));
}

#[test]
fn resolve_address_prefers_message_fields() {
    let message = Routing {
        channel_type: Some("web".to_owned()),
        platform_id: Some("explicit".to_owned()),
        thread_id: None,
    };
    let default = Routing {
        channel_type: Some("telegram".to_owned()),
        platform_id: Some("default".to_owned()),
        thread_id: Some("t1".to_owned()),
    };
    let (channel, address) = resolve_address(&message, Some(&default)).expect("resolvable");
    assert_eq!(channel, "web");
    assert_eq!(address.platform_id, "explicit");
    assert_eq!(address.thread_id.as_deref(), Some("t1"));
    assert_eq!(resolve_address(&Routing::default(), None), None);
}
