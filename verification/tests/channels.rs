use claw::channels::sms::protocol::{
    advance_cursor, render_sms, to_gsm7_safe, to_inbound_event, SmsMessage, CHANNEL_TYPE,
};
use claw::channels::sms::poller::{PollAction, PollEvent, Poller};
use claw::channels::sms::{
    backoff_delay, log_poll_error, Poll, PollError, PollLog, Reply, SmsChannel, MAX_BACKOFF,
};
use claw::channels::web::{ledger_row, AGENT_SENDER};
use claw::channels::{
    build_adapters, Address, AdapterRegistry, ChannelError, OutboundDelivery, OutboundFile,
};
use claw::db::connectors::Connector;
use claw::db::web_messages::{Direction, MessageRowKind};
use claw::json::Json;
use claw::protocol::content::{InboundContent, Operation, OutboundContent};
use claw::protocol::entities::{ConnectorConfig, SmsConnectorConfig};
use claw::protocol::ids::{AgentGroupId, ConnectorId, MessagingGroupId};
use claw::protocol::message::MessageKind;
use claw::router::InboundEvent;

fn sms(seq: Option<i64>, phone: &str, content: &str) -> SmsMessage {
    SmsMessage {
        index: "7".to_owned(),
        seq,
        status: "0".to_owned(),
        phone: phone.to_owned(),
        content: content.to_owned(),
        date: "2026-06-12 17:25:25".to_owned(),
    }
}

fn decoded(json: &str) -> SmsMessage {
    SmsMessage::decode(&Json::parse(json).expect("json")).expect("parse")
}

fn config() -> SmsConnectorConfig {
    SmsConnectorConfig {
        base_url: "http://sim:8080".to_owned(),
        token: "sms_secret".to_owned(),
        webhook_secret: None,
    }
}

fn channel() -> SmsChannel {
    SmsChannel::new(&config()).with_poll_interval(20)
}

fn chat_delivery(text: &str) -> OutboundDelivery {
    OutboundDelivery {
        kind: "chat".to_owned(),
        content: OutboundContent::from_text(text),
        files: Vec::new(),
    }
}

fn address(phone: &str) -> Address {
    Address {
        platform_id: phone.to_owned(),
        thread_id: None,
    }
}

/// What the gateway answers to a poll: the messages after the cursor.
fn answer(store: &[(i64, &str, &str)], after: i64) -> Reply {
    let rows: Vec<String> = store
        .iter()
        .filter(|(seq, _, _)| *seq > after)
        .map(|(seq, phone, content)| {
            format!(
                r#"{{"Index":"{seq}","Seq":{seq},"Smstat":"0","Phone":"{phone}","Content":"{content}","Date":"2026-06-12 18:00:00"}}"#
            )
        })
        .collect();
    Reply {
        status: 200,
        status_line: "200 OK".to_owned(),
        body: format!("[{}]", rows.join(",")),
    }
}

/// Works a poll off: every event, and the cursors in the order in which they are kept.
fn work_off(cursor: i64, messages: Vec<SmsMessage>) -> (Vec<InboundEvent>, Vec<i64>) {
    let mut poll = Poll::new(cursor, messages);
    let mut events = Vec::new();
    let mut kept = Vec::new();
    while !poll.is_done() {
        events.extend(poll.event());
        kept.extend(poll.advance());
    }
    (events, kept)
}

#[test]
fn a_reported_message_may_be_a_list_of_its_fields() {
    let message = decoded(r#"["7",12,"0","+33612345678","hello"]"#);
    assert_eq!(message.seq, Some(12));
    assert_eq!((message.phone.as_str(), message.content.as_str()), ("+33612345678", "hello"));
    assert_eq!(message.date, "");
    let long = Json::parse(r#"["7",12,"0","+336","hello","today",1]"#).expect("json");
    assert!(SmsMessage::decode(&long).is_none());
}

#[test]
fn payload_parses_with_sim_server_field_names() {
    let json = r#"{"Index":"47","Seq":48,"Smstat":"0","Phone":"+33612345678",
                       "Content":"hello","Date":"2026-06-12 17:25:25"}"#;
    let message = decoded(json);
    assert_eq!(message.seq, Some(48));
    assert_eq!(message.phone, "+33612345678");
    assert_eq!(message.content, "hello");
}

#[test]
fn payload_tolerates_missing_fields() {
    let message = decoded("{}");
    assert_eq!(message.seq, None);
    assert_eq!(message.phone, "");
}

#[test]
fn to_inbound_event_maps_the_phone_to_the_conversation() {
    let event = to_inbound_event(&sms(Some(48), "+33612345678", "hello")).expect("routable");
    assert_eq!(event.channel_type, "sms");
    assert_eq!(event.platform_id, "+33612345678");
    assert_eq!(event.thread_id, None);
    assert_eq!(event.kind, MessageKind::Chat);
    assert!(!event.is_group);
    assert!(!event.is_mention);
    let Ok(InboundContent::Chat(chat)) = InboundContent::parse("chat", &event.content) else {
        panic!("chat json");
    };
    assert_eq!(chat.sender, "+33612345678");
    assert_eq!(chat.text, "hello");
    assert!(!chat.is_from_me);
}

#[test]
fn blank_content_or_sender_is_skipped() {
    assert_eq!(to_inbound_event(&sms(Some(1), "+336", "   ")), None);
    assert_eq!(to_inbound_event(&sms(Some(1), "  ", "hello")), None);
}

#[test]
fn read_and_unread_both_route() {
    for status in ["0", "1"] {
        let mut message = sms(Some(1), "+336", "hello");
        message.status = status.to_owned();
        assert!(
            to_inbound_event(&message).is_some(),
            "Smstat {status} must route: the cursor tells messages apart, not read state"
        );
    }
}

#[test]
fn advance_cursor_is_monotonic_and_ignores_missing_seq() {
    let cases: &[(i64, Vec<Option<i64>>, i64)] = &[
        (0, vec![], 0),
        (48, vec![Some(49), Some(50)], 50),
        (48, vec![None], 48),
        (48, vec![Some(50), None, Some(49)], 50),
        (48, vec![Some(3)], 48),
    ];
    for (start, seqs, expected) in cases {
        let messages: Vec<SmsMessage> = seqs.iter().map(|seq| sms(*seq, "+336", "x")).collect();
        assert_eq!(
            advance_cursor(*start, &messages),
            *expected,
            "start={start} seqs={seqs:?}"
        );
    }
}

fn delivery(content: OutboundContent, file_count: usize) -> OutboundDelivery {
    OutboundDelivery {
        kind: "chat".to_owned(),
        content,
        files: (0..file_count)
            .map(|n| OutboundFile {
                name: format!("file-{n}.png"),
                path: format!("/tmp/file-{n}.png"),
            })
            .collect(),
    }
}

#[test]
fn gsm7_safe_transliterates_accents_and_drops_emoji() {
    let cases: &[(&str, &str)] = &[
        ("plain ascii", "plain ascii"),
        ("café déjà vu", "cafe deja vu"),
        ("Ça coûte 5€", "Ca coute 5EUR"),
        (
            "\u{201C}quote\u{201D} \u{2014} dash\u{2026}",
            "\"quote\" - dash...",
        ),
        ("done \u{2705} ok \u{2713}", "done  ok [ok]"),
        ("emoji \u{1F600}\u{1F44D} gone", "emoji  gone"),
        ("Œuvre n°1", "OEuvre n deg1"),
    ];
    for (input, expected) in cases {
        let got = to_gsm7_safe(input);
        assert!(got.is_ascii(), "output must be pure ASCII: {got:?}");
        assert_eq!(&got, expected, "input={input:?}");
        assert_eq!(to_gsm7_safe(&got), got);
    }
}

#[test]
fn render_sms_output_is_always_ascii() {
    let d = OutboundDelivery {
        kind: "chat".to_owned(),
        content: OutboundContent::from_text("Réponse: déployé ✅ à 22°C"),
        files: Vec::new(),
    };
    let out = render_sms(&d);
    assert!(out.is_ascii(), "render_sms must yield ASCII: {out:?}");
    assert_eq!(out, "Reponse: deploye  a 22 degC");
}

#[test]
fn render_sms_covers_every_outbound_shape() {
    let question = |text: Option<&str>| OutboundContent {
        text: text.map(str::to_owned),
        operation: Some(Operation::AskQuestion {
            question_id: "q1".to_owned(),
            title: "Deploy".to_owned(),
            question: "Deploy now?".to_owned(),
            options: vec!["ship".to_owned(), "wait".to_owned()],
        }),
        ..OutboundContent::from_text("")
    };
    let question_with_text = question(Some("Deploy now? (ship / wait)"));
    let bare_question = question(None);
    let approval = OutboundContent {
        operation: Some(Operation::Approval {
            approval_id: "a1".to_owned(),
            command: "groups-create".to_owned(),
            args: Vec::new(),
            summary: "create agent Coder".to_owned(),
        }),
        ..OutboundContent::from_text("")
    };
    let cases: Vec<(&str, OutboundContent, usize, &str)> = vec![
        ("chat", OutboundContent::from_text("hello"), 0, "hello"),
        (
            "question keeps its text rendering",
            question_with_text,
            0,
            "Deploy now? (ship / wait)",
        ),
        (
            "bare question is composed",
            bare_question,
            0,
            "Deploy now? (ship / wait)",
        ),
        (
            "approval points at the web admin",
            approval,
            0,
            "[approval needed - use the web admin] create agent Coder",
        ),
        (
            "files become a note",
            OutboundContent::from_text("chart attached"),
            1,
            "chart attached\n[1 attachment not deliverable over SMS]",
        ),
        (
            "files-only message is just the note",
            OutboundContent::from_text(""),
            2,
            "[2 attachments not deliverable over SMS]",
        ),
    ];
    for (name, content, files, expected) in cases {
        assert_eq!(
            render_sms(&delivery(content, files)),
            expected,
            "{name}"
        );
    }
}

/// A gateway that is polled, and the one place where a position is stored.
struct Gateway {
    store: Vec<(i64, &'static str, &'static str)>,
    stored: Option<i64>,
    asked: Vec<i64>,
    events: Vec<InboundEvent>,
}

impl Gateway {
    /// Goes on until the next poll is waited for.
    fn settle(&mut self, poller: Poller) -> Poller {
        let mut poller = poller;
        loop {
            let event = match poller.action() {
                PollAction::Load => PollEvent::Loaded(Ok(self.stored)),
                PollAction::Fetch { cursor } => {
                    self.asked.push(cursor);
                    PollEvent::Fetched(SmsChannel::read_poll(&answer(&self.store, cursor)))
                }
                PollAction::Wait { millis } => {
                    assert_eq!(millis, 20);
                    return poller;
                }
                PollAction::Route(event) => {
                    self.events.push(event);
                    PollEvent::Routed(true)
                }
                PollAction::Store { cursor } => {
                    self.stored = Some(cursor);
                    PollEvent::Stored
                }
                PollAction::Stop => panic!("nothing stops polling"),
            };
            poller = poller.advance(event);
        }
    }
}

#[test]
fn first_run_skips_history_then_routes_new_messages() {
    let mut gateway = Gateway {
        store: vec![
            (47, "+33611111111", "old one"),
            (48, "+33611111111", "old two"),
        ],
        stored: None,
        asked: Vec::new(),
        events: Vec::new(),
    };
    let poller = gateway.settle(Poller::new(channel().poll_interval));
    assert_eq!(gateway.stored, Some(48));
    assert!(gateway.events.is_empty(), "history must not be routed");

    gateway.store.push((49, "+33622222222", "fresh"));
    gateway.settle(poller.advance(PollEvent::Waited));
    assert_eq!(gateway.events.len(), 1);
    assert_eq!(gateway.events[0].channel_type, "sms");
    assert_eq!(gateway.events[0].platform_id, "+33622222222");
    assert!(gateway.events[0].content.contains("fresh"));
    assert_eq!(gateway.stored, Some(49));
}

#[test]
fn restart_resumes_from_the_persisted_cursor() {
    let mut gateway = Gateway {
        store: vec![
            (47, "+336", "before"),
            (48, "+336", "before too"),
            (49, "+336", "after restart"),
        ],
        stored: Some(48),
        asked: Vec::new(),
        events: Vec::new(),
    };
    let poller = gateway.settle(Poller::new(channel().poll_interval));
    gateway.settle(poller.advance(PollEvent::Waited));
    assert_eq!(gateway.events.len(), 1, "47/48 must not replay");
    assert!(
        gateway.events[0].content.contains("after restart"),
        "only seq > 48 must route, got {}",
        gateway.events[0].content
    );
    assert_eq!(gateway.stored, Some(49));
    assert!(
        gateway.asked.iter().all(|after| *after >= 48),
        "polling must resume from the stored cursor, not replay history"
    );
    assert_eq!(
        channel().poll_url(48),
        "http://sim:8080/api/messages?after_seq=48"
    );
}

#[test]
fn a_message_is_passed_only_once_the_router_has_it() {
    let poller = Poller::new(20)
        .advance(PollEvent::Loaded(Ok(Some(5))))
        .advance(PollEvent::Waited)
        .advance(PollEvent::Fetched(Ok(vec![
            sms(Some(6), "+336", "   "),
            sms(Some(7), "+336", "hello"),
        ])));
    assert!(matches!(poller.action(), PollAction::Store { cursor: 6 }));
    let poller = poller.advance(PollEvent::Stored);
    assert!(matches!(poller.action(), PollAction::Route(_)));
    let gone = poller.advance(PollEvent::Routed(false));
    assert!(matches!(gone.action(), PollAction::Stop));
}

#[test]
fn failed_polls_wait_longer_and_a_good_one_resets() {
    let fetching = Poller::new(2000)
        .advance(PollEvent::Loaded(Ok(Some(5))))
        .advance(PollEvent::Waited);
    let down = PollEvent::Fetched(Err(PollError::Transport("down".to_owned())));
    assert_eq!(fetching.log(&down), PollLog::Failed);
    let waiting = fetching.advance(down);
    assert!(matches!(waiting.action(), PollAction::Wait { millis: 4000 }));
    let refused = PollEvent::Fetched(Err(PollError::Unauthorized));
    let fetching = waiting.advance(PollEvent::Waited);
    assert_eq!(fetching.log(&refused), PollLog::Quiet);
    let waiting = fetching.advance(refused);
    assert!(matches!(waiting.action(), PollAction::Wait { millis: 8000 }));
    let waiting = waiting
        .advance(PollEvent::Waited)
        .advance(PollEvent::Fetched(Ok(Vec::new())));
    assert!(matches!(waiting.action(), PollAction::Wait { millis: 2000 }));

    let resting = Poller::new(2000).advance(PollEvent::Loaded(Err("locked".to_owned())));
    assert!(matches!(resting.action(), PollAction::Wait { millis: 4000 }));
    let again = resting.advance(PollEvent::Waited);
    assert!(matches!(again.action(), PollAction::Load));
}

#[test]
fn a_poll_works_its_messages_off_one_by_one() {
    let (events, kept) = work_off(
        5,
        vec![
            sms(Some(7), "+336", "first"),
            sms(None, "+336", "second"),
            sms(Some(6), "+336", "third"),
            sms(Some(8), "", "fourth"),
        ],
    );
    assert_eq!(events.len(), 3);
    assert_eq!(kept, [7, 8]);
}

#[test]
fn a_failed_poll_is_told_apart() {
    let refused = Reply {
        status: 401,
        status_line: "401 Unauthorized".to_owned(),
        body: String::new(),
    };
    assert_eq!(
        SmsChannel::read_poll(&refused),
        Err(PollError::Unauthorized)
    );
    let broken = Reply {
        status: 503,
        status_line: "503 Service Unavailable".to_owned(),
        body: String::new(),
    };
    assert!(matches!(
        SmsChannel::read_poll(&broken),
        Err(PollError::Transport(_))
    ));
    let garbled = Reply {
        status: 200,
        status_line: "200 OK".to_owned(),
        body: "nope".to_owned(),
    };
    assert!(matches!(
        SmsChannel::read_poll(&garbled),
        Err(PollError::Transport(_))
    ));
    let mut failures = 0;
    assert_eq!(
        log_poll_error(&PollError::Unauthorized, &mut failures),
        PollLog::TokenRefused
    );
    assert_eq!(failures, 1);
    assert_eq!(
        log_poll_error(&PollError::Transport("down".to_owned()), &mut failures),
        PollLog::Failed
    );
    assert_eq!(failures, 2);
    assert_eq!(
        log_poll_error(&PollError::Unauthorized, &mut failures),
        PollLog::Quiet
    );
}

#[test]
fn deliver_posts_the_rendered_text_with_bearer_auth() {
    let adapter = channel();
    let (url, body) = adapter
        .send_request(&address("+33612345678"), &chat_delivery("hello"))
        .expect("deliver");
    assert_eq!(url, "http://sim:8080/api/messages");
    assert_eq!(adapter.token, "sms_secret");
    assert_eq!(body, r#"{"content":"hello","phone":"+33612345678"}"#);
    assert_eq!(
        SmsChannel::read_send(200, "200 OK"),
        Ok(None),
        "sim-server returns no message id"
    );
}

#[test]
fn a_500_from_sim_server_is_a_delivery_error() {
    let adapter = channel();
    assert!(adapter
        .send_request(&address("+336"), &chat_delivery("doomed"))
        .is_some());
    let error = SmsChannel::read_send(500, "500 Internal Server Error").expect_err("must fail");
    assert!(
        matches!(error, ChannelError::Delivery(_)),
        "{}",
        error.message()
    );
}

#[test]
fn an_empty_render_is_skipped_without_a_request() {
    let result = channel().send_request(&address("+336"), &chat_delivery(""));
    assert_eq!(result, None);
}

#[test]
fn backoff_doubles_and_caps() {
    let base = 2 * 1000;
    let cases: &[(u32, u64)] = &[(0, 2), (1, 4), (2, 8), (3, 16), (4, 30), (10, 30)];
    for (failures, expected_secs) in cases {
        assert_eq!(
            backoff_delay(base, *failures),
            *expected_secs * 1000,
            "failures={failures}"
        );
    }
    assert_eq!(backoff_delay(base, u32::MAX), MAX_BACKOFF);
}

fn connector(enabled: bool) -> Connector {
    Connector {
        id: ConnectorId::new("conn-1"),
        label: None,
        config: ConnectorConfig::Sms(config()),
        agent_group_id: AgentGroupId::new("ag-andy"),
        enabled,
        created_at: "2026-06-12T00:00:00.000Z".to_owned(),
    }
}

#[test]
fn build_adapters_skips_disabled_connectors() {
    let disabled = build_adapters(&vec![connector(false)]);
    assert!(disabled.is_empty(), "disabled rows must not build adapters");

    let enabled = build_adapters(&vec![connector(true)]);
    assert_eq!(enabled.len(), 1);
    assert_eq!(enabled[0].channel_type(), "sms");
    assert!(!enabled[0].supports_threads());
}

#[test]
fn adapters_are_found_by_their_channel() {
    let registry = AdapterRegistry::new(vec!["web".to_owned(), CHANNEL_TYPE.to_owned()]);
    assert_eq!(registry.get("sms"), Ok(1));
    let error = registry.get("fax").expect_err("unknown");
    assert_eq!(error, ChannelError::UnknownChannel("fax".to_owned()));
}

#[test]
fn deliver_appends_to_ledger_and_publishes_sse() {
    let chat = MessagingGroupId::new("mg-1");
    let row = ledger_row(&address("chat-1"), Some(&chat), &chat_delivery("hi there"))
        .expect("deliver");
    assert_eq!(row.messaging_group_id, chat);
    assert!(row.body.contains("hi there"));
    assert_eq!(row.kind, MessageRowKind::Chat);
    assert_eq!(row.sender, AGENT_SENDER);
    assert_eq!(row.direction, Direction::Out);
}

#[test]
fn deliver_ask_question_renders_a_card_row_and_sse() {
    let chat = MessagingGroupId::new("mg-1");
    let delivery = OutboundDelivery {
        kind: "chat".to_owned(),
        content: OutboundContent {
            text: Some("Deploy now? (ship / wait)".to_owned()),
            files: Vec::new(),
            operation: Some(Operation::AskQuestion {
                question_id: "q-1".to_owned(),
                title: "Deploy now?".to_owned(),
                question: "Deploy now?".to_owned(),
                options: vec!["ship".to_owned(), "wait".to_owned()],
            }),
            extra: Vec::new(),
        },
        files: Vec::new(),
    };
    let card = ledger_row(&address("chat-1"), Some(&chat), &delivery).expect("deliver");
    assert_eq!(card.kind, MessageRowKind::Question);
    assert_eq!(card.question_id.as_deref(), Some("q-1"));
    assert_eq!(card.options_json.as_deref(), Some(r#"["ship","wait"]"#));
}

#[test]
fn deliver_to_unknown_chat_fails() {
    assert!(ledger_row(&address("nope"), None, &chat_delivery("x")).is_err());
}
