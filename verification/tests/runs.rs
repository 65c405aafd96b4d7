use claw::protocol::content::{OutboundContent, Routing};
use claw::protocol::ids::{MessageInId, SessionId};
use claw::protocol::message::{MessageSeq, MessageStatus};
use claw::providers::echo::EchoProvider;
use claw::providers::{ProviderError, ProviderEvent};
use claw::runs::formatter::{escape_attr, escape_text, format_batch};
use claw::runs::supervisor::{
    consume_run, draft_prompt, RunAction, RunError, RunEvent, RunningBatch, SessionRun,
};
use claw::session::{InboundMessage, NewOutboundMessage};

fn message(seq: i64, kind: &str, content: &str) -> InboundMessage {
    InboundMessage {
        id: MessageInId::new(&format!("in-{seq}")),
        seq: MessageSeq::new(seq),
        kind: kind.to_owned(),
        timestamp: "2026-06-11T16:05:00Z".to_owned(),
        status: MessageStatus::Pending,
        process_after: None,
        recurrence: None,
        series_id: None,
        tries: 0,
        trigger: true,
        routing: Routing {
            channel_type: Some("web".to_owned()),
            platform_id: Some("secret-platform-id".to_owned()),
            thread_id: Some("secret-thread".to_owned()),
        },
        content: content.to_owned(),
        source_session_id: None,
    }
}

#[test]
fn header_carries_the_timezone_and_routing_is_never_emitted() {
    let batch = vec![message(0, "chat", r#"{"sender":"John","text":"hello"}"#)];
    let output = format_batch(&batch, "UTC");
    assert!(output.starts_with("<context timezone=\"UTC\" />"));
    assert!(!output.contains("secret-platform-id"));
    assert!(!output.contains("secret-thread"));
}

#[test]
fn chat_message_renders_with_local_time_quote_and_attachment() {
    let content = r#"{
            "sender": "John",
            "text": "check this PR",
            "attachments": [{"name":"data.xlsx","path":"/data/sessions/ag/s/inbox/in-0/data.xlsx"}],
            "quoted": {"sender":"Jane","text":"did you see the feedback?"}
        }"#;
    let output = format_batch(&vec![message(0, "chat", content)], "America/Los_Angeles");
    let expected = "<context timezone=\"America/Los_Angeles\" />\n\n\
            <message id=\"0\" sender=\"John\" time=\"2026-06-11 09:05\">\n\
            check this PR\n\
            <quoted_message from=\"Jane\">did you see the feedback?</quoted_message>\n\
            [file available at: /data/sessions/ag/s/inbox/in-0/data.xlsx]\n\
            </message>";
    assert_eq!(output, expected);
}

#[test]
fn multiple_chats_group_under_a_single_block() {
    let batch = vec![
        message(0, "chat", r#"{"sender":"A","text":"first"}"#),
        message(2, "chat", r#"{"sender":"B","text":"second"}"#),
    ];
    let output = format_batch(&batch, "UTC");
    assert_eq!(output.matches("<message ").count(), 2);
    // One blank line after the header, none between the grouped messages.
    assert_eq!(output.matches("\n\n").count(), 1);
    assert!(
        output.find("first").unwrap() < output.find("second").unwrap(),
        "messages keep batch order"
    );
}

#[test]
fn task_webhook_and_system_each_render_their_own_block() {
    let task = format_batch(
        &vec![message(
            0,
            "task",
            r#"{"prompt":"review open PRs","script":"./pre.sh"}"#,
        )],
        "UTC",
    );
    assert!(task.contains("<task>"));
    assert!(task.contains("Script:\n./pre.sh"));
    assert!(task.contains("Instructions:\nreview open PRs"));

    let webhook = format_batch(
        &vec![message(
            0,
            "webhook",
            r#"{"source":"github","event":"pull_request","payload":{"number":7}}"#,
        )],
        "UTC",
    );
    assert!(webhook.contains("<webhook source=\"github\" event=\"pull_request\">"));
    assert!(webhook.contains("\"number\":7"));

    let system = format_batch(
        &vec![message(
            0,
            "system",
            r#"{"action":"create_agent","status":"success","result":{"id":"ag-1"}}"#,
        )],
        "UTC",
    );
    assert!(system.contains("<system_response action=\"create_agent\" status=\"success\">"));
}

#[test]
fn text_with_markup_is_escaped() {
    let output = format_batch(
        &vec![message(
            0,
            "chat",
            r#"{"sender":"A","text":"1 < 2 & <b>x</b>"}"#,
        )],
        "UTC",
    );
    assert!(output.contains("1 &lt; 2 &amp; &lt;b&gt;x&lt;/b&gt;"));
    assert_eq!(escape_text("a\"b"), "a\"b");
    assert_eq!(escape_attr("a\"b"), "a&quot;b");
}

#[test]
fn escaping_goes_part_by_part() {
    let (left, right) = ("1 < 2 &", " <b>");
    assert_eq!(escape_text("1 < 2 & <b>"), "1 &lt; 2 &amp; &lt;b&gt;");
    assert_eq!(
        escape_text(&format!("{left}{right}")),
        escape_text(left) + &escape_text(right)
    );
    let undone = escape_attr("\"a\" &lt; b")
        .replace("&lt;", "<")
        .replace("&gt;", ">")
        .replace("&quot;", "\"")
        .replace("&amp;", "&");
    assert_eq!(undone, "\"a\" &lt; b");
}

#[test]
fn unparseable_content_falls_back_to_a_kind_tagged_block() {
    let output = format_batch(&vec![message(0, "chat", "not json")], "UTC");
    assert!(output.contains("<message kind=\"chat\">"));
    assert!(output.contains("not json"));
}

fn chat(seq: i64, text: &str) -> InboundMessage {
    message(
        seq,
        "chat",
        &format!("{{\"sender\":\"you\",\"text\":\"{text}\"}}"),
    )
}

/// A session in memory: the messages that wait, those that come later, and those
/// that were sent.
struct Inbox {
    waiting: Vec<InboundMessage>,
    later: Vec<InboundMessage>,
    sent: Vec<NewOutboundMessage>,
    marks: Vec<(MessageInId, MessageStatus)>,
    touched: bool,
}

impl Inbox {
    fn new(waiting: Vec<InboundMessage>) -> Inbox {
        Inbox {
            waiting,
            later: Vec::new(),
            sent: Vec::new(),
            marks: Vec::new(),
            touched: false,
        }
    }

    /// Runs the session to its end; `answer` gives the events of a run.
    fn run(&mut self, answer: impl Fn(&str) -> Vec<ProviderEvent>) {
        self.try_run(|prompt| Ok(answer(prompt))).expect("run");
    }

    /// Runs the session to its end; `start` gives the events of a run, or why it
    /// did not start.
    fn try_run(
        &mut self,
        start: impl Fn(&str) -> Result<Vec<ProviderEvent>, ProviderError>,
    ) -> Result<(), RunError> {
        let mut run = SessionRun::new();
        let mut taken: Vec<InboundMessage> = Vec::new();
        let mut stream: Vec<ProviderEvent> = Vec::new();
        loop {
            let event = match run.action() {
                RunAction::Fetch { limit } => RunEvent::Fetched(
                    self.waiting.iter().take(limit as usize).cloned().collect(),
                ),
                RunAction::Start { ids, prompt } => {
                    for id in ids {
                        self.marks.push((id.clone(), MessageStatus::Processing));
                    }
                    taken = self.waiting.clone();
                    taken.retain(|m| ids.contains(&m.id));
                    self.waiting.retain(|m| !ids.contains(&m.id));
                    self.waiting.append(&mut self.later);
                    match start(prompt) {
                        Ok(events) => {
                            stream = events;
                            RunEvent::Started
                        }
                        Err(error) => RunEvent::StartFailed(error),
                    }
                }
                RunAction::Release { ids } => {
                    for id in ids {
                        self.marks.push((id.clone(), MessageStatus::Pending));
                    }
                    taken.retain(|m| ids.contains(&m.id));
                    self.waiting.append(&mut taken);
                    RunEvent::Released
                }
                RunAction::Await => {
                    if stream.is_empty() {
                        RunEvent::Ended
                    } else {
                        RunEvent::Reported(stream.remove(0))
                    }
                }
                RunAction::Settle { ids, reply, status } => {
                    self.sent.extend(reply.cloned());
                    for id in ids {
                        self.marks.push((id.clone(), status));
                    }
                    RunEvent::Settled
                }
                RunAction::Touch => {
                    self.touched = true;
                    RunEvent::Touched
                }
                RunAction::Stop => return Ok(()),
                RunAction::Fail { error } => {
                    return Err(match error {
                        RunError::UnknownSession(id) => RunError::UnknownSession(id.clone()),
                        RunError::Provider(ProviderError::Spawn(reason)) => {
                            RunError::Provider(ProviderError::Spawn(reason.clone()))
                        }
                    });
                }
            };
            run = run.advance(event);
        }
    }

    fn last_mark(&self) -> MessageStatus {
        self.marks.last().expect("marked").1
    }
}

fn echo(prompt: &str) -> Vec<ProviderEvent> {
    vec![
        ProviderEvent::Activity,
        EchoProvider.turn(prompt.to_owned()),
    ]
}

#[test]
fn echo_run_completes_batch_and_writes_reply() {
    let mut inbox = Inbox::new(vec![chat(0, "hello"), chat(2, "world")]);
    inbox.run(echo);
    assert!(inbox.waiting.is_empty());
    assert!(inbox.touched);
    assert_eq!(inbox.marks.len(), 4);
    assert_eq!(inbox.last_mark(), MessageStatus::Completed);
    assert_eq!(inbox.sent.len(), 1);
    let content = OutboundContent::parse(&inbox.sent[0].content).expect("content");
    assert_eq!(content.text.as_deref(), Some("hello\nworld"));
    assert_eq!(inbox.sent[0].in_reply_to, Some(MessageInId::new("in-0")));
}

#[test]
fn unavailable_provider_leaves_messages_pending() {
    let mut inbox = Inbox::new(vec![chat(0, "hello")]);
    let err = inbox
        .try_run(|_| Err(ProviderError::Spawn("no endpoint".to_owned())))
        .expect_err("native has no inference");
    assert!(matches!(err, RunError::Provider(_)));
    assert_eq!(
        err.message(),
        "failed to start agent run: no endpoint"
    );
    assert_eq!(inbox.waiting.len(), 1);
    assert_eq!(inbox.last_mark(), MessageStatus::Pending);
    assert!(inbox.sent.is_empty());
    assert!(!inbox.touched);
}

#[test]
fn provider_error_event_marks_the_batch_failed() {
    let mut inbox = Inbox::new(vec![chat(0, "hello")]);
    inbox.run(|_| {
        vec![ProviderEvent::Error {
            message: "boom".to_owned(),
            retryable: false,
        }]
    });
    assert!(inbox.waiting.is_empty());
    assert_eq!(inbox.last_mark(), MessageStatus::Failed);
    assert!(inbox.sent.is_empty());
}

#[test]
fn a_stream_that_ends_early_marks_the_batch_failed() {
    let mut inbox = Inbox::new(vec![chat(0, "hello")]);
    inbox.run(|_| vec![ProviderEvent::Activity]);
    assert_eq!(inbox.last_mark(), MessageStatus::Failed);
    assert!(inbox.sent.is_empty());
}

#[test]
fn accumulated_only_context_does_not_start_a_run() {
    let mut context = message(0, "chat", "{\"sender\":\"you\",\"text\":\"fyi\"}");
    context.trigger = false;
    let mut inbox = Inbox::new(vec![context]);
    inbox.run(echo);
    assert_eq!(inbox.waiting.len(), 1);
    assert!(inbox.marks.is_empty());
    assert!(inbox.sent.is_empty());
    assert!(inbox.touched);
}

#[test]
fn messages_arriving_mid_run_are_drained_before_returning() {
    let mut inbox = Inbox::new(vec![chat(0, "first")]);
    inbox.later.push(chat(2, "second"));
    inbox.run(echo);
    assert!(inbox.waiting.is_empty());
    assert_eq!(inbox.sent.len(), 2);
}

#[test]
fn blank_replies_are_not_sent() {
    let running = RunningBatch::start(&vec![chat(0, "hello")]).expect("triggers");
    let end = running.settle(&Ok(Some(" \n".to_owned())));
    assert_eq!(end.status, MessageStatus::Completed);
    assert_eq!(end.reply, None);
}

#[test]
fn unknown_sessions_are_named() {
    let error = RunError::UnknownSession(SessionId::new("sess-1"));
    assert_eq!(error.message(), "session sess-1 not found or inactive");
}

#[test]
fn a_run_that_ends_without_a_turn_fails() {
    assert!(consume_run(&vec![ProviderEvent::Activity]).is_err());
    assert_eq!(
        consume_run(&vec![ProviderEvent::TurnEnd { text: None }]),
        Ok(None)
    );
}

#[test]
fn messages_that_are_no_chat_are_handed_over_as_they_are() {
    assert_eq!(
        draft_prompt(&vec![chat(0, "hello"), message(2, "chat", "not json")]),
        "hello\nnot json"
    );
}
