use claw::json::{read_back, Json};
use claw::protocol::content::{
    Attachment, ChatContent, ContentError, InboundContent, Operation, OutboundContent,
    QuotedMessage, Routing,
};
use claw::protocol::entities::{
    AgentProviderKind, CliScope, ConnectorConfig, ConnectorKind, EngageMode, SessionMode,
    SmsConnectorConfig,
};
use claw::protocol::frame::{ErrorCode, RequestFrame, ResponseFrame};
use claw::protocol::ids::{AgentGroupId, SessionId, UserId};
use claw::protocol::message::{MessageKind, MessageSeq, MessageStatus};
use claw::protocol::stored::{
    stored_chat_reads_back, stored_content_reads_back, stored_replies_read_back,
};
use claw::protocol::ParseEnumError;

fn chat_of(content: InboundContent) -> ChatContent {
    match content {
        InboundContent::Chat(chat) => chat,
        other => panic!("expected chat content, got {other:?}"),
    }
}

fn number(n: &str) -> Json {
    Json::Number(n.to_owned())
}

#[test]
fn chat_content_round_trips_with_optional_fields_absent() {
    let json = r#"{"sender":"John","text":"hello"}"#;
    let chat = chat_of(InboundContent::parse("chat", json).expect("parse"));
    assert_eq!(chat.sender, "John");
    assert_eq!(chat.text, "hello");
    assert!(chat.attachments.is_empty());
    assert!(!chat.is_from_me);
    let back = chat.to_value().encode();
    let reparsed = chat_of(InboundContent::parse("chat", &back).expect("reparse"));
    assert_eq!(reparsed, chat);
}

#[test]
fn task_content_defaults_wake_agent_to_true() {
    let parsed = InboundContent::parse("task", r#"{"prompt":"review PRs"}"#).expect("parse");
    let InboundContent::Task(task) = parsed else {
        panic!("expected task content");
    };
    assert!(task.wake_agent);
    assert_eq!(task.script, None);
}

#[test]
fn webhook_and_system_parse_by_kind() {
    let webhook = InboundContent::parse(
        "webhook",
        r#"{"source":"github","event":"pull_request","payload":{"n":1}}"#,
    )
    .expect("parse webhook");
    assert!(matches!(webhook, InboundContent::Webhook(_)));

    let system = InboundContent::parse(
        "system",
        r#"{"action":"create_agent","status":"success","result":{"id":"ag-1"}}"#,
    )
    .expect("parse system");
    assert!(matches!(system, InboundContent::System(_)));
}

#[test]
fn unknown_kind_falls_back_to_raw() {
    let raw = InboundContent::parse("chat-sdk", r#"{"anything":true}"#).expect("parse");
    let InboundContent::Raw(value) = raw else {
        panic!("expected raw content");
    };
    assert_eq!(value.get("anything"), Some(&Json::Bool(true)));
}

#[test]
fn malformed_payload_reports_the_kind() {
    let err = InboundContent::parse("chat", "not json").expect_err("must fail");
    let ContentError::Malformed { kind, .. } = err;
    assert_eq!(kind, "chat");
}

#[test]
fn a_payload_of_the_wrong_shape_is_refused() {
    let err = InboundContent::parse("task", r#"{"text":"no prompt"}"#).expect_err("must fail");
    assert_eq!(err.message(), "malformed task content: unexpected shape");
    assert!(OutboundContent::parse("[]").is_err());
    assert!(OutboundContent::parse(r#"{"operation":{"type":"dance"}}"#).is_err());
}

#[test]
fn plain_outbound_text_round_trips() {
    let content = OutboundContent::from_text("looks good");
    let json = content.to_text();
    assert_eq!(json, r#"{"text":"looks good"}"#);
    let back = OutboundContent::parse(&json).expect("parse");
    assert_eq!(back, content);
}

#[test]
fn ask_question_operation_round_trips() {
    let json = r#"{"operation":{"type":"ask_question","question_id":"q1","title":"Deploy","question":"Go ahead?","options":["yes","no"]}}"#;
    let content = OutboundContent::parse(json).expect("parse");
    let Some(Operation::AskQuestion { ref options, .. }) = content.operation else {
        panic!("expected ask_question operation");
    };
    assert_eq!(options, &["yes", "no"]);
    let back = content.to_text();
    let reparsed = OutboundContent::parse(&back).expect("reparse");
    assert_eq!(reparsed, content);
}

#[test]
fn edit_operation_carries_a_seq_message_id() {
    let json = r#"{"operation":{"type":"edit","message_id":5,"text":"updated"}}"#;
    let content = OutboundContent::parse(json).expect("parse");
    let Some(Operation::Edit {
        message_id,
        ref text,
    }) = content.operation
    else {
        panic!("expected edit operation");
    };
    assert_eq!(message_id, MessageSeq::new(5));
    assert_eq!(text, "updated");
}

#[test]
fn operation_keys_do_not_leak_into_extra() {
    let json = r#"{"operation":{"type":"reaction","message_id":3,"emoji":"+1"},"custom":1}"#;
    let content = OutboundContent::parse(json).expect("parse");
    assert!(matches!(
        content.operation,
        Some(Operation::Reaction { .. })
    ));
    assert_eq!(content.extra.len(), 1);
    assert_eq!(content.extra[0], ("custom".to_owned(), number("1")));
}

#[test]
fn unknown_outbound_fields_are_preserved_in_extra() {
    let json = r#"{"text":"hi","custom_field":42}"#;
    let content = OutboundContent::parse(json).expect("parse");
    assert_eq!(content.extra, vec![("custom_field".to_owned(), number("42"))]);
    let back = content.to_text();
    let reparsed = OutboundContent::parse(&back).expect("reparse");
    assert_eq!(reparsed, content);
}

#[test]
fn routing_defaults_to_all_none() {
    let routing = Routing::default();
    assert_eq!(routing.channel_type, None);
    assert_eq!(routing.platform_id, None);
    assert_eq!(routing.thread_id, None);
}

#[test]
fn stored_contents_read_back_as_they_were() {
    let said = "quotes \" and \\ and\nlines, déjà vu \u{1F600}\u{7}";
    let back = stored_replies_read_back(said).expect("read back");
    assert_eq!(back, OutboundContent::from_text(said));

    let content = OutboundContent {
        text: None,
        files: vec!["a.png".to_owned(), "b.png".to_owned()],
        operation: Some(Operation::Approval {
            approval_id: "ap-1".to_owned(),
            command: "groups-create".to_owned(),
            args: vec![("name".to_owned(), Json::Text("Spawn".to_owned()))],
            summary: "run `groups-create`".to_owned(),
        }),
        extra: vec![("x".to_owned(), Json::List(vec![Json::Null, number("-3")]))],
    };
    let back = stored_content_reads_back(&content).expect("read back");
    assert_eq!(back, content);

    let chat = ChatContent {
        sender: "John".to_owned(),
        sender_id: Some(UserId::new("u1")),
        text: "see \u{201C}this\u{201D}".to_owned(),
        attachments: vec![Attachment {
            name: "data.xlsx".to_owned(),
            url: None,
            path: Some("/tmp/data.xlsx".to_owned()),
        }],
        is_from_me: true,
        quoted: Some(QuotedMessage {
            sender: "Jane".to_owned(),
            text: "did you?".to_owned(),
        }),
    };
    let back = stored_chat_reads_back(&chat).expect("read back");
    assert_eq!(back, InboundContent::Chat(chat));
}

#[test]
fn multi_word_variants_use_kebab_case() {
    assert_eq!(SessionMode::PerThread.as_str(), "per-thread");
    assert_eq!(EngageMode::MentionSticky.as_str(), "mention-sticky");
}

#[test]
fn every_entity_enum_survives_a_text_round_trip() {
    for mode in SessionMode::all() {
        assert_eq!(mode.as_str().parse::<SessionMode>().ok(), Some(mode));
    }
    for mode in EngageMode::all() {
        assert_eq!(mode.as_str().parse::<EngageMode>().ok(), Some(mode));
    }
    for scope in CliScope::all() {
        assert_eq!(scope.as_str().parse::<CliScope>().ok(), Some(scope));
    }
    for kind in AgentProviderKind::all() {
        assert_eq!(kind.as_str().parse::<AgentProviderKind>().ok(), Some(kind));
    }
}

#[test]
fn connector_config_round_trips_and_keeps_kind_consistent() {
    let config = ConnectorConfig::Sms(SmsConnectorConfig {
        base_url: "http://sim:8080".to_owned(),
        token: "sms_secret".to_owned(),
        webhook_secret: None,
    });
    assert_eq!(config.kind(), ConnectorKind::Sms);
    let json = config.to_json().expect("serialize");
    assert!(
        !json.contains("webhook_secret"),
        "an absent secret must not serialize as null"
    );
    let back = ConnectorConfig::parse(ConnectorKind::Sms, &json).expect("parse");
    assert_eq!(back, config);
}

#[test]
fn connector_config_rejects_a_wrong_shape() {
    assert!(ConnectorConfig::parse(ConnectorKind::Sms, "{\"nope\":1}").is_err());
}

#[test]
fn cli_scope_round_trips_through_sql() {
    let conn = rusqlite::Connection::open_in_memory().expect("open");
    conn.execute("CREATE TABLE t (scope TEXT)", [])
        .expect("create");
    conn.execute(
        "INSERT INTO t (scope) VALUES (?1)",
        [CliScope::Group.as_str()],
    )
    .expect("insert");
    let back: String = conn
        .query_row("SELECT scope FROM t", [], |row| row.get(0))
        .expect("select");
    assert_eq!(CliScope::parse(&back), Ok(CliScope::Group));
}

#[test]
fn request_defaults_id_and_args() {
    let value = Json::parse(r#"{"command":"groups-list"}"#).expect("parse");
    let parsed = RequestFrame::decode(&value).expect("request");
    assert_eq!(parsed.command, "groups-list");
    assert_eq!(parsed.id, "");
    assert!(parsed.args.is_empty());
}

#[test]
fn keys_with_a_dollar_sign_are_keys_like_any_other() {
    for key in ["$serde_json::private::RawValue", "$serde_json::private::Value", "$ref"] {
        let value = Json::Object(vec![(key.to_owned(), Json::Text("x".to_owned()))]);
        assert_eq!(read_back(&value), Ok(value));
    }
}

#[test]
fn a_list_gives_the_fields_of_a_record_in_order() {
    let listed = r#"["John","web:john","hi",[["a.png",null,"/tmp/a.png"]],true,["Ann","yo"]]"#;
    let chat = chat_of(InboundContent::parse("chat", listed).expect("chat"));
    assert_eq!(chat.sender, "John");
    assert_eq!(chat.sender_id, Some(UserId::new("web:john")));
    assert_eq!(chat.text, "hi");
    assert_eq!(chat.attachments[0].name, "a.png");
    assert_eq!(chat.attachments[0].path.as_deref(), Some("/tmp/a.png"));
    assert!(chat.is_from_me);
    assert_eq!(chat.quoted.expect("quoted").sender, "Ann");

    // What may be absent may be left out at the end, and nothing may follow.
    let short = chat_of(InboundContent::parse("chat", r#"["John",null,"hi"]"#).expect("chat"));
    assert_eq!((short.text.as_str(), short.is_from_me), ("hi", false));
    assert!(InboundContent::parse("chat", r#"["John",null]"#).is_err());
    assert!(InboundContent::parse("chat", r#"["John",null,"hi",[],true,null,1]"#).is_err());

    let edit = OutboundContent::parse(r#"{"operation":["edit",5,"updated"]}"#).expect("edit");
    assert!(matches!(edit.operation, Some(Operation::Edit { text, .. }) if text == "updated"));
    assert!(OutboundContent::parse(r#"{"operation":["edit",5,"updated",1]}"#).is_err());
    assert!(OutboundContent::parse(r#"["hi"]"#).is_err(), "open records are objects");

    let request = Json::parse(r#"["r1","groups-list"]"#).expect("json");
    let request = RequestFrame::decode(&request).expect("request");
    assert_eq!((request.id.as_str(), request.command.as_str()), ("r1", "groups-list"));
    let refused = Json::parse(r#"["r1",false,null,["not-found","no such group"]]"#).expect("json");
    assert_eq!(
        ResponseFrame::decode(&refused),
        Some(ResponseFrame::error("r1", ErrorCode::NotFound, "no such group"))
    );
}

#[test]
fn ok_response_round_trips() {
    let data = Json::Object(vec![("count".to_owned(), number("2"))]);
    let frame = ResponseFrame::ok("r1", data);
    let encoded = frame.to_value().encode();
    assert_eq!(encoded, r#"{"id":"r1","ok":true,"data":{"count":2}}"#);
    let value = Json::parse(&encoded).expect("parse");
    let back = ResponseFrame::decode(&value).expect("decode");
    assert_eq!(back, frame);
}

#[test]
fn error_response_carries_a_kebab_code() {
    let frame = ResponseFrame::error("r1", ErrorCode::UnknownCommand, "no such command");
    let encoded = frame.to_value().encode();
    assert!(encoded.contains(r#""code":"unknown-command""#));
    assert!(encoded.contains(r#""ok":false"#));
    assert!(!encoded.contains("data"));
}

#[test]
fn every_error_code_survives_the_wire() {
    for code in ErrorCode::all() {
        let frame = ResponseFrame::error("r", code, "why");
        let value = Json::parse(&frame.to_value().encode()).expect("parse");
        assert_eq!(ResponseFrame::decode(&value), Some(frame));
    }
    let odd = Json::parse(r#"{"id":"r","ok":false,"error":{"code":"nope","message":""}}"#);
    assert_eq!(ResponseFrame::decode(&odd.expect("parse")), None);
}

#[test]
fn display_and_as_str_expose_the_raw_value() {
    let id = SessionId::new("sess-01ABC");
    assert_eq!(id.as_str(), "sess-01ABC");
    assert_eq!(id.as_str().to_string(), "sess-01ABC");
}

#[test]
fn serde_round_trips_as_plain_string() {
    let id = UserId::new("web:owner");
    let json = Json::Text(id.as_str().to_owned()).encode();
    assert_eq!(json, "\"web:owner\"");
    let Ok(Json::Text(text)) = Json::parse(&json) else {
        panic!("expected a string");
    };
    let back = UserId::new(&text);
    assert_eq!(back, id);
}

#[test]
fn sql_round_trips_as_text() {
    let conn = rusqlite::Connection::open_in_memory().expect("open");
    conn.execute("CREATE TABLE t (id TEXT)", [])
        .expect("create");
    let id = AgentGroupId::new("ag-main");
    conn.execute("INSERT INTO t (id) VALUES (?1)", [id.as_str()])
        .expect("insert");
    let text: String = conn
        .query_row("SELECT id FROM t", [], |row| row.get(0))
        .expect("select");
    let back = AgentGroupId::new(&text);
    assert_eq!(back, id);
}

#[test]
fn every_kind_survives_a_text_round_trip() {
    for kind in MessageKind::all() {
        let parsed: MessageKind = kind.as_str().parse().expect("must parse back");
        assert_eq!(parsed, kind);
    }
}

#[test]
fn every_status_survives_a_text_round_trip() {
    for status in MessageStatus::all() {
        let parsed: MessageStatus = status.as_str().parse().expect("must parse back");
        assert_eq!(parsed, status);
    }
}

#[test]
fn kinds_serialize_as_kebab_case_json_strings() {
    let json = Json::Text(MessageKind::Webhook.as_str().to_owned()).encode();
    assert_eq!(json, "\"webhook\"");
    let Ok(Json::Text(text)) = Json::parse("\"system\"") else {
        panic!("expected a string");
    };
    let back = MessageKind::parse(&text).expect("deserialize");
    assert_eq!(back, MessageKind::System);
}

#[test]
fn unknown_text_is_rejected_with_the_type_name() {
    let err = "shout".parse::<MessageKind>().expect_err("must fail");
    assert_eq!(err.type_label, "MessageKind");
    assert_eq!(err.value, "shout");
}

#[test]
fn a_refused_text_is_shown_quoted() {
    let err = ParseEnumError {
        type_label: "MessageKind",
        value: "a\"b\n".to_owned(),
    };
    assert_eq!(err.message(), "invalid MessageKind: \"a\\\"b\\n\"");
}

#[test]
fn seq_parity_separates_claw_from_agent() {
    assert!(MessageSeq::new(0).is_claw_assigned());
    assert!(MessageSeq::new(42).is_claw_assigned());
    assert!(MessageSeq::new(1).is_agent_assigned());
    assert!(MessageSeq::new(7).is_agent_assigned());
    assert!(!MessageSeq::new(7).is_claw_assigned());
}

#[test]
fn next_seq_respects_parity_from_any_floor() {
    let claw = |floor: Option<i64>| MessageSeq::next_claw_after(floor.map(MessageSeq::new));
    let agent = |floor: Option<i64>| MessageSeq::next_agent_after(floor.map(MessageSeq::new));
    assert_eq!(claw(None), MessageSeq::new(0));
    assert_eq!(agent(None), MessageSeq::new(1));
    assert_eq!(claw(Some(0)), MessageSeq::new(2));
    assert_eq!(claw(Some(1)), MessageSeq::new(2));
    assert_eq!(agent(Some(1)), MessageSeq::new(3));
    assert_eq!(agent(Some(2)), MessageSeq::new(3));
    assert_eq!(claw(Some(7)), MessageSeq::new(8));
    assert_eq!(agent(Some(8)), MessageSeq::new(9));
}

#[test]
fn seq_serializes_as_a_bare_integer() {
    assert_eq!(Json::from_i64(MessageSeq::new(5).value()).encode(), "5");
    let value = Json::parse("6").expect("deserialize");
    assert_eq!(value, number("6"));
    assert_eq!(Json::from_i64(MessageSeq::new(6).value()), value);
}

#[test]
fn statuses_round_trip_through_sql() {
    let conn = rusqlite::Connection::open_in_memory().expect("open");
    conn.execute("CREATE TABLE t (status TEXT)", [])
        .expect("create");
    conn.execute(
        "INSERT INTO t (status) VALUES (?1)",
        [MessageStatus::Processing.as_str()],
    )
    .expect("insert");
    let back: String = conn
        .query_row("SELECT status FROM t", [], |row| row.get(0))
        .expect("select");
    assert_eq!(MessageStatus::parse(&back), Ok(MessageStatus::Processing));
}
