use claw::db::agent_groups::AgentGroup;
use claw::db::endpoints::Endpoint;
use claw::json::Json;
use claw::protocol::entities::{AgentProviderKind, CliScope, ToolProfile};
use claw::protocol::ids::{AgentGroupId, EndpointName};
use claw::protocol::message::MessageSeq;
use claw::providers::echo::EchoProvider;
use claw::providers::native::client::{
    decode_completion, ChatClient, ChatMessage, ClientError, Completion, FunctionCall, Role, ToolCall,
};
use claw::providers::native::context::{build_messages, estimate_tokens};
use claw::providers::native::exec::{render_result, render_run, truncate_middle, BashRun};
use claw::providers::native::files::{
    edit, edit_done, read, resolve, unreadable, unwritable, written,
};
use claw::providers::native::tools::ToolOutcome;
use claw::providers::native::{
    fatal, read_agent_md, reply, tool_action, turn_error, turn_event, Turn, TurnStep,
    MAX_TOOL_ROUNDS,
};
use claw::providers::pi::rpc::{
    abort_line, follow_up_line, prompt_line, translate, Shutdown, ShutdownEvent,
};
use claw::providers::pi::{build_arguments, PiProvider};
use claw::providers::resolution::{
    api_key_for, endpoint_name_for, resolve_inference, ResolutionError, ResolvedInference,
};
use claw::providers::{provider_kind, ProviderEvent};
use claw::session::TranscriptEntry;

#[test]
fn a_completion_may_be_made_of_lists() {
    let value = Json::parse(r#"[[[["hi",[["c1","function",["read","{}"]]]]]]]"#).expect("json");
    let completion = decode_completion(&value).expect("completion");
    assert_eq!(completion.content.as_deref(), Some("hi"));
    assert_eq!(completion.tool_calls[0].function.name, "read");
    let long = Json::parse(r#"[[[["hi"],1]]]"#).expect("json");
    assert!(decode_completion(&long).is_err());
}

#[test]
fn echoes_the_prompt_and_each_follow_up() {
    let provider = EchoProvider;
    assert_eq!(
        provider.turn("hello".to_owned()),
        ProviderEvent::TurnEnd {
            text: Some("hello".to_owned())
        }
    );
    assert_eq!(
        provider.turn("again".to_owned()),
        ProviderEvent::TurnEnd {
            text: Some("again".to_owned())
        }
    );
}

#[test]
fn groups_without_a_provider_run_natively() {
    assert_eq!(provider_kind(None), AgentProviderKind::Native);
    assert_eq!(
        provider_kind(Some(AgentProviderKind::Echo)),
        AgentProviderKind::Echo
    );
}

fn client_for(api_key: Option<&str>) -> ChatClient {
    ChatClient::new(&ResolvedInference {
        base_url: "http://localhost:8000/v1/".to_owned(),
        api_key: api_key.map(str::to_owned),
        model: "test-model".to_owned(),
    })
}

fn field<'a>(value: &'a Json, key: &str) -> &'a Json {
    value.get(key).expect("field")
}

#[test]
fn sends_model_messages_and_bearer_key() {
    let client = client_for(Some("sk-test"));
    assert_eq!(
        client.completions_url,
        "http://localhost:8000/v1/chat/completions"
    );
    assert_eq!(client.api_key.as_deref(), Some("sk-test"));
    let body = client.request_body(
        &vec![
            ChatMessage::new(Role::System, "be brief"),
            ChatMessage::new(Role::User, "hello"),
        ],
        &Vec::new(),
    );
    let body = Json::parse(&body).expect("json");
    assert_eq!(field(&body, "model"), &Json::Text("test-model".to_owned()));
    let Json::List(messages) = field(&body, "messages") else {
        panic!("messages");
    };
    assert_eq!(
        field(&messages[0], "role"),
        &Json::Text("system".to_owned())
    );
    assert_eq!(
        field(&messages[1], "content"),
        &Json::Text("hello".to_owned())
    );

    let reply = ChatClient::read(
        200,
        r#"{"choices":[{"message":{"role":"assistant","content":"hi!"}}]}"#,
    )
    .expect("complete");
    assert_eq!(reply.content.as_deref(), Some("hi!"));
    assert!(reply.tool_calls.is_empty());
}

#[test]
fn keyless_requests_send_no_authorization_header() {
    assert_eq!(client_for(None).api_key, None);
}

#[test]
fn server_errors_are_retryable_and_client_errors_are_not() {
    let err = ChatClient::read(503, "overloaded").expect_err("must fail");
    assert!(err.is_retryable());

    let err = ChatClient::read(400, "bad request").expect_err("must fail");
    assert!(!err.is_retryable());

    let err = ChatClient::read(200, "not json").expect_err("must fail");
    assert!(matches!(err, ClientError::Malformed(_)));
    assert!(!err.is_retryable());
    assert!(ClientError::Transport("reset".to_owned()).is_retryable());
}

fn inbound(seq: i64, sender: &str, text: &str) -> TranscriptEntry {
    TranscriptEntry {
        seq: MessageSeq::new(seq),
        inbound: true,
        kind: "chat".to_owned(),
        content: format!("{{\"sender\":\"{sender}\",\"text\":\"{text}\"}}"),
    }
}

fn outbound(seq: i64, text: &str) -> TranscriptEntry {
    TranscriptEntry {
        seq: MessageSeq::new(seq),
        inbound: false,
        kind: "chat".to_owned(),
        content: format!("{{\"text\":\"{text}\"}}"),
    }
}

fn shape(messages: &[ChatMessage]) -> Vec<(Role, &str)> {
    messages
        .iter()
        .map(|message| (message.role, message.content.as_deref().unwrap_or_default()))
        .collect()
}

#[test]
fn conversation_maps_to_roles_with_sender_labels() {
    let transcript = vec![
        inbound(0, "you", "hello"),
        outbound(1, "hi there"),
        inbound(2, "you", "how are you?"),
    ];
    let messages = build_messages(Some("be concise"), &transcript, 10_000);
    assert_eq!(
        shape(&messages),
        vec![
            (Role::System, "be concise"),
            (Role::User, "[you] hello"),
            (Role::Assistant, "hi there"),
            (Role::User, "[you] how are you?"),
        ]
    );
}

#[test]
fn budget_drops_oldest_messages_first_and_keeps_the_system_prompt() {
    let transcript = vec![
        inbound(0, "you", "a very old message that should be dropped first"),
        outbound(1, "an old reply that should also fall out of the window"),
        inbound(2, "you", "newest"),
    ];
    let newest_cost = estimate_tokens("[you] newest");
    let messages = build_messages(Some("sys"), &transcript, newest_cost);
    assert_eq!(
        shape(&messages),
        vec![(Role::System, "sys"), (Role::User, "[you] newest")]
    );
}

#[test]
fn zero_budget_yields_only_the_system_prompt() {
    let transcript = vec![inbound(0, "you", "hello")];
    let messages = build_messages(Some("sys"), &transcript, 0);
    assert_eq!(messages.len(), 1);
    assert_eq!(messages[0].role, Role::System);
}

#[test]
fn unparseable_outbound_entries_are_skipped() {
    let broken = TranscriptEntry {
        seq: MessageSeq::new(1),
        inbound: false,
        kind: "chat".to_owned(),
        content: "not json".to_owned(),
    };
    let messages = build_messages(None, &vec![inbound(0, "you", "hi"), broken], 10_000);
    assert_eq!(messages.len(), 1);
    assert_eq!(messages[0].role, Role::User);
}

#[test]
fn task_and_webhook_kinds_are_labeled() {
    let task = TranscriptEntry {
        seq: MessageSeq::new(0),
        inbound: true,
        kind: "task".to_owned(),
        content: "{\"prompt\":\"daily briefing\"}".to_owned(),
    };
    let messages = build_messages(None, &vec![task], 10_000);
    assert_eq!(
        messages[0].content.as_deref(),
        Some("[scheduled task] daily briefing")
    );
}

fn finished(code: i32, stdout: &str, stderr: &str) -> String {
    render_run(&BashRun::Finished {
        code: Some(code),
        stdout: stdout.to_owned(),
        stderr: stderr.to_owned(),
    })
}

#[test]
fn captures_stdout_and_exit_code() {
    assert_eq!(finished(0, "hello\n", ""), "exit code: 0\nhello");
}

#[test]
fn reports_stderr_and_nonzero_exit() {
    assert_eq!(finished(3, "", "oops\n"), "exit code: 3\nstderr:\noops");
}

#[test]
fn empty_output_is_explicit() {
    assert_eq!(finished(0, "", ""), "exit code: 0\n(no output)");
}

#[test]
fn long_output_keeps_head_and_tail() {
    let counted: String = (1..=20000).map(|n| format!("{n}\n")).collect();
    let result = finished(0, &counted, "");
    assert!(result.contains("bytes elided"));
    assert!(result.contains("\n1\n"), "head preserved");
    assert!(result.contains("20000"), "tail preserved");
}

#[test]
fn runs_that_did_not_finish_say_so() {
    let absent = render_run(&BashRun::NotStarted("no such file".to_owned()));
    assert!(absent.contains("no such file"), "{absent}");
    let late = render_run(&BashRun::TimedOut);
    assert!(late.contains("120"), "{late}");
}

#[test]
fn truncate_middle_table() {
    let cases = [
        ("short", 10, 10, "short"),
        ("abcdefghij", 3, 3, "abc\n[… 4 bytes elided …]\nhij"),
    ];
    for (input, head, tail, expected) in cases {
        assert_eq!(truncate_middle(input, head, tail), expected, "{input:?}");
    }
    let multibyte = "ééééééééééé";
    let truncated = truncate_middle(multibyte, 3, 3);
    assert!(truncated.contains("elided"));
    assert!(!truncated.is_empty(), "must not panic on char boundaries");
}

#[test]
fn render_result_table() {
    assert_eq!(render_result(Some(0), "", ""), "exit code: 0\n(no output)");
    assert_eq!(render_result(None, "x", ""), "terminated by signal\nx");
    assert_eq!(
        render_result(Some(1), "out", "err"),
        "exit code: 1\nout\nstderr:\nerr"
    );
}

#[test]
fn read_numbers_lines_and_respects_offset_and_limit() {
    let content = "alpha\nbeta\ngamma\ndelta\n";
    assert_eq!(
        read("f.txt", content, None, None),
        "     1\talpha\n     2\tbeta\n     3\tgamma\n     4\tdelta"
    );
    assert_eq!(
        read("f.txt", content, Some(2), Some(2)),
        "     2\tbeta\n     3\tgamma\n[… 1 more lines …]"
    );
}

#[test]
fn read_missing_file_is_an_error_string() {
    assert!(unreadable("nope.txt", "no such file").starts_with("error:"));
}

#[test]
fn write_creates_parent_directories() {
    assert_eq!(
        resolve("/work", "deep/nested/file.txt"),
        "/work/deep/nested/file.txt"
    );
    assert_eq!(
        written("deep/nested/file.txt", "content"),
        "wrote 7 bytes to deep/nested/file.txt"
    );
    assert!(unwritable("f.txt", "read-only").starts_with("error:"));
}

#[test]
fn edit_replaces_a_unique_match_only() {
    let before = "one two two";
    let after = edit("f.txt", before, "one", "ONE").expect("edit");
    assert_eq!(edit_done("f.txt"), "edited f.txt");
    assert_eq!(after, "ONE two two");

    let ambiguous = edit("f.txt", &after, "two", "2").expect_err("ambiguous");
    assert!(ambiguous.contains("2 times"), "{ambiguous}");

    let missing = edit("f.txt", &after, "absent", "x").expect_err("missing");
    assert!(missing.contains("not found"), "{missing}");

    let empty = edit("f.txt", &after, "", "x").expect_err("empty");
    assert!(empty.contains("must not be empty"), "{empty}");
}

#[test]
fn absolute_paths_pass_through_and_relative_paths_stay_in_the_workspace() {
    assert_eq!(resolve("/work", "/other/abs.txt"), "/other/abs.txt");
    assert_eq!(resolve("/work", "rel.txt"), "/work/rel.txt");
}

#[test]
fn command_requests_rpc_mode_with_the_session_dir_and_model() {
    let args = build_arguments(
        "/data/sessions/ag/sess",
        &Some("qwen3.6-dense".to_owned()),
    );
    assert_eq!(
        args,
        vec![
            "--mode",
            "rpc",
            "--session-dir",
            "/data/sessions/ag/sess/pi",
            "--model",
            "qwen3.6-dense",
        ]
    );
    assert_eq!(PiProvider::from_setting(None).program, "pi");
    assert_eq!(PiProvider::from_setting(Some("/opt/pi")).program, "/opt/pi");
}

#[test]
fn model_flag_is_omitted_when_unset() {
    let args = build_arguments("/data/sessions/ag/sess", &None);
    assert!(!args.iter().any(|arg| arg == "--model"));
}

#[test]
fn command_lines_are_newline_terminated_json() {
    assert_eq!(
        prompt_line("hi"),
        "{\"message\":\"hi\",\"type\":\"prompt\"}\n"
    );
    assert_eq!(
        follow_up_line("more"),
        "{\"message\":\"more\",\"type\":\"follow_up\"}\n"
    );
    assert_eq!(abort_line(), "{\"type\":\"abort\"}\n");
}

#[test]
fn agent_end_yields_turn_end_with_string_content() {
    let event = translate(
        r#"{"type":"agent_end","messages":[
                {"role":"user","content":"hi"},
                {"role":"assistant","content":"all done"}
            ]}"#,
    );
    assert_eq!(
        event,
        Some(ProviderEvent::TurnEnd {
            text: Some("all done".to_owned())
        })
    );
}

#[test]
fn agent_end_extracts_text_from_content_blocks() {
    let event = translate(
        r#"{"type":"agent_end","messages":[
                {"role":"assistant","content":[
                    {"type":"thinking","text":"hmm"},
                    {"type":"text","text":"part one "},
                    {"type":"text","text":"part two"}
                ]}
            ]}"#,
    );
    assert_eq!(
        event,
        Some(ProviderEvent::TurnEnd {
            text: Some("part one part two".to_owned())
        })
    );
}

#[test]
fn agent_end_without_assistant_text_is_a_textless_turn_end() {
    let event = translate(r#"{"type":"agent_end","messages":[{"role":"user","content":"hi"}]}"#);
    assert_eq!(event, Some(ProviderEvent::TurnEnd { text: None }));
}

#[test]
fn tool_execution_start_becomes_progress() {
    let event = translate(
        r#"{"type":"tool_execution_start","toolCallId":"c1","toolName":"bash","args":{}}"#,
    );
    assert_eq!(
        event,
        Some(ProviderEvent::Progress {
            message: "running bash".to_owned()
        })
    );
}

#[test]
fn streaming_and_lifecycle_events_count_as_activity() {
    for raw in [
        r#"{"type":"agent_start"}"#,
        r#"{"type":"turn_start"}"#,
        r#"{"type":"message_update","message":{}}"#,
        r#"{"type":"tool_execution_end","toolCallId":"c1","result":{},"isError":false}"#,
    ] {
        assert_eq!(translate(raw), Some(ProviderEvent::Activity), "{raw}");
    }
}

#[test]
fn command_acks_and_queue_updates_are_dropped() {
    assert_eq!(
        translate(r#"{"type":"response","command":"prompt","success":true}"#),
        None
    );
    assert_eq!(translate(r#"{"type":"queue_update","steering":[]}"#), None);
}

#[test]
fn errors_translate_to_a_terminal_error_event() {
    let event = translate(r#"{"type":"error","message":"context overflow"}"#);
    assert_eq!(
        event,
        Some(ProviderEvent::Error {
            message: "context overflow".to_owned(),
            retryable: false,
        })
    );
}

#[test]
fn malformed_lines_are_ignored() {
    assert_eq!(translate("not json"), None);
    assert_eq!(translate("{}"), None);
}

#[test]
fn pi_is_asked_to_end_before_it_is_killed() {
    let running = Shutdown::Running;
    assert_eq!(running.advance(ShutdownEvent::GraceOver), running);
    assert_eq!(running.line(), None);
    let asked = running.advance(ShutdownEvent::Aborted);
    assert_eq!(asked.line(), Some(abort_line()));
    assert_eq!(asked.advance(ShutdownEvent::Exited), Shutdown::Over);
    let forced = asked.advance(ShutdownEvent::GraceOver);
    assert_eq!(forced, Shutdown::Forced);
    assert_eq!(forced.advance(ShutdownEvent::Exited), Shutdown::Over);
}

fn env_from<'a>(pairs: &'a [(&'a str, &'a str)]) -> impl Fn(&str) -> Option<String> + 'a {
    move |var| {
        pairs
            .iter()
            .find(|(key, _)| *key == var)
            .map(|(_, value)| (*value).to_owned())
    }
}

fn chat_group() -> AgentGroup {
    AgentGroup {
        id: AgentGroupId::new("ag-chat"),
        name: "Chat".to_owned(),
        folder: "chat".to_owned(),
        agent_provider: None,
        endpoint: None,
        model: None,
        thinking_level: None,
        tool_profile: ToolProfile::Chat,
        cli_scope: CliScope::Group,
        created_at: String::new(),
    }
}

/// Resolves against a table that holds one endpoint.
fn resolved(
    group: &AgentGroup,
    default_endpoint: Option<&str>,
    default_model: Option<&str>,
) -> Result<ResolvedInference, ResolutionError> {
    let local = Endpoint {
        name: EndpointName::new("local"),
        base_url: "http://localhost:8000/v1".to_owned(),
        api_key: None,
        api_key_env: None,
        notes: None,
        created_at: String::new(),
    };
    let name = endpoint_name_for(group, default_endpoint);
    let stored = if name == Some(EndpointName::new("local")) {
        Some((&local, api_key_for(&local, |_: &str| None)))
    } else {
        None
    };
    resolve_inference(group, default_endpoint, default_model, stored)
}

#[test]
fn group_settings_win_over_instance_defaults() {
    let mut group = chat_group();
    group.endpoint = Some(EndpointName::new("local"));
    group.model = Some("gemma4-moe".to_owned());
    let found = resolved(&group, Some("other-default"), Some("default-model")).expect("resolve");
    assert_eq!(found.base_url, "http://localhost:8000/v1");
    assert_eq!(found.model, "gemma4-moe");
    assert_eq!(found.api_key, None);
}

#[test]
fn instance_defaults_fill_unset_group_fields() {
    let found = resolved(&chat_group(), Some("local"), Some("default-model")).expect("resolve");
    assert_eq!(found.model, "default-model");
}

#[test]
fn missing_links_in_the_chain_are_distinct_errors() {
    let no_endpoint = resolved(&chat_group(), None, Some("m"));
    assert_eq!(
        no_endpoint,
        Err(ResolutionError::NoEndpoint {
            group: "Chat".to_owned()
        })
    );

    let unknown = resolved(&chat_group(), Some("nope"), Some("m"));
    assert_eq!(
        unknown,
        Err(ResolutionError::UnknownEndpoint(EndpointName::new("nope")))
    );

    let no_model = resolved(&chat_group(), Some("local"), None);
    assert_eq!(
        no_model,
        Err(ResolutionError::NoModel {
            group: "Chat".to_owned()
        })
    );
}

#[test]
fn api_key_resolution_prefers_stored_then_env_then_keyless() {
    let stored = Endpoint {
        name: EndpointName::new("a"),
        base_url: String::new(),
        api_key: Some("sk-stored".to_owned()),
        api_key_env: Some("IGNORED".to_owned()),
        notes: None,
        created_at: String::new(),
    };
    assert_eq!(
        api_key_for(&stored, env_from(&[])).expect("ok"),
        Some("sk-stored".to_owned())
    );

    let env_backed = Endpoint {
        api_key: None,
        api_key_env: Some("OPENROUTER_API_KEY".to_owned()),
        ..stored.clone()
    };
    assert_eq!(
        api_key_for(&env_backed, env_from(&[("OPENROUTER_API_KEY", "sk-env")])).expect("ok"),
        Some("sk-env".to_owned())
    );
    assert_eq!(
        api_key_for(&env_backed, env_from(&[])),
        Err(ResolutionError::MissingKeyEnv {
            endpoint: EndpointName::new("a"),
            var: "OPENROUTER_API_KEY".to_owned()
        })
    );

    let keyless = Endpoint {
        api_key: None,
        api_key_env: None,
        ..stored
    };
    assert_eq!(api_key_for(&keyless, env_from(&[])).expect("ok"), None);
}

fn tool_call(id: &str) -> ToolCall {
    ToolCall {
        id: id.to_owned(),
        call_type: "function".to_owned(),
        function: FunctionCall {
            name: "list_tasks".to_owned(),
            arguments: "{}".to_owned(),
        },
    }
}

fn said(text: Option<&str>, calls: Vec<ToolCall>) -> Completion {
    Completion {
        content: text.map(str::to_owned),
        tool_calls: calls,
    }
}

#[test]
fn a_turn_calls_tools_and_then_replies() {
    let mut turn = Turn::new(vec![ChatMessage::new(Role::User, "what is planned?")]);
    assert!(matches!(turn.begin_round(), TurnStep::Ask));
    let TurnStep::Call(calls) = turn.completed(said(None, vec![tool_call("c1")])) else {
        panic!("expected tool calls");
    };
    for call in &calls {
        turn.called(call, ToolOutcome::note("no tasks"));
    }
    let last = turn.messages().last().expect("messages");
    assert_eq!(last.role, Role::Tool);
    assert_eq!(last.tool_call_id.as_deref(), Some("c1"));
    assert!(matches!(turn.begin_round(), TurnStep::Ask));
    let TurnStep::Reply(message) = turn.completed(said(Some("Nothing."), Vec::new())) else {
        panic!("expected a reply");
    };
    assert_eq!(message.content, r#"{"text":"Nothing."}"#);
    assert_eq!(message, reply("Nothing."));
}

#[test]
fn a_turn_that_sent_a_message_does_not_answer_twice() {
    let mut turn = Turn::new(Vec::new());
    turn.begin_round();
    turn.completed(said(None, vec![tool_call("c1")]));
    turn.called(&tool_call("c1"), ToolOutcome::message("sent"));
    turn.begin_round();
    assert!(matches!(
        turn.completed(said(Some("sent it"), Vec::new())),
        TurnStep::Done
    ));
}

#[test]
fn tool_rounds_are_bounded() {
    let mut turn = Turn::new(Vec::new());
    for _ in 0..MAX_TOOL_ROUNDS {
        assert!(matches!(turn.begin_round(), TurnStep::Ask));
        turn.completed(said(None, vec![tool_call("c1")]));
        turn.called(&tool_call("c1"), ToolOutcome::note("again"));
    }
    assert!(!matches!(turn.begin_round(), TurnStep::Ask));
}

#[test]
fn failed_turns_become_error_events() {
    let refused = turn_error(&ClientError::Api {
        status: 503,
        body: "overloaded".to_owned(),
    });
    assert!(refused.retryable);
    let limited = turn_error(&ClientError::Api {
        status: 429,
        body: "slow down".to_owned(),
    });
    assert!(!limited.retryable);
    assert!(!fatal("no context").retryable);
    assert_eq!(
        turn_event(Err(fatal("no context"))),
        ProviderEvent::Error {
            message: "no context".to_owned(),
            retryable: false
        }
    );
    assert_eq!(turn_event(Ok(())), ProviderEvent::TurnEnd { text: None });
    assert_eq!(tool_action("bash"), "running a command");
}

#[test]
fn blank_instructions_count_as_none() {
    assert_eq!(read_agent_md(None), None);
    assert_eq!(read_agent_md(Some("  \n")), None);
    assert_eq!(
        read_agent_md(Some("be kind\n")).as_deref(),
        Some("be kind")
    );
}
