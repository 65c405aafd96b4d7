use claw::commands::registry::{finish, Dispatch, Registry};
use claw::commands::resources::{Outcome, Work};
use claw::commands::CallerContext;
use claw::db::agent_groups::AgentGroup;
use claw::json::Json;
use claw::mcp::McpTool;
use claw::protocol::content::{Operation, OutboundContent};
use claw::protocol::entities::{CliScope, ToolProfile};
use claw::protocol::frame::{ErrorCode, RequestFrame, ResponseFrame};
use claw::protocol::ids::{AgentGroupId, SessionId};
use claw::providers::native::client::{FunctionCall, ToolCall, ToolDefinition};
use claw::providers::native::exec::{render_run, BashRun};
use claw::providers::native::files;
use claw::providers::native::tools::{
    after_admin, after_change, after_list, after_schedule, after_send, after_server, definitions,
    dispatch, follow_admin, mcp_definitions, plan, ScheduledTask, ToolContext, ToolOutcome, ToolPlan, ADMIN,
    ASK_USER_QUESTION, BASH, CANCEL_TASK, EDIT, LIST_TASKS, PAUSE_TASK, READ, SCHEDULE_TASK,
    SEND_MESSAGE, SEND_TO_AGENT, WRITE,
};
use claw::session::NewOutboundMessage;

const ULID: &str = "01J0000000000000000000000A";

fn call(name: &str, arguments: &str) -> ToolCall {
    ToolCall {
        id: "call_1".to_owned(),
        call_type: "function".to_owned(),
        function: FunctionCall {
            name: name.to_owned(),
            arguments: arguments.to_owned(),
        },
    }
}

/// What stands around the tools: files, an outbox, tasks, a shell and the commands.
struct Desk {
    context: ToolContext,
    scope: CliScope,
    files: Vec<(String, String)>,
    sent: Vec<NewOutboundMessage>,
    tasks: Vec<ScheduledTask>,
}

impl Desk {
    fn new(profile: ToolProfile) -> Desk {
        Desk {
            context: ToolContext {
                profile,
                admin_enabled: false,
                server: None,
            },
            scope: CliScope::Group,
            files: Vec::new(),
            sent: Vec::new(),
            tasks: Vec::new(),
        }
    }

    fn file(&self, path: &str) -> &str {
        let found = self.files.iter().find(|(held, _)| held == path);
        &found.expect("file").1
    }

    fn put(&mut self, path: &str, content: String) {
        self.files.retain(|(held, _)| held != path);
        self.files.push((path.to_owned(), content));
    }

    fn command(&self, request: RequestFrame) -> ResponseFrame {
        let caller = CallerContext::Agent {
            session_id: SessionId::new("s-1"),
            agent_group_id: AgentGroupId::new("ag-ops"),
            messaging_group_id: None,
        };
        match Registry::new().dispatch(request, &caller, &Ok(Some(self.scope))) {
            Dispatch::Respond(response) => response,
            Dispatch::Run { id, work } => {
                let outcome = match &work {
                    Work::ListGroups => Outcome::Groups(vec![AgentGroup {
                        id: AgentGroupId::new("ag-ops"),
                        name: "ops".to_owned(),
                        folder: "ops".to_owned(),
                        agent_provider: None,
                        endpoint: None,
                        model: None,
                        thinking_level: None,
                        tool_profile: ToolProfile::Chat,
                        cli_scope: self.scope,
                        created_at: String::new(),
                    }]),
                    _ => Outcome::Failed("not held here".to_owned()),
                };
                finish(&id, &work, &outcome)
            }
        }
    }

    fn carry_out(&mut self, planned: ToolPlan) -> ToolOutcome {
        match planned {
            ToolPlan::Answer(outcome) => outcome,
            ToolPlan::Server { tool, .. } => after_server(&tool, Ok("found".to_owned())),
            ToolPlan::Admin(request) => {
                let response = self.command(request);
                let next = after_admin(&response, ULID);
                self.carry_out(next)
            }
            ToolPlan::Bash { .. } => ToolOutcome::note(&render_run(&BashRun::Finished {
                code: Some(0),
                stdout: "from the workspace".to_owned(),
                stderr: String::new(),
            })),
            ToolPlan::Read {
                path,
                offset,
                limit,
            } => ToolOutcome::note(&files::read(&path, self.file(&path), offset, limit)),
            ToolPlan::Write { path, content } => {
                let told = files::written(&path, &content);
                self.put(&path, content);
                ToolOutcome::note(&told)
            }
            ToolPlan::Edit {
                path,
                old_string,
                new_string,
            } => match files::edit(&path, self.file(&path), &old_string, &new_string) {
                Ok(updated) => {
                    self.put(&path, updated);
                    ToolOutcome::note(&files::edit_done(&path))
                }
                Err(told) => ToolOutcome::note(&told),
            },
            ToolPlan::Send { message, sent } => {
                self.sent.push(message);
                after_send(sent, None)
            }
            ToolPlan::Schedule {
                prompt,
                process_after,
                recurrence,
            } => {
                let series = format!("task-{ULID}");
                self.tasks.push(ScheduledTask {
                    series: series.clone(),
                    prompt,
                    process_after,
                    recurrence,
                    paused: false,
                });
                after_schedule(Ok(series))
            }
            ToolPlan::ListTasks => after_list(Ok(std::mem::take(&mut self.tasks))),
            ToolPlan::Cancel { series } => {
                let before = self.tasks.len();
                self.tasks.retain(|t| t.series != series);
                after_change(&series, Ok((before - self.tasks.len()) as u64))
            }
            ToolPlan::SetPaused { series, paused } => {
                let mut changed = 0;
                for task in &mut self.tasks {
                    if task.series == series {
                        task.paused = paused;
                        changed += 1;
                    }
                }
                after_change(&series, Ok(changed))
            }
        }
    }

    fn run(&mut self, call: &ToolCall) -> ToolOutcome {
        let planned = plan(&self.context, call, ULID);
        self.carry_out(planned)
    }
}

fn tool_names(tools: &[ToolDefinition]) -> Vec<&str> {
    tools
        .iter()
        .map(|tool| tool.function.name.as_ref())
        .collect()
}

#[test]
fn arguments_may_be_a_list() {
    let desk = Desk::new(ToolProfile::Coder);
    let planned = plan(&desk.context, &call(READ, r#"["a.txt",3]"#), ULID);
    let ToolPlan::Read { path, offset, limit } = planned else {
        panic!("a file is read");
    };
    assert_eq!((path.as_str(), offset, limit), ("a.txt", Some(3), None));
    let planned = plan(&desk.context, &call(SEND_MESSAGE, r#"["hi","there"]"#), ULID);
    assert!(matches!(planned, ToolPlan::Answer(_)), "one field too many");
}

#[test]
fn held_commands_get_fresh_identifiers() {
    let held = ResponseFrame::error("r1", ErrorCode::ApprovalPending, "held");
    let (ToolPlan::Send { message: one, .. }, ToolPlan::Send { message: two, .. }) =
        (follow_admin(&held), follow_admin(&held))
    else {
        panic!("an owner is asked");
    };
    assert_ne!(one.content, two.content);
    assert!(one.content.contains(r#""approval_id":"ap-"#));
}

#[test]
fn coder_profile_adds_execution_tools_to_the_chat_surface() {
    let chat = definitions(ToolProfile::Chat, false, None);
    let chat = tool_names(&chat);
    let coder = definitions(ToolProfile::Coder, false, None);
    let coder = tool_names(&coder);
    for tool in [BASH, READ, WRITE, EDIT] {
        assert!(!chat.contains(&tool), "{tool} must not be in chat");
        assert!(coder.contains(&tool), "{tool} must be in coder");
    }
    assert!(coder.contains(&SEND_MESSAGE), "messaging tools stay");
}

#[test]
fn mcp_tools_are_namespaced_and_default_their_schema() {
    let schema = Json::parse(r#"{"type":"object","properties":{"q":{"type":"string"}}}"#);
    let tools = vec![
        McpTool {
            name: "search".to_owned(),
            description: "web search".to_owned(),
            input_schema: schema.expect("json"),
        },
        McpTool {
            name: "fetch".to_owned(),
            description: "get a url".to_owned(),
            input_schema: Json::Null,
        },
    ];
    let defs = mcp_definitions("web", &tools);
    assert_eq!(tool_names(&defs), ["web__search", "web__fetch"]);
    let properties = defs[0].function.parameters.get("properties");
    let q = properties.expect("properties").get("q").expect("q");
    assert_eq!(q.get("type"), Some(&Json::Text("string".to_owned())));
    assert_eq!(
        defs[1].function.parameters,
        Json::parse(r#"{"type":"object"}"#).expect("json")
    );
}

#[test]
fn file_tools_round_trip_through_dispatch() {
    let mut desk = Desk::new(ToolProfile::Coder);
    let written = desk.run(&call(
        WRITE,
        r#"{"path":"notes.txt","content":"alpha\nbeta"}"#,
    ));
    assert_eq!(written.result, "wrote 10 bytes to notes.txt");

    let edited = desk.run(&call(
        EDIT,
        r#"{"path":"notes.txt","old_string":"alpha","new_string":"ALPHA"}"#,
    ));
    assert_eq!(edited.result, "edited notes.txt");

    let read_back = desk.run(&call(READ, r#"{"path":"notes.txt"}"#));
    assert_eq!(read_back.result, "     1\tALPHA\n     2\tbeta");
}

#[test]
fn execution_tools_are_refused_for_chat_groups() {
    let mut desk = Desk::new(ToolProfile::Chat);
    for (name, arguments) in [
        (BASH, r#"{"command":"echo hi"}"#),
        (READ, r#"{"path":"x"}"#),
        (WRITE, r#"{"path":"x","content":"y"}"#),
        (EDIT, r#"{"path":"x","old_string":"a","new_string":"b"}"#),
    ] {
        let outcome = desk.run(&call(name, arguments));
        assert!(
            outcome.result.contains("not available"),
            "{name}: {}",
            outcome.result
        );
    }
}

#[test]
fn send_message_writes_an_outbound_chat_row() {
    let mut desk = Desk::new(ToolProfile::Chat);
    let outcome = desk.run(&call(SEND_MESSAGE, r#"{"text":"hello"}"#));
    assert!(outcome.produced_message);
    assert_eq!(desk.sent.len(), 1);
    let content = OutboundContent::parse(&desk.sent[0].content).expect("content");
    assert_eq!(content.text.as_deref(), Some("hello"));
    assert_eq!(desk.sent[0].kind, "chat");
}

#[test]
fn a_message_that_could_not_be_kept_is_reported() {
    let failed = after_send(ToolOutcome::message("sent"), Some("disk full".to_owned()));
    assert!(!failed.produced_message);
    assert_eq!(failed.result, "error: disk full");
}

#[test]
fn schedule_task_creates_a_listable_task_and_lifecycle_works() {
    let mut desk = Desk::new(ToolProfile::Chat);
    let scheduled = desk.run(&call(
        SCHEDULE_TASK,
        r#"{"prompt":"daily briefing","recurrence":"0 9 * * *"}"#,
    ));
    assert!(!scheduled.produced_message);
    assert!(scheduled.result.starts_with("scheduled (series task-"));

    let series = desk.tasks[0].series.clone();
    let listed = desk.run(&call(LIST_TASKS, "{}"));
    assert!(listed.result.contains("daily briefing"));
    assert!(listed.result.contains("recurring [0 9 * * *]"));

    desk.run(&call(
        SCHEDULE_TASK,
        r#"{"prompt":"daily briefing","recurrence":"0 9 * * *"}"#,
    ));
    let series_args = format!(r#"{{"series":"{series}"}}"#);
    assert_eq!(desk.run(&call(PAUSE_TASK, &series_args)).result, "done");
    assert!(desk.tasks[0].paused);

    assert_eq!(desk.run(&call(CANCEL_TASK, &series_args)).result, "done");
    assert!(desk
        .run(&call(LIST_TASKS, "{}"))
        .result
        .contains("no scheduled tasks"));
}

#[test]
fn schedule_task_rejects_a_bad_cron() {
    let mut desk = Desk::new(ToolProfile::Chat);
    let outcome = desk.run(&call(
        SCHEDULE_TASK,
        r#"{"prompt":"x","recurrence":"not a cron"}"#,
    ));
    assert!(outcome.result.starts_with("error:"));
    assert!(desk.tasks.is_empty());
}

#[test]
fn cancel_of_unknown_series_is_reported() {
    let mut desk = Desk::new(ToolProfile::Chat);
    let outcome = desk.run(&call(CANCEL_TASK, r#"{"series":"task-nope"}"#));
    assert!(outcome.result.contains("no active task"));
}

#[test]
fn send_to_agent_routes_to_the_agent_channel() {
    let mut desk = Desk::new(ToolProfile::Chat);
    desk.run(&call(
        SEND_TO_AGENT,
        r#"{"agent_group":"ag-coder","text":"review this"}"#,
    ));
    let routing = &desk.sent[0].routing;
    assert_eq!(routing.channel_type.as_deref(), Some("agent"));
    assert_eq!(routing.platform_id.as_deref(), Some("ag-coder"));
}

#[test]
fn bash_runs_in_the_workspace_for_coder_groups() {
    let mut desk = Desk::new(ToolProfile::Coder);
    let asked = call(BASH, r#"{"command":"cat hello.txt"}"#);
    let ToolPlan::Bash { command } = dispatch(&desk.context, &asked) else {
        panic!("expected a shell command");
    };
    assert_eq!(command, "cat hello.txt");
    let outcome = desk.run(&asked);
    assert!(!outcome.produced_message);
    assert_eq!(outcome.result, "exit code: 0\nfrom the workspace");
}

#[test]
fn bash_is_refused_for_chat_groups() {
    let mut desk = Desk::new(ToolProfile::Chat);
    let outcome = desk.run(&call(BASH, r#"{"command":"echo hi"}"#));
    assert!(outcome.result.contains("not available"));
}

#[test]
fn bad_arguments_become_a_tool_result_not_a_panic() {
    let mut desk = Desk::new(ToolProfile::Coder);
    for name in [SEND_MESSAGE, BASH] {
        let outcome = desk.run(&call(name, "not json"));
        assert!(!outcome.produced_message);
        assert!(outcome.result.contains("error:"), "{name}");
    }
}

#[test]
fn unknown_tool_is_reported_back() {
    let mut desk = Desk::new(ToolProfile::Chat);
    let outcome = desk.run(&call("delete_everything", "{}"));
    assert!(outcome.result.contains("unknown tool"));
}

#[test]
fn server_tools_go_to_the_server_that_is_connected() {
    let mut desk = Desk::new(ToolProfile::Chat);
    let asked = call("web__search", r#"{"q":"rust"}"#);
    assert!(!desk.run(&asked).result.contains("found"));
    desk.context.server = Some("web".to_owned());
    let ToolPlan::Server { tool, arguments } = dispatch(&desk.context, &asked) else {
        panic!("expected a call of the server");
    };
    assert_eq!(tool, "search");
    assert_eq!(arguments.get("q"), Some(&Json::Text("rust".to_owned())));
    assert_eq!(desk.run(&asked).result, "found");
    let other = desk.run(&call("mail__send", "{}"));
    assert_ne!(other.result, "found");
}

#[test]
fn ask_user_question_writes_an_outbound_ask_operation() {
    let mut desk = Desk::new(ToolProfile::Chat);
    let outcome = desk.run(&call(
        ASK_USER_QUESTION,
        r#"{"question":"Deploy now?","options":["ship","wait"]}"#,
    ));
    assert!(outcome.produced_message);
    assert_eq!(desk.sent.len(), 1);
    let content = OutboundContent::parse(&desk.sent[0].content).expect("content");
    assert!(content.text.expect("text").contains("Deploy now?"));
    let Some(Operation::AskQuestion {
        question, options, ..
    }) = content.operation
    else {
        panic!("expected an ask_question operation");
    };
    assert_eq!(question, "Deploy now?");
    assert_eq!(options, vec!["ship".to_owned(), "wait".to_owned()]);
}

#[test]
fn ask_user_question_rejects_fewer_than_two_options() {
    let mut desk = Desk::new(ToolProfile::Chat);
    let outcome = desk.run(&call(
        ASK_USER_QUESTION,
        r#"{"question":"?","options":["only"]}"#,
    ));
    assert!(!outcome.produced_message);
    assert!(outcome.result.contains("at least two options"));
    assert!(desk.sent.is_empty());
}

#[test]
fn admin_tool_appears_only_when_enabled() {
    let without = definitions(ToolProfile::Chat, false, None);
    assert!(!tool_names(&without).contains(&ADMIN));
    let with = definitions(ToolProfile::Chat, true, None);
    assert!(tool_names(&with).contains(&ADMIN));
}

#[test]
fn admin_tool_without_capability_is_refused() {
    let mut desk = Desk::new(ToolProfile::Coder);
    let outcome = desk.run(&call(ADMIN, r#"{"command":"groups-list"}"#));
    assert!(outcome.result.contains("not available"));
}

fn admin_desk(scope: CliScope) -> Desk {
    let mut desk = Desk::new(ToolProfile::Chat);
    desk.context.admin_enabled = true;
    desk.scope = scope;
    desk
}

#[test]
fn admin_tool_runs_a_command_through_the_dispatcher() {
    let mut desk = admin_desk(CliScope::Global);
    let outcome = desk.run(&call(ADMIN, r#"{"command":"groups-list"}"#));
    assert!(outcome.result.starts_with("ok:"), "{}", outcome.result);
    assert!(outcome.result.contains("ops"));
}

#[test]
fn admin_tool_is_scope_gated_like_the_cli() {
    let mut desk = admin_desk(CliScope::Group);
    let outcome = desk.run(&call(ADMIN, r#"{"command":"endpoints-list"}"#));
    assert!(outcome.result.starts_with("error:"), "{}", outcome.result);
    assert!(outcome.result.contains("forbidden") || outcome.result.contains("may not"));
}

#[test]
fn admin_commands_that_need_approval_are_put_to_the_user() {
    let mut desk = admin_desk(CliScope::Global);
    let outcome = desk.run(&call(
        ADMIN,
        r#"{"command":"groups-create","args":{"name":"Spawn"}}"#,
    ));
    assert!(outcome.produced_message, "{}", outcome.result);
    let content = OutboundContent::parse(&desk.sent[0].content).expect("content");
    let Some(Operation::Approval { command, args, .. }) = content.operation else {
        panic!("expected an approval");
    };
    assert_eq!(command, "groups-create");
    assert_eq!(
        args,
        vec![("name".to_owned(), Json::Text("Spawn".to_owned()))]
    );
}
