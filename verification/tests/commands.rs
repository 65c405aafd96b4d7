use claw::commands::connectors::ConnectorDraft;
use claw::commands::gates::enforce_cli_scope;
use claw::commands::registry::{
    finish, Access, Action, ArgKind, ArgSpec, CommandDef, Dispatch, Registry,
};
use claw::commands::resources::{
    slugify, user_kind, ChatDraft, EndpointDraft, Outcome, WiredChat, Work,
};
use claw::commands::CallerContext;
use claw::db::agent_groups::AgentGroup;
use claw::db::connectors::Connector;
use claw::db::endpoints::Endpoint;
use claw::db::messaging_groups::{MessagingGroup, Wiring};
use claw::json::Json;
use claw::protocol::entities::{
    CliScope, EngageMode, IgnoredMessagePolicy, SenderScope, SessionMode, ToolProfile,
    UnknownSenderPolicy,
};
use claw::protocol::frame::{ErrorCode, RequestFrame, ResponseFrame};
use claw::protocol::ids::{
    AgentGroupId, ConnectorId, EndpointName, MessagingGroupId, SessionId, UserId,
};

const STAMP: &str = "2026-06-12T00:00:00.000Z";

fn args(pairs: &[(&str, &str)]) -> Vec<(String, Json)> {
    pairs
        .iter()
        .map(|(k, v)| ((*k).to_owned(), Json::Text((*v).to_owned())))
        .collect()
}

fn text(value: &str) -> Json {
    Json::Text(value.to_owned())
}

fn group_row(id: &str, name: &str, folder: &str, scope: CliScope) -> AgentGroup {
    AgentGroup {
        id: AgentGroupId::new(id),
        name: name.to_owned(),
        folder: folder.to_owned(),
        agent_provider: None,
        endpoint: None,
        model: None,
        thinking_level: None,
        tool_profile: ToolProfile::Chat,
        cli_scope: scope,
        created_at: STAMP.to_owned(),
    }
}

/// Rows in memory, which do the work that a command asks for.
struct Host {
    registry: Registry,
    groups: Vec<AgentGroup>,
    endpoints: Vec<Endpoint>,
    connectors: Vec<Connector>,
    chats: Vec<WiredChat>,
}

/// The chat of a draft, wired to a group.
fn wired_chat(draft: &ChatDraft, group: &AgentGroupId) -> WiredChat {
    WiredChat {
        chat: MessagingGroup {
            id: MessagingGroupId::new("mg-new"),
            channel_type: draft.channel_type.clone(),
            platform_id: "chat-new".to_owned(),
            name: Some(draft.name.clone()),
            is_group: draft.is_group,
            unknown_sender_policy: UnknownSenderPolicy::Strict,
            denied_at: None,
            archived_at: None,
            created_at: STAMP.to_owned(),
        },
        wirings: vec![Wiring {
            id: "wire-new".to_owned(),
            messaging_group_id: MessagingGroupId::new("mg-new"),
            agent_group_id: group.clone(),
            engage_mode: EngageMode::Mention,
            engage_pattern: None,
            sender_scope: SenderScope::All,
            ignored_message_policy: IgnoredMessagePolicy::Drop,
            session_mode: SessionMode::Shared,
            priority: 0,
            created_at: STAMP.to_owned(),
        }],
    }
}

impl Host {
    fn new(groups: Vec<AgentGroup>) -> Host {
        Host {
            registry: Registry::new(),
            groups,
            endpoints: Vec::new(),
            connectors: Vec::new(),
            chats: Vec::new(),
        }
    }

    fn scope(&self, caller: &CallerContext) -> Option<CliScope> {
        match caller {
            CallerContext::Host => None,
            CallerContext::Agent { agent_group_id, .. } => self
                .groups
                .iter()
                .find(|g| g.id == *agent_group_id)
                .map(|g| g.cli_scope),
        }
    }

    fn create_endpoint(&mut self, draft: &EndpointDraft) -> Endpoint {
        let row = Endpoint {
            name: draft.name.clone(),
            base_url: draft.base_url.clone(),
            api_key: draft.api_key.clone(),
            api_key_env: draft.api_key_env.clone(),
            notes: draft.notes.clone(),
            created_at: STAMP.to_owned(),
        };
        self.endpoints.push(row.clone());
        row
    }

    fn create_connector(&mut self, draft: &ConnectorDraft) -> Option<Connector> {
        self.groups.iter().find(|g| g.id == draft.agent_group)?;
        let row = Connector {
            id: ConnectorId::new("conn-1"),
            label: draft.label.clone(),
            config: draft.config.clone(),
            agent_group_id: draft.agent_group.clone(),
            enabled: true,
            created_at: STAMP.to_owned(),
        };
        self.connectors.push(row.clone());
        Some(row)
    }

    fn execute(&mut self, work: &Work) -> Outcome {
        match work {
            Work::ListEndpoints => Outcome::Endpoints(self.endpoints.clone()),
            Work::CreateEndpoint(draft) => Outcome::Endpoint(Some(self.create_endpoint(draft))),
            Work::UpdateEndpoint(name, change) => {
                Outcome::Endpoint(self.endpoints.iter_mut().find(|e| e.name == *name).map(|e| {
                    *e = change.apply(e);
                    e.clone()
                }))
            }
            Work::DeleteEndpoint(name) => {
                let before = self.endpoints.len();
                self.endpoints.retain(|e| e.name != *name);
                Outcome::Changed(self.endpoints.len() < before)
            }
            Work::ListGroups => Outcome::Groups(self.groups.clone()),
            Work::GetGroup(id) => {
                Outcome::Group(self.groups.iter().find(|g| g.id == *id).cloned())
            }
            Work::CreateGroup(draft) => {
                let row = group_row("ag-new", &draft.name, &draft.folder, CliScope::Group);
                self.groups.push(row.clone());
                self.chats.push(wired_chat(&draft.chat, &row.id));
                Outcome::NewGroup(row.clone(), wired_chat(&draft.chat, &row.id))
            }
            Work::UpdateGroup(id, change) => {
                Outcome::Group(self.groups.iter_mut().find(|g| g.id == *id).map(|g| {
                    *g = change.apply(g);
                    g.clone()
                }))
            }
            Work::ListConnectors => Outcome::Connectors(self.connectors.clone()),
            Work::CreateConnector(draft) => Outcome::Connector(self.create_connector(draft)),
            Work::UpdateConnector(id, change) => {
                Outcome::Connector(self.connectors.iter_mut().find(|c| c.id == *id).map(|c| {
                    *c = change.apply(c);
                    c.clone()
                }))
            }
            Work::DeleteConnector(id) => {
                let before = self.connectors.len();
                self.connectors.retain(|c| c.id != *id);
                Outcome::Changed(self.connectors.len() < before)
            }
            _ => Outcome::Failed("not held here".to_owned()),
        }
    }

    fn complete(&mut self, dispatch: Dispatch) -> ResponseFrame {
        match dispatch {
            Dispatch::Respond(response) => response,
            Dispatch::Run { id, work } => {
                let outcome = self.execute(&work);
                finish(&id, &work, &outcome)
            }
        }
    }

    fn dispatch(&mut self, request: RequestFrame, caller: CallerContext) -> ResponseFrame {
        let scope = Ok(self.scope(&caller));
        let dispatch = self.registry.dispatch(request, &caller, &scope);
        self.complete(dispatch)
    }
}

fn host_with_group(scope: CliScope) -> (Host, AgentGroupId) {
    let row = group_row("ag-coder", "coder", "coder", scope);
    let id = row.id.clone();
    (Host::new(vec![row]), id)
}

fn agent_caller(group_id: &AgentGroupId) -> CallerContext {
    CallerContext::Agent {
        session_id: SessionId::new("s-test"),
        agent_group_id: group_id.clone(),
        messaging_group_id: None,
    }
}

fn request(command: &str, pairs: &[(&str, &str)]) -> RequestFrame {
    RequestFrame {
        id: "req-1".to_owned(),
        command: command.to_owned(),
        args: args(pairs),
    }
}

fn code(response: &ResponseFrame) -> ErrorCode {
    response.error.as_ref().expect("error").code
}

fn data(response: ResponseFrame) -> Json {
    assert!(response.ok, "{:?}", response.error);
    response.data.expect("data")
}

fn rows(value: Json) -> Vec<Json> {
    match value {
        Json::List(rows) => rows,
        other => panic!("expected a list, got {other:?}"),
    }
}

fn command(resource: &'static str, args: Vec<ArgSpec>) -> CommandDef {
    CommandDef {
        name: "x-y",
        summary: "",
        resource,
        access: Access::Open,
        args,
        action: Action::GroupsList,
    }
}

fn id_arg() -> Vec<ArgSpec> {
    vec![ArgSpec {
        name: "id",
        label: "id",
        kind: ArgKind::Text,
        required: false,
    }]
}

fn own_group() -> AgentGroupId {
    AgentGroupId::new("ag-self")
}

#[test]
fn disabled_blocks_everything() {
    let result = enforce_cli_scope(
        CliScope::Disabled,
        &command("groups", Vec::new()),
        &own_group(),
        Vec::new(),
    );
    assert_eq!(result.unwrap_err().code, ErrorCode::Forbidden);
}

#[test]
fn global_allows_anything_unchanged() {
    let original = args(&[("id", "ag-other")]);
    let result = enforce_cli_scope(
        CliScope::Global,
        &command("endpoints", id_arg()),
        &own_group(),
        args(&[("id", "ag-other")]),
    );
    assert_eq!(result.expect("allowed"), original);
}

#[test]
fn group_scope_rejects_non_whitelisted_resources() {
    let result = enforce_cli_scope(
        CliScope::Group,
        &command("endpoints", Vec::new()),
        &own_group(),
        Vec::new(),
    );
    assert_eq!(result.unwrap_err().code, ErrorCode::Forbidden);
}

#[test]
fn group_scope_autofills_the_callers_own_group() {
    let filled = enforce_cli_scope(
        CliScope::Group,
        &command("groups", id_arg()),
        &own_group(),
        Vec::new(),
    )
    .expect("allowed");
    assert_eq!(filled, args(&[("id", "ag-self")]));
}

#[test]
fn group_scope_forces_group_arguments_that_are_no_text() {
    let given = vec![
        ("group".to_owned(), Json::Number("5".to_owned())),
        ("id".to_owned(), Json::Null),
        ("name".to_owned(), Json::Number("7".to_owned())),
    ];
    let forced = enforce_cli_scope(
        CliScope::Group,
        &command("groups", id_arg()),
        &own_group(),
        given,
    )
    .expect("allowed");
    let mut expected = args(&[("group", "ag-self"), ("id", "ag-self")]);
    expected.push(("name".to_owned(), Json::Number("7".to_owned())));
    assert_eq!(forced, expected);
}

#[test]
fn group_scope_rejects_acting_on_another_group() {
    let result = enforce_cli_scope(
        CliScope::Group,
        &command("groups", id_arg()),
        &own_group(),
        args(&[("id", "ag-other")]),
    );
    assert_eq!(result.unwrap_err().code, ErrorCode::Forbidden);
}

#[test]
fn group_scope_blocks_cli_scope_changes() {
    let scope_arg = vec![ArgSpec {
        name: "cli_scope",
        label: "scope",
        kind: ArgKind::Text,
        required: false,
    }];
    let result = enforce_cli_scope(
        CliScope::Group,
        &command("groups", scope_arg),
        &own_group(),
        args(&[("cli_scope", "global")]),
    );
    assert_eq!(result.unwrap_err().code, ErrorCode::Forbidden);
}

#[test]
fn agent_with_group_scope_may_not_touch_endpoints() {
    let (mut host, group_id) = host_with_group(CliScope::Group);
    let response = host.dispatch(request("endpoints-list", &[]), agent_caller(&group_id));
    assert_eq!(code(&response), ErrorCode::Forbidden);
}

#[test]
fn agent_with_group_scope_is_confined_to_its_own_group() {
    let (mut host, group_id) = host_with_group(CliScope::Group);
    let response = host.dispatch(
        request("groups-update", &[("id", "ag-someone-else")]),
        agent_caller(&group_id),
    );
    assert_eq!(code(&response), ErrorCode::Forbidden);
}

#[test]
fn agent_may_not_run_hidden_role_commands() {
    let (mut host, group_id) = host_with_group(CliScope::Global);
    let response = host.dispatch(
        request("roles-grant", &[("user", "web:x"), ("role", "owner")]),
        agent_caller(&group_id),
    );
    assert_eq!(code(&response), ErrorCode::Forbidden);
}

#[test]
fn disabled_scope_blocks_even_open_commands() {
    let (mut host, group_id) = host_with_group(CliScope::Disabled);
    let response = host.dispatch(request("groups-list", &[]), agent_caller(&group_id));
    assert_eq!(code(&response), ErrorCode::Forbidden);
}

#[test]
fn host_caller_bypasses_scope_gating() {
    let (mut host, _group_id) = host_with_group(CliScope::Disabled);
    let response = host.dispatch(request("groups-list", &[]), CallerContext::Host);
    assert!(response.ok, "host must not be scope-gated");
}

#[test]
fn a_scope_that_cannot_be_read_is_a_handler_error() {
    let (host, group_id) = host_with_group(CliScope::Global);
    let dispatch = host.registry.dispatch(
        request("groups-list", &[]),
        &agent_caller(&group_id),
        &Err("database is locked".to_owned()),
    );
    let Dispatch::Respond(response) = dispatch else {
        panic!("nothing may run");
    };
    assert_eq!(code(&response), ErrorCode::HandlerError);
}

fn global_group_with_endpoint() -> (Host, AgentGroupId) {
    let row = group_row("ag-ops", "ops", "ops", CliScope::Global);
    let id = row.id.clone();
    let mut host = Host::new(vec![row]);
    host.endpoints.push(Endpoint {
        name: EndpointName::new("openrouter"),
        base_url: "https://x".to_owned(),
        api_key: None,
        api_key_env: None,
        notes: None,
        created_at: STAMP.to_owned(),
    });
    (host, id)
}

#[test]
fn agent_approval_command_is_held_not_executed() {
    let (mut host, group_id) = global_group_with_endpoint();
    let response = host.dispatch(
        request("endpoints-delete", &[("name", "openrouter")]),
        agent_caller(&group_id),
    );
    assert_eq!(code(&response), ErrorCode::ApprovalPending);
    assert_eq!(
        response.data.expect("payload").get("command"),
        Some(&text("endpoints-delete"))
    );
    assert_eq!(host.endpoints.len(), 1, "must not run before approval");
}

#[test]
fn execute_approved_runs_the_handler_without_gating() {
    let (mut host, _group_id) = global_group_with_endpoint();
    let dispatch = host.registry.execute_approved(
        "id-1",
        "endpoints-delete",
        &args(&[("name", "openrouter")]),
    );
    let response = host.complete(dispatch);
    assert!(response.ok, "{:?}", response.error);
    assert!(host.endpoints.is_empty(), "the approved delete must run");
}

#[test]
fn host_creates_a_group_with_a_wired_chat() {
    let mut host = Host::new(Vec::new());
    let response = host.dispatch(
        request("groups-create", &[("name", "Researcher Bot")]),
        CallerContext::Host,
    );
    assert!(response.ok, "{:?}", response.error);
    let group = host
        .groups
        .iter()
        .find(|group| group.name == "Researcher Bot")
        .expect("group created");
    assert_eq!(group.folder, "researcher-bot", "name is slugified");
    let chat = host
        .chats
        .iter()
        .find(|wired| wired.chat.name.as_deref() == Some("Researcher Bot"))
        .expect("chat created");
    assert_eq!(chat.wirings.len(), 1);
    assert_eq!(chat.wirings[0].agent_group_id, group.id);
    assert_eq!(chat.chat.channel_type, "web");
}

#[test]
fn a_group_without_its_chat_is_no_success() {
    let host = Host::new(Vec::new());
    let dispatch = host.registry.dispatch(
        request("groups-create", &[("name", "Researcher Bot")]),
        &CallerContext::Host,
        &Ok(None),
    );
    let Dispatch::Run { id, work } = dispatch else {
        panic!("must run");
    };
    let Work::CreateGroup(draft) = &work else {
        panic!("must create a group");
    };
    assert_eq!(draft.chat.name, "Researcher Bot");
    assert_eq!(draft.chat.channel_type, "web");
    assert!(!draft.chat.is_group);
    let group = group_row("ag-new", &draft.name, &draft.folder, CliScope::Group);
    let mut wired = wired_chat(&draft.chat, &group.id);
    assert!(draft.fulfilled(&group, &wired));
    wired.wirings.clear();
    assert!(!draft.fulfilled(&group, &wired));
    let response = finish(&id, &work, &Outcome::NewGroup(group, wired));
    assert_eq!(code(&response), ErrorCode::HandlerError);
}

#[test]
fn names_become_folders() {
    assert_eq!(slugify("  A--b c! "), "a-b-c");
}

#[test]
fn agent_group_creation_is_held_for_approval() {
    let (mut host, group_id) = global_group_with_endpoint();
    let response = host.dispatch(
        request("groups-create", &[("name", "Spawn")]),
        agent_caller(&group_id),
    );
    assert_eq!(code(&response), ErrorCode::ApprovalPending);
    assert_eq!(host.groups.len(), 1, "creation was held, not executed");
}

#[test]
fn endpoint_crud_round_trips_through_dispatch() {
    let mut host = Host::new(Vec::new());
    let created = host.dispatch(
        RequestFrame::new(
            "1",
            "endpoints-create",
            args(&[
                ("name", "openrouter"),
                ("base_url", "https://openrouter.ai/api/v1"),
                ("api_key", "sk-secret"),
            ]),
        ),
        CallerContext::Host,
    );
    let made = data(created);
    assert_eq!(made.get("name"), Some(&text("openrouter")));
    assert_eq!(made.get("has_api_key"), Some(&Json::Bool(true)));
    assert!(
        made.get("api_key").is_none() && !made.encode().contains("sk-secret"),
        "raw key must never be echoed"
    );

    let listed = host.dispatch(
        RequestFrame::new("2", "endpoints-list", Vec::new()),
        CallerContext::Host,
    );
    assert_eq!(rows(data(listed)).len(), 1);

    let deleted = host.dispatch(
        RequestFrame::new("3", "endpoints-delete", args(&[("name", "openrouter")])),
        CallerContext::Host,
    );
    assert!(deleted.ok);
    let again = host.dispatch(
        RequestFrame::new("4", "endpoints-delete", args(&[("name", "openrouter")])),
        CallerContext::Host,
    );
    assert_eq!(code(&again), ErrorCode::NotFound);
}

#[test]
fn missing_required_argument_is_an_invalid_args_error() {
    let response = Host::new(Vec::new()).dispatch(
        RequestFrame::new("1", "endpoints-create", Vec::new()),
        CallerContext::Host,
    );
    assert_eq!(code(&response), ErrorCode::InvalidArgs);
}

#[test]
fn unknown_command_is_reported() {
    let response = Host::new(Vec::new()).dispatch(
        RequestFrame::new("1", "nope-nope", Vec::new()),
        CallerContext::Host,
    );
    assert_eq!(code(&response), ErrorCode::UnknownCommand);
}

#[test]
fn groups_update_points_a_group_at_a_model() {
    let row = group_row("ag-andy", "Andy", "andy", CliScope::Group);
    let mut host = Host::new(vec![row]);
    let id = "ag-andy";
    let updated = host.dispatch(
        RequestFrame::new(
            "2",
            "groups-update",
            args(&[
                ("id", id),
                ("agent_provider", "native"),
                ("model", "gemma4-moe"),
                ("tool_profile", "coder"),
            ]),
        ),
        CallerContext::Host,
    );
    let made = data(updated);
    assert_eq!(made.get("model"), Some(&text("gemma4-moe")));
    assert_eq!(made.get("tool_profile"), Some(&text("coder")));

    let bad = host.dispatch(
        RequestFrame::new(
            "3",
            "groups-update",
            args(&[("id", id), ("tool_profile", "wizard")]),
        ),
        CallerContext::Host,
    );
    assert_eq!(code(&bad), ErrorCode::InvalidArgs);
}

fn host_with_andy() -> (Host, &'static str) {
    let row = group_row("ag-andy", "Andy", "andy", CliScope::Group);
    (Host::new(vec![row]), "ag-andy")
}

fn create_sms(host: &mut Host, group: &str) -> Json {
    let created = host.dispatch(
        RequestFrame::new(
            "1",
            "connectors-create",
            args(&[
                ("kind", "sms"),
                ("agent_group", group),
                ("base_url", "http://sim:8080"),
                ("token", "sms_secret"),
            ]),
        ),
        CallerContext::Host,
    );
    data(created)
}

#[test]
fn connector_crud_round_trips_and_never_echoes_secrets() {
    let (mut host, group) = host_with_andy();

    let created = create_sms(&mut host, group);
    assert_eq!(created.get("kind"), Some(&text("sms")));
    assert_eq!(created.get("agent_group"), Some(&text(group)));
    assert_eq!(created.get("enabled"), Some(&Json::Bool(true)));
    assert_eq!(created.get("has_token"), Some(&Json::Bool(true)));
    assert_eq!(created.get("has_webhook_secret"), Some(&Json::Bool(false)));
    assert!(
        created.get("token").is_none() && created.get("webhook_secret").is_none(),
        "secrets must never be echoed"
    );
    let Some(Json::Text(id)) = created.get("id") else {
        panic!("id");
    };

    let updated = host.dispatch(
        RequestFrame::new(
            "2",
            "connectors-update",
            args(&[
                ("id", id),
                ("enabled", "false"),
                ("webhook_secret", "hook-secret"),
            ]),
        ),
        CallerContext::Host,
    );
    let made = data(updated);
    assert_eq!(made.get("enabled"), Some(&Json::Bool(false)));
    assert_eq!(made.get("has_webhook_secret"), Some(&Json::Bool(true)));

    let listed = host.dispatch(
        RequestFrame::new("3", "connectors-list", Vec::new()),
        CallerContext::Host,
    );
    assert_eq!(rows(data(listed)).len(), 1);

    let deleted = host.dispatch(
        RequestFrame::new("4", "connectors-delete", args(&[("id", id)])),
        CallerContext::Host,
    );
    assert!(deleted.ok);
}

#[test]
fn creating_for_an_unknown_agent_group_is_not_found() {
    let (mut host, _group) = host_with_andy();
    let response = host.dispatch(
        RequestFrame::new(
            "1",
            "connectors-create",
            args(&[
                ("kind", "sms"),
                ("agent_group", "ag-ghost"),
                ("base_url", "http://sim:8080"),
                ("token", "sms_secret"),
            ]),
        ),
        CallerContext::Host,
    );
    assert_eq!(code(&response), ErrorCode::NotFound);
}

#[test]
fn a_bad_enabled_value_is_invalid_args() {
    let (mut host, group) = host_with_andy();
    let created = create_sms(&mut host, group);
    let Some(Json::Text(id)) = created.get("id") else {
        panic!("id");
    };
    let response = host.dispatch(
        RequestFrame::new(
            "2",
            "connectors-update",
            args(&[("id", id), ("enabled", "maybe")]),
        ),
        CallerContext::Host,
    );
    assert_eq!(code(&response), ErrorCode::InvalidArgs);
}

#[test]
fn the_kind_of_a_user_is_the_part_before_the_colon() {
    assert_eq!(user_kind(&UserId::new("web:owner")), "web");
    assert_eq!(user_kind(&UserId::new("owner")), "owner");
}

#[test]
fn every_command_is_named_after_its_resource() {
    let registry = Registry::new();
    assert_eq!(registry.commands().len(), 16);
    for def in registry.commands() {
        assert!(def.name.starts_with(def.resource), "{}", def.name);
        assert_eq!(registry.get(def.name), Some(def));
    }
    assert!(registry.get("nope-nope").is_none());
}
