//! The endpoint, agent group, wiring and role commands: what each asks of the
//! database, and what it answers.

use vstd::prelude::*;

use crate::channels::web;
use crate::commands::connectors;
use crate::commands::connectors::{
    connector_change_of, connector_draft_of, connector_json, connector_table,
    connector_value, no_connector, or_else, or_keep, pick, pick_opt, ConnectorChange,
    ConnectorChangeView, ConnectorDraft, ConnectorDraftView,
};
use crate::commands::registry::{
    defs_view, enum_arg, enum_arg_view, handler_error, handler_error_view, invalid, invalid_view,
    not_found, not_found_view, opt_str, optional, require_str, required, text_arg, text_arg_view,
    Access, Action, CommandDef, CommandView,
};
use crate::db::agent_groups::{AgentGroup, AgentGroupView};
use crate::db::connectors::{Connector, ConnectorView};
use crate::db::endpoints::{Endpoint, EndpointView};
use crate::db::messaging_groups::{MessagingGroup, MessagingGroupView, Wiring, WiringView};
use crate::db::users::{RoleGrant, RoleGrantView};
use crate::json;
use crate::json::{Fields, Json, JsonView};
use crate::protocol::entities::{AgentProviderKind, CliScope, ConnectorKind, Role, ToolProfile};
use crate::protocol::frame::{ErrorCode, FrameError, FrameErrorView};
use crate::protocol::ids::{AgentGroupId, ConnectorId, EndpointName, UserId};
use crate::text;

verus! {

broadcast use vstd::string::group_string_axioms;

/// Every command.
pub open spec fn table() -> Seq<CommandView> {
    endpoint_table() + group_table() + wiring_table() + role_table() + connector_table()
}

/// Every command. Adding a resource means adding its definitions here.
pub fn all() -> (r: Vec<CommandDef>)
    ensures
        defs_view(r@) == table(),
{
    let mut out = endpoint_commands();
    let mut more = group_commands();
    proof {
        assert(defs_view(out@ + more@) =~= defs_view(out@) + defs_view(more@));
    }
    out.append(&mut more);
    let mut more = wiring_commands();
    proof {
        assert(defs_view(out@ + more@) =~= defs_view(out@) + defs_view(more@));
    }
    out.append(&mut more);
    let mut more = role_commands();
    proof {
        assert(defs_view(out@ + more@) =~= defs_view(out@) + defs_view(more@));
    }
    out.append(&mut more);
    let mut more = connectors::commands();
    proof {
        assert(defs_view(out@ + more@) =~= defs_view(out@) + defs_view(more@));
    }
    out.append(&mut more);
    out
}

/// The endpoint commands.
pub open spec fn endpoint_table() -> Seq<CommandView> {
    seq![
        CommandView {
            name: "endpoints-list"@,
            summary: "List OpenAI-compatible inference endpoints"@,
            resource: "endpoints"@,
            access: Access::Open,
            args: seq![],
            action: Action::EndpointsList,
        },
        CommandView {
            name: "endpoints-create"@,
            summary: "Add an inference endpoint"@,
            resource: "endpoints"@,
            access: Access::Open,
            args: seq![text_arg_view("name"@, "Name"@, true), text_arg_view("base_url"@, "Base URL"@, true), text_arg_view("api_key"@, "API key"@, false), text_arg_view("api_key_env"@, "API key env var"@, false), text_arg_view("notes"@, "Notes"@, false)],
            action: Action::EndpointsCreate,
        },
        CommandView {
            name: "endpoints-update"@,
            summary: "Update an inference endpoint"@,
            resource: "endpoints"@,
            access: Access::Open,
            args: seq![text_arg_view("name"@, "Name"@, true), text_arg_view("base_url"@, "Base URL"@, false), text_arg_view("api_key"@, "API key"@, false), text_arg_view("api_key_env"@, "API key env var"@, false), text_arg_view("notes"@, "Notes"@, false)],
            action: Action::EndpointsUpdate,
        },
        CommandView {
            name: "endpoints-delete"@,
            summary: "Delete an inference endpoint"@,
            resource: "endpoints"@,
            access: Access::Approval,
            args: seq![text_arg_view("name"@, "Name"@, true)],
            action: Action::EndpointsDelete,
        },
    ]
}

/// The endpoint commands. Deleting is destructive: an agent needs approval for it.
pub fn endpoint_commands() -> (r: Vec<CommandDef>)
    ensures
        defs_view(r@) == endpoint_table(),
{
    let mut r: Vec<CommandDef> = Vec::new();
    r.push(
        CommandDef {
            name: "endpoints-list",
            summary: "List OpenAI-compatible inference endpoints",
            resource: "endpoints",
            access: Access::Open,
            args: vec![],
            action: Action::EndpointsList,
        },
    );
    r.push(
        CommandDef {
            name: "endpoints-create",
            summary: "Add an inference endpoint",
            resource: "endpoints",
            access: Access::Open,
            args: vec![text_arg("name", "Name", true), text_arg("base_url", "Base URL", true), text_arg("api_key", "API key", false), text_arg("api_key_env", "API key env var", false), text_arg("notes", "Notes", false)],
            action: Action::EndpointsCreate,
        },
    );
    r.push(
        CommandDef {
            name: "endpoints-update",
            summary: "Update an inference endpoint",
            resource: "endpoints",
            access: Access::Open,
            args: vec![text_arg("name", "Name", true), text_arg("base_url", "Base URL", false), text_arg("api_key", "API key", false), text_arg("api_key_env", "API key env var", false), text_arg("notes", "Notes", false)],
            action: Action::EndpointsUpdate,
        },
    );
    r.push(
        CommandDef {
            name: "endpoints-delete",
            summary: "Delete an inference endpoint",
            resource: "endpoints",
            access: Access::Approval,
            args: vec![text_arg("name", "Name", true)],
            action: Action::EndpointsDelete,
        },
    );
    proof {
        assert(r@[0]@ =~~= endpoint_table()[0]);
        assert(r@[1]@ =~~= endpoint_table()[1]);
        assert(r@[2]@ =~~= endpoint_table()[2]);
        assert(r@[3]@ =~~= endpoint_table()[3]);
        assert(defs_view(r@) =~= endpoint_table());
    }
    r
}

/// The agent group commands.
pub open spec fn group_table() -> Seq<CommandView> {
    seq![
        CommandView {
            name: "groups-list"@,
            summary: "List agent groups"@,
            resource: "groups"@,
            access: Access::Open,
            args: seq![],
            action: Action::GroupsList,
        },
        CommandView {
            name: "groups-get"@,
            summary: "Show one agent group"@,
            resource: "groups"@,
            access: Access::Open,
            args: seq![text_arg_view("id"@, "Group id"@, true)],
            action: Action::GroupsGet,
        },
        CommandView {
            name: "groups-create"@,
            summary: "Create an agent group with a chat of its own"@,
            resource: "groups"@,
            access: Access::Approval,
            args: seq![text_arg_view("name"@, "Name"@, true)],
            action: Action::GroupsCreate,
        },
        CommandView {
            name: "groups-update"@,
            summary: "Update an agent group's provider/endpoint/model/profile"@,
            resource: "groups"@,
            access: Access::Open,
            args: seq![text_arg_view("id"@, "Group id"@, true), text_arg_view("name"@, "Name"@, false), enum_arg_view("agent_provider"@, "Provider"@, seq!["native"@, "echo"@], false), text_arg_view("endpoint"@, "Endpoint"@, false), text_arg_view("model"@, "Model"@, false), enum_arg_view("tool_profile"@, "Tool profile"@, seq!["chat"@, "coder"@], false), enum_arg_view("cli_scope"@, "CLI scope"@, seq!["disabled"@, "group"@, "global"@], false)],
            action: Action::GroupsUpdate,
        },
    ]
}

/// The agent group commands.
pub fn group_commands() -> (r: Vec<CommandDef>)
    ensures
        defs_view(r@) == group_table(),
{
    let mut r: Vec<CommandDef> = Vec::new();
    r.push(
        CommandDef {
            name: "groups-list",
            summary: "List agent groups",
            resource: "groups",
            access: Access::Open,
            args: vec![],
            action: Action::GroupsList,
        },
    );
    r.push(
        CommandDef {
            name: "groups-get",
            summary: "Show one agent group",
            resource: "groups",
            access: Access::Open,
            args: vec![text_arg("id", "Group id", true)],
            action: Action::GroupsGet,
        },
    );
    r.push(
        CommandDef {
            name: "groups-create",
            summary: "Create an agent group with a chat of its own",
            resource: "groups",
            access: Access::Approval,
            args: vec![text_arg("name", "Name", true)],
            action: Action::GroupsCreate,
        },
    );
    r.push(
        CommandDef {
            name: "groups-update",
            summary: "Update an agent group's provider/endpoint/model/profile",
            resource: "groups",
            access: Access::Open,
            args: vec![text_arg("id", "Group id", true), text_arg("name", "Name", false), enum_arg("agent_provider", "Provider", vec!["native", "echo"], false), text_arg("endpoint", "Endpoint", false), text_arg("model", "Model", false), enum_arg("tool_profile", "Tool profile", vec!["chat", "coder"], false), enum_arg("cli_scope", "CLI scope", vec!["disabled", "group", "global"], false)],
            action: Action::GroupsUpdate,
        },
    );
    proof {
        assert(r@[0]@ =~~= group_table()[0]);
        assert(r@[1]@ =~~= group_table()[1]);
        assert(r@[2]@ =~~= group_table()[2]);
        assert(r@[3]@ =~~= group_table()[3]);
        assert(defs_view(r@) =~= group_table());
    }
    r
}

/// The wiring commands.
pub open spec fn wiring_table() -> Seq<CommandView> {
    seq![
        CommandView {
            name: "wirings-list"@,
            summary: "List which agent groups handle which chats"@,
            resource: "wirings"@,
            access: Access::Open,
            args: seq![],
            action: Action::WiringsList,
        },
    ]
}

/// The wiring commands.
pub fn wiring_commands() -> (r: Vec<CommandDef>)
    ensures
        defs_view(r@) == wiring_table(),
{
    let mut r: Vec<CommandDef> = Vec::new();
    r.push(
        CommandDef {
            name: "wirings-list",
            summary: "List which agent groups handle which chats",
            resource: "wirings",
            access: Access::Open,
            args: vec![],
            action: Action::WiringsList,
        },
    );
    proof {
        assert(r@[0]@ =~~= wiring_table()[0]);
        assert(defs_view(r@) =~= wiring_table());
    }
    r
}

/// The role commands.
pub open spec fn role_table() -> Seq<CommandView> {
    seq![
        CommandView {
            name: "roles-list"@,
            summary: "List a user's role grants"@,
            resource: "roles"@,
            access: Access::Open,
            args: seq![text_arg_view("user"@, "User id (e.g. web:owner)"@, true)],
            action: Action::RolesList,
        },
        CommandView {
            name: "roles-grant"@,
            summary: "Grant owner (global) or admin (global or scoped to a group)"@,
            resource: "roles"@,
            access: Access::Hidden,
            args: seq![text_arg_view("user"@, "User id (e.g. web:owner)"@, true), enum_arg_view("role"@, "Role"@, seq!["owner"@, "admin"@], true), text_arg_view("agent_group"@, "Agent group (admin only; omit for global)"@, false)],
            action: Action::RolesGrant,
        },
        CommandView {
            name: "roles-revoke"@,
            summary: "Revoke a role grant"@,
            resource: "roles"@,
            access: Access::Hidden,
            args: seq![text_arg_view("user"@, "User id (e.g. web:owner)"@, true), enum_arg_view("role"@, "Role"@, seq!["owner"@, "admin"@], true), text_arg_view("agent_group"@, "Agent group (admin only; omit for global)"@, false)],
            action: Action::RolesRevoke,
        },
    ]
}

/// The role commands. Agents must not grant themselves power, so these that change roles are hidden from them.
pub fn role_commands() -> (r: Vec<CommandDef>)
    ensures
        defs_view(r@) == role_table(),
{
    let mut r: Vec<CommandDef> = Vec::new();
    r.push(
        CommandDef {
            name: "roles-list",
            summary: "List a user's role grants",
            resource: "roles",
            access: Access::Open,
            args: vec![text_arg("user", "User id (e.g. web:owner)", true)],
            action: Action::RolesList,
        },
    );
    r.push(
        CommandDef {
            name: "roles-grant",
            summary: "Grant owner (global) or admin (global or scoped to a group)",
            resource: "roles",
            access: Access::Hidden,
            args: vec![text_arg("user", "User id (e.g. web:owner)", true), enum_arg("role", "Role", vec!["owner", "admin"], true), text_arg("agent_group", "Agent group (admin only; omit for global)", false)],
            action: Action::RolesGrant,
        },
    );
    r.push(
        CommandDef {
            name: "roles-revoke",
            summary: "Revoke a role grant",
            resource: "roles",
            access: Access::Hidden,
            args: vec![text_arg("user", "User id (e.g. web:owner)", true), enum_arg("role", "Role", vec!["owner", "admin"], true), text_arg("agent_group", "Agent group (admin only; omit for global)", false)],
            action: Action::RolesRevoke,
        },
    );
    proof {
        assert(r@[0]@ =~~= role_table()[0]);
        assert(r@[1]@ =~~= role_table()[1]);
        assert(r@[2]@ =~~= role_table()[2]);
        assert(defs_view(r@) =~= role_table());
    }
    r
}


/// An endpoint to be added.
#[derive(Debug, PartialEq, Eq)]
pub struct EndpointDraft {
    pub name: EndpointName,
    pub base_url: String,
    pub api_key: Option<String>,
    pub api_key_env: Option<String>,
    pub notes: Option<String>,
}

/// The mathematical value of an [`EndpointDraft`].
#[verifier::ext_equal]
pub struct EndpointDraftView {
    pub name: Seq<char>,
    pub base_url: Seq<char>,
    pub api_key: Option<Seq<char>>,
    pub api_key_env: Option<Seq<char>>,
    pub notes: Option<Seq<char>>,
}

impl EndpointDraft {
    pub open spec fn view(&self) -> EndpointDraftView {
        EndpointDraftView {
            name: self.name@,
            base_url: self.base_url@,
            api_key: text::opt_view(self.api_key),
            api_key_env: text::opt_view(self.api_key_env),
            notes: text::opt_view(self.notes),
        }
    }
}

/// What to change of an endpoint; absent parts stay.
#[derive(Debug, PartialEq, Eq)]
pub struct EndpointChange {
    pub base_url: Option<String>,
    pub api_key: Option<String>,
    pub api_key_env: Option<String>,
    pub notes: Option<String>,
}

/// The mathematical value of an [`EndpointChange`].
#[verifier::ext_equal]
pub struct EndpointChangeView {
    pub base_url: Option<Seq<char>>,
    pub api_key: Option<Seq<char>>,
    pub api_key_env: Option<Seq<char>>,
    pub notes: Option<Seq<char>>,
}

impl EndpointChange {
    pub open spec fn view(&self) -> EndpointChangeView {
        EndpointChangeView {
            base_url: text::opt_view(self.base_url),
            api_key: text::opt_view(self.api_key),
            api_key_env: text::opt_view(self.api_key_env),
            notes: text::opt_view(self.notes),
        }
    }
}

/// What to change of an agent group; absent parts stay.
#[derive(Debug, PartialEq, Eq)]
pub struct GroupChange {
    pub name: Option<String>,
    pub agent_provider: Option<AgentProviderKind>,
    pub endpoint: Option<String>,
    pub model: Option<String>,
    pub tool_profile: Option<ToolProfile>,
    pub cli_scope: Option<CliScope>,
}

/// The mathematical value of a [`GroupChange`].
#[verifier::ext_equal]
pub struct GroupChangeView {
    pub name: Option<Seq<char>>,
    pub agent_provider: Option<AgentProviderKind>,
    pub endpoint: Option<Seq<char>>,
    pub model: Option<Seq<char>>,
    pub tool_profile: Option<ToolProfile>,
    pub cli_scope: Option<CliScope>,
}

impl GroupChange {
    pub open spec fn view(&self) -> GroupChangeView {
        GroupChangeView {
            name: text::opt_view(self.name),
            agent_provider: self.agent_provider,
            endpoint: text::opt_view(self.endpoint),
            model: text::opt_view(self.model),
            tool_profile: self.tool_profile,
            cli_scope: self.cli_scope,
        }
    }
}


// ---------------------------------------------------------------------------
// Endpoints

/// What a response shows of an endpoint: whether it has a key, never the key.
pub open spec fn endpoint_value(e: EndpointView) -> JsonView {
    JsonView::Object(
        seq![
            ("api_key_env"@, json::text_or_null(e.api_key_env)),
            ("base_url"@, JsonView::Text(e.base_url)),
            ("has_api_key"@, JsonView::Bool(e.api_key is Some)),
            ("name"@, JsonView::Text(e.name)),
            ("notes"@, json::text_or_null(e.notes)),
        ],
    )
}

/// What a response shows of an endpoint.
pub fn endpoint_json(endpoint: &Endpoint) -> (r: Json)
    ensures
        r@ == endpoint_value(endpoint@),
{
    let mut fields: Vec<(String, Json)> = Vec::new();
    json::add_field(&mut fields, "api_key_env", json::text_or_null_json(&endpoint.api_key_env));
    json::add_field(&mut fields, "base_url", json::text_json(&endpoint.base_url));
    json::add_field(&mut fields, "has_api_key", Json::Bool(endpoint.api_key.is_some()));
    json::add_field(&mut fields, "name", json::text_json(endpoint.name.as_str()));
    json::add_field(&mut fields, "notes", json::text_or_null_json(&endpoint.notes));
    let r = json::object(fields);
    assert(r@->Object_0 =~= endpoint_value(endpoint@)->Object_0);
    r
}

/// The endpoint that the arguments ask for, or why they are refused.
pub open spec fn endpoint_draft_of(args: Fields) -> Result<EndpointDraftView, FrameErrorView> {
    match required(args, "name"@) {
        Err(e) => Err(e),
        Ok(name) => match required(args, "base_url"@) {
            Err(e) => Err(e),
            Ok(base_url) => Ok(
                EndpointDraftView {
                    name,
                    base_url,
                    api_key: optional(args, "api_key"@),
                    api_key_env: optional(args, "api_key_env"@),
                    notes: optional(args, "notes"@),
                },
            ),
        },
    }
}

/// The endpoint that the arguments ask for.
pub fn endpoints_create(args: &Vec<(String, Json)>) -> (r: Result<EndpointDraft, FrameError>)
    ensures
        match r {
            Ok(draft) => endpoint_draft_of(json::fields_view(args@)) == Ok::<
                EndpointDraftView,
                FrameErrorView,
            >(draft@),
            Err(e) => endpoint_draft_of(json::fields_view(args@)) == Err::<
                EndpointDraftView,
                FrameErrorView,
            >(e@),
        },
{
    let name = EndpointName::new(&require_str(args, "name")?);
    let base_url = require_str(args, "base_url")?;
    Ok(
        EndpointDraft {
            name,
            base_url,
            api_key: opt_str(args, "api_key"),
            api_key_env: opt_str(args, "api_key_env"),
            notes: opt_str(args, "notes"),
        },
    )
}

/// The change that the arguments ask for, and the endpoint that it is for.
pub open spec fn endpoint_change_of(args: Fields) -> Result<
    (Seq<char>, EndpointChangeView),
    FrameErrorView,
> {
    match required(args, "name"@) {
        Err(e) => Err(e),
        Ok(name) => Ok(
            (
                name,
                EndpointChangeView {
                    base_url: optional(args, "base_url"@),
                    api_key: optional(args, "api_key"@),
                    api_key_env: optional(args, "api_key_env"@),
                    notes: optional(args, "notes"@),
                },
            ),
        ),
    }
}

/// The change that the arguments ask for, and the endpoint that it is for.
pub fn endpoints_update(args: &Vec<(String, Json)>) -> (r: Result<
    (EndpointName, EndpointChange),
    FrameError,
>)
    ensures
        match r {
            Ok((name, change)) => endpoint_change_of(json::fields_view(args@)) == Ok::<
                (Seq<char>, EndpointChangeView),
                FrameErrorView,
            >((name@, change@)),
            Err(e) => endpoint_change_of(json::fields_view(args@)) == Err::<
                (Seq<char>, EndpointChangeView),
                FrameErrorView,
            >(e@),
        },
{
    let name = EndpointName::new(&require_str(args, "name")?);
    Ok(
        (
            name,
            EndpointChange {
                base_url: opt_str(args, "base_url"),
                api_key: opt_str(args, "api_key"),
                api_key_env: opt_str(args, "api_key_env"),
                notes: opt_str(args, "notes"),
            },
        ),
    )
}

/// An endpoint after a change.
pub open spec fn changed_endpoint(e: EndpointView, change: EndpointChangeView) -> EndpointView {
    EndpointView {
        name: e.name,
        base_url: or_else(change.base_url, e.base_url),
        api_key: or_keep(change.api_key, e.api_key),
        api_key_env: or_keep(change.api_key_env, e.api_key_env),
        notes: or_keep(change.notes, e.notes),
        created_at: e.created_at,
    }
}

impl EndpointChange {
    /// The endpoint after the change.
    pub fn apply(&self, endpoint: &Endpoint) -> (r: Endpoint)
        ensures
            r@ == changed_endpoint(endpoint@, self@),
    {
        Endpoint {
            name: endpoint.name.clone(),
            base_url: pick(&self.base_url, &endpoint.base_url),
            api_key: pick_opt(&self.api_key, &endpoint.api_key),
            api_key_env: pick_opt(&self.api_key_env, &endpoint.api_key_env),
            notes: pick_opt(&self.notes, &endpoint.notes),
            created_at: endpoint.created_at.clone(),
        }
    }
}

/// The error for an endpoint that does not exist.
pub open spec fn no_endpoint(name: Seq<char>) -> FrameErrorView {
    not_found_view("no endpoint EndpointName("@ + text::quoted(name) + ")"@)
}

// ---------------------------------------------------------------------------
// Agent groups

/// The text of a provider, or null.
pub open spec fn provider_value(provider: Option<AgentProviderKind>) -> JsonView {
    match provider {
        Some(p) => JsonView::Text(p.text()),
        None => JsonView::Null,
    }
}

/// What a response shows of an agent group.
pub open spec fn group_value(g: AgentGroupView) -> JsonView {
    JsonView::Object(
        seq![
            ("agent_provider"@, provider_value(g.agent_provider)),
            ("cli_scope"@, JsonView::Text(g.cli_scope.text())),
            ("endpoint"@, json::text_or_null(g.endpoint)),
            ("folder"@, JsonView::Text(g.folder)),
            ("id"@, JsonView::Text(g.id)),
            ("model"@, json::text_or_null(g.model)),
            ("name"@, JsonView::Text(g.name)),
            ("tool_profile"@, JsonView::Text(g.tool_profile.text())),
        ],
    )
}

/// What a response shows of an agent group.
pub fn group_json(group: &AgentGroup) -> (r: Json)
    ensures
        r@ == group_value(group@),
{
    let mut fields: Vec<(String, Json)> = Vec::new();
    let provider = match group.agent_provider {
        Some(p) => json::text_json(p.as_str()),
        None => Json::Null,
    };
    json::add_field(&mut fields, "agent_provider", provider);
    json::add_field(&mut fields, "cli_scope", json::text_json(group.cli_scope.as_str()));
    let endpoint = match &group.endpoint {
        Some(name) => json::text_json(name.as_str()),
        None => Json::Null,
    };
    json::add_field(&mut fields, "endpoint", endpoint);
    json::add_field(&mut fields, "folder", json::text_json(&group.folder));
    json::add_field(&mut fields, "id", json::text_json(group.id.as_str()));
    json::add_field(&mut fields, "model", json::text_or_null_json(&group.model));
    json::add_field(&mut fields, "name", json::text_json(&group.name));
    json::add_field(&mut fields, "tool_profile", json::text_json(group.tool_profile.as_str()));
    let r = json::object(fields);
    assert(r@->Object_0 =~= group_value(group@)->Object_0);
    r
}

/// The error for an enumeration argument with an unknown text.
pub open spec fn bad_choice(raw: Seq<char>, key: Seq<char>) -> FrameErrorView {
    invalid_view("invalid value "@ + text::quoted(raw) + " for "@ + key)
}

fn bad_choice_error(raw: &str, key: &str) -> (r: FrameError)
    ensures
        r@ == bad_choice(raw@, key@),
{
    let mut message = "invalid value ".to_owned();
    message.append(&text::quote(raw));
    message.append(" for ");
    message.append(key);
    invalid(&message)
}

/// The provider that an argument names, or why it is refused.
pub open spec fn provider_of(args: Fields) -> Result<Option<AgentProviderKind>, FrameErrorView> {
    match optional(args, "agent_provider"@) {
        None => Ok(None),
        Some(raw) => if exists|v: AgentProviderKind| #[trigger] v.text() == raw {
            Ok(Some(choose|v: AgentProviderKind| #[trigger] v.text() == raw))
        } else {
            Err(bad_choice(raw, "agent_provider"@))
        },
    }
}

/// The tool profile that an argument names, or why it is refused.
pub open spec fn profile_of(args: Fields) -> Result<Option<ToolProfile>, FrameErrorView> {
    match optional(args, "tool_profile"@) {
        None => Ok(None),
        Some(raw) => if exists|v: ToolProfile| #[trigger] v.text() == raw {
            Ok(Some(choose|v: ToolProfile| #[trigger] v.text() == raw))
        } else {
            Err(bad_choice(raw, "tool_profile"@))
        },
    }
}

/// The scope that an argument names, or why it is refused.
pub open spec fn scope_of(args: Fields) -> Result<Option<CliScope>, FrameErrorView> {
    match optional(args, "cli_scope"@) {
        None => Ok(None),
        Some(raw) => if exists|v: CliScope| #[trigger] v.text() == raw {
            Ok(Some(choose|v: CliScope| #[trigger] v.text() == raw))
        } else {
            Err(bad_choice(raw, "cli_scope"@))
        },
    }
}

fn parse_provider(args: &Vec<(String, Json)>) -> (r: Result<Option<AgentProviderKind>, FrameError>)
    ensures
        match r {
            Ok(v) => provider_of(json::fields_view(args@)) == Ok::<
                Option<AgentProviderKind>,
                FrameErrorView,
            >(v),
            Err(e) => provider_of(json::fields_view(args@)) == Err::<
                Option<AgentProviderKind>,
                FrameErrorView,
            >(e@),
        },
{
    match opt_str(args, "agent_provider") {
        None => Ok(None),
        Some(raw) => match AgentProviderKind::parse(&raw) {
            Ok(v) => {
                proof {
                    assert(v.text() == raw@);
                    let chosen = choose|w: AgentProviderKind| #[trigger] w.text() == raw@;
                    AgentProviderKind::texts_differ(chosen, v);
                }
                Ok(Some(v))
            },
            Err(_) => Err(bad_choice_error(&raw, "agent_provider")),
        },
    }
}

fn parse_profile(args: &Vec<(String, Json)>) -> (r: Result<Option<ToolProfile>, FrameError>)
    ensures
        match r {
            Ok(v) => profile_of(json::fields_view(args@)) == Ok::<
                Option<ToolProfile>,
                FrameErrorView,
            >(v),
            Err(e) => profile_of(json::fields_view(args@)) == Err::<
                Option<ToolProfile>,
                FrameErrorView,
            >(e@),
        },
{
    match opt_str(args, "tool_profile") {
        None => Ok(None),
        Some(raw) => match ToolProfile::parse(&raw) {
            Ok(v) => {
                proof {
                    assert(v.text() == raw@);
                    let chosen = choose|w: ToolProfile| #[trigger] w.text() == raw@;
                    ToolProfile::texts_differ(chosen, v);
                }
                Ok(Some(v))
            },
            Err(_) => Err(bad_choice_error(&raw, "tool_profile")),
        },
    }
}

fn parse_scope(args: &Vec<(String, Json)>) -> (r: Result<Option<CliScope>, FrameError>)
    ensures
        match r {
            Ok(v) => scope_of(json::fields_view(args@)) == Ok::<Option<CliScope>, FrameErrorView>(v),
            Err(e) => scope_of(json::fields_view(args@)) == Err::<
                Option<CliScope>,
                FrameErrorView,
            >(e@),
        },
{
    match opt_str(args, "cli_scope") {
        None => Ok(None),
        Some(raw) => match CliScope::parse(&raw) {
            Ok(v) => {
                proof {
                    assert(v.text() == raw@);
                    let chosen = choose|w: CliScope| #[trigger] w.text() == raw@;
                    CliScope::texts_differ(chosen, v);
                }
                Ok(Some(v))
            },
            Err(_) => Err(bad_choice_error(&raw, "cli_scope")),
        },
    }
}

/// The change that the arguments ask for, and the group that it is for.
pub open spec fn group_change_of(args: Fields) -> Result<
    (Seq<char>, GroupChangeView),
    FrameErrorView,
> {
    match required(args, "id"@) {
        Err(e) => Err(e),
        Ok(id) => match provider_of(args) {
            Err(e) => Err(e),
            Ok(agent_provider) => match profile_of(args) {
                Err(e) => Err(e),
                Ok(tool_profile) => match scope_of(args) {
                    Err(e) => Err(e),
                    Ok(cli_scope) => Ok(
                        (
                            id,
                            GroupChangeView {
                                name: optional(args, "name"@),
                                agent_provider,
                                endpoint: optional(args, "endpoint"@),
                                model: optional(args, "model"@),
                                tool_profile,
                                cli_scope,
                            },
                        ),
                    ),
                },
            },
        },
    }
}

/// The change that the arguments ask for, and the group that it is for.
pub fn groups_update(args: &Vec<(String, Json)>) -> (r: Result<
    (AgentGroupId, GroupChange),
    FrameError,
>)
    ensures
        match r {
            Ok((id, change)) => group_change_of(json::fields_view(args@)) == Ok::<
                (Seq<char>, GroupChangeView),
                FrameErrorView,
            >((id@, change@)),
            Err(e) => group_change_of(json::fields_view(args@)) == Err::<
                (Seq<char>, GroupChangeView),
                FrameErrorView,
            >(e@),
        },
{
    let id = AgentGroupId::new(&require_str(args, "id")?);
    let agent_provider = parse_provider(args)?;
    let tool_profile = parse_profile(args)?;
    let cli_scope = parse_scope(args)?;
    Ok(
        (
            id,
            GroupChange {
                name: opt_str(args, "name"),
                agent_provider,
                endpoint: opt_str(args, "endpoint"),
                model: opt_str(args, "model"),
                tool_profile,
                cli_scope,
            },
        ),
    )
}

/// An agent group after a change.
pub open spec fn changed_group(g: AgentGroupView, change: GroupChangeView) -> AgentGroupView {
    AgentGroupView {
        id: g.id,
        name: or_else(change.name, g.name),
        folder: g.folder,
        agent_provider: or_keep(change.agent_provider, g.agent_provider),
        endpoint: or_keep(change.endpoint, g.endpoint),
        model: or_keep(change.model, g.model),
        thinking_level: g.thinking_level,
        tool_profile: or_else(change.tool_profile, g.tool_profile),
        cli_scope: or_else(change.cli_scope, g.cli_scope),
        created_at: g.created_at,
    }
}

impl GroupChange {
    /// The agent group after the change.
    pub fn apply(&self, group: &AgentGroup) -> (r: AgentGroup)
        ensures
            r@ == changed_group(group@, self@),
    {
        let endpoint = match &self.endpoint {
            Some(name) => Some(EndpointName::new(name)),
            None => match &group.endpoint {
                Some(name) => Some(name.clone()),
                None => None,
            },
        };
        let agent_provider = match self.agent_provider {
            Some(p) => Some(p),
            None => group.agent_provider,
        };
        let tool_profile = match self.tool_profile {
            Some(p) => p,
            None => group.tool_profile,
        };
        let cli_scope = match self.cli_scope {
            Some(s) => s,
            None => group.cli_scope,
        };
        AgentGroup {
            id: group.id.clone(),
            name: pick(&self.name, &group.name),
            folder: group.folder.clone(),
            agent_provider,
            endpoint,
            model: pick_opt(&self.model, &group.model),
            thinking_level: text::clone_opt(&group.thinking_level),
            tool_profile,
            cli_scope,
            created_at: group.created_at.clone(),
        }
    }
}

/// The error for an agent group that does not exist.
pub open spec fn no_group(id: Seq<char>) -> FrameErrorView {
    not_found_view("no group "@ + id)
}

/// Whether a character is an ASCII letter or digit.
pub open spec fn slug_char(c: char) -> bool {
    'a' <= c <= 'z' || 'A' <= c <= 'Z' || '0' <= c <= '9'
}

/// The runs of ASCII letters and digits of `s[from..]`, in lower case, where
/// `word` is the run read so far.
pub open spec fn slug_words(s: Seq<char>, from: int, word: Seq<char>) -> Seq<Seq<char>>
    decreases s.len() - from,
{
    if from < 0 || from >= s.len() {
        if word.len() > 0 {
            seq![word]
        } else {
            seq![]
        }
    } else if slug_char(s[from]) {
        slug_words(s, from + 1, word.push(text::lower_ascii(s[from])))
    } else if word.len() > 0 {
        seq![word] + slug_words(s, from + 1, seq![])
    } else {
        slug_words(s, from + 1, seq![])
    }
}

/// The folder name that a group's name gives: its runs of letters and digits in
/// lower case, joined by dashes.
pub open spec fn slug(name: Seq<char>) -> Seq<char> {
    text::joined(slug_words(name, 0, seq![]), "-"@)
}

fn to_lower_ascii(c: char) -> (r: char)
    ensures
        r == text::lower_ascii(c),
{
    if 'A' <= c && c <= 'Z' {
        let code: u8 = c as u8 + 32;
        code as char
    } else {
        c
    }
}

/// The folder name that a group's name gives.
pub fn slugify(name: &str) -> (r: String)
    ensures
        r@ == slug(name@),
{
    let list = text::chars(name);
    let mut out: Vec<String> = Vec::new();
    let mut word = String::new();
    let mut size: usize = 0;
    let mut i: usize = 0;
    proof {
        assert(text::views(out@) == Seq::<Seq<char>>::empty());
        assert(word@ == Seq::<char>::empty());
    }
    while i < list.len()
        invariant
            list@ == name@,
            i <= list@.len(),
            size == word@.len(),
            size <= i,
            text::views(out@) + slug_words(name@, i as int, word@) == slug_words(name@, 0, seq![]),
        decreases list@.len() - i,
    {
        let c = list[i];
        if ('a' <= c && c <= 'z') || ('A' <= c && c <= 'Z') || ('0' <= c && c <= '9') {
            word.push(to_lower_ascii(c));
            size += 1;
        } else {
            if size > 0 {
                proof {
                    assert(text::views(out@.push(word)) == text::views(out@).push(word@));
                    assert(text::views(out@).push(word@) + slug_words(name@, i + 1, seq![])
                        == text::views(out@) + slug_words(name@, i as int, word@));
                }
                out.push(word);
                word = String::new();
                size = 0;
            }
            assert(word@ == Seq::<char>::empty());
        }
        i += 1;
    }
    if size > 0 {
        proof {
            assert(text::views(out@.push(word)) == text::views(out@).push(word@));
            assert(text::views(out@).push(word@) == text::views(out@) + seq![word@]);
        }
        out.push(word);
    } else {
        assert(text::views(out@) + Seq::<Seq<char>>::empty() == text::views(out@));
    }
    text::join(&out, "-")
}

/// A chat that is to be made. Its identifiers are drawn when it is.
#[derive(Debug, PartialEq, Eq)]
pub struct ChatDraft {
    pub channel_type: String,
    pub name: String,
    pub is_group: bool,
}

/// The mathematical value of a [`ChatDraft`].
#[verifier::ext_equal]
pub struct ChatDraftView {
    pub channel_type: Seq<char>,
    pub name: Seq<char>,
    pub is_group: bool,
}

impl ChatDraft {
    pub open spec fn view(&self) -> ChatDraftView {
        ChatDraftView {
            channel_type: self.channel_type@,
            name: self.name@,
            is_group: self.is_group,
        }
    }
}

/// A group that is to be made, and the chat that is to be wired to it.
#[derive(Debug, PartialEq, Eq)]
pub struct GroupDraft {
    pub name: String,
    pub folder: String,
    pub chat: ChatDraft,
}

/// The mathematical value of a [`GroupDraft`].
#[verifier::ext_equal]
pub struct GroupDraftView {
    pub name: Seq<char>,
    pub folder: Seq<char>,
    pub chat: ChatDraftView,
}

/// Whether a group and its chat are as a draft asks: the names and the folder, and
/// one wiring, which leads from the chat to the group.
pub open spec fn made_as_drafted(
    draft: GroupDraftView,
    group: AgentGroupView,
    wired: WiredChatView,
) -> bool {
    &&& group.name == draft.name
    &&& group.folder == draft.folder
    &&& wired.chat.channel_type == draft.chat.channel_type
    &&& wired.chat.name == Some(draft.chat.name)
    &&& wired.chat.is_group == draft.chat.is_group
    &&& wired.wirings.len() == 1
    &&& wired.wirings[0].messaging_group_id == wired.chat.id
    &&& wired.wirings[0].agent_group_id == group.id
}

impl GroupDraft {
    pub open spec fn view(&self) -> GroupDraftView {
        GroupDraftView { name: self.name@, folder: self.folder@, chat: self.chat@ }
    }

    /// Whether a group and its chat are as the draft asks.
    pub fn fulfilled(&self, group: &AgentGroup, wired: &WiredChat) -> (r: bool)
        ensures
            r == made_as_drafted(self@, group@, wired@),
    {
        assert(wired@.wirings.len() == wired.wirings@.len());
        if wired.wirings.len() != 1 {
            return false;
        }
        assert(wired@.wirings[0] == wired.wirings@[0]@);
        let named = match &wired.chat.name {
            Some(name) => text::same(name, &self.chat.name),
            None => false,
        };
        named && text::same(&group.name, &self.name) && text::same(&group.folder, &self.folder)
            && text::same(&wired.chat.channel_type, &self.chat.channel_type)
            && wired.chat.is_group == self.chat.is_group && text::same(
            wired.wirings[0].messaging_group_id.as_str(),
            wired.chat.id.as_str(),
        ) && text::same(wired.wirings[0].agent_group_id.as_str(), group.id.as_str())
    }
}

/// The group that the arguments ask for: its name, the folder that the name gives,
/// and a direct chat of the same name on the web channel.
pub open spec fn new_group_of(args: Fields) -> Result<GroupDraftView, FrameErrorView> {
    match required(args, "name"@) {
        Err(e) => Err(e),
        Ok(name) => if slug(name).len() == 0 {
            Err(invalid_view("name needs a letter or a digit"@))
        } else {
            Ok(
                GroupDraftView {
                    name,
                    folder: slug(name),
                    chat: ChatDraftView { channel_type: web::CHANNEL_TYPE@, name, is_group: false },
                },
            )
        },
    }
}

/// The group that the arguments ask for.
pub fn groups_create(args: &Vec<(String, Json)>) -> (r: Result<GroupDraft, FrameError>)
    ensures
        match r {
            Ok(draft) => new_group_of(json::fields_view(args@)) == Ok::<
                GroupDraftView,
                FrameErrorView,
            >(draft@),
            Err(e) => new_group_of(json::fields_view(args@)) == Err::<
                GroupDraftView,
                FrameErrorView,
            >(e@),
        },
{
    let name = require_str(args, "name")?;
    let folder = slugify(&name);
    if folder.as_str().is_empty() {
        return Err(invalid("name needs a letter or a digit"));
    }
    let chat = ChatDraft {
        channel_type: web::CHANNEL_TYPE.to_owned(),
        name: name.clone(),
        is_group: false,
    };
    Ok(GroupDraft { name, folder, chat })
}

// ---------------------------------------------------------------------------
// Wirings

/// What a response shows of one wiring of a chat.
pub open spec fn wiring_value(chat: MessagingGroupView, w: WiringView) -> JsonView {
    JsonView::Object(
        seq![
            ("agent_group"@, JsonView::Text(w.agent_group_id)),
            ("channel"@, JsonView::Text(chat.channel_type)),
            ("engage_mode"@, JsonView::Text(w.engage_mode.text())),
            ("messaging_group"@, JsonView::Text(chat.platform_id)),
            ("session_mode"@, JsonView::Text(w.session_mode.text())),
        ],
    )
}

/// A chat with the wirings of it.
pub struct WiredChat {
    pub chat: MessagingGroup,
    pub wirings: Vec<Wiring>,
}

/// The mathematical value of a [`WiredChat`].
#[verifier::ext_equal]
pub struct WiredChatView {
    pub chat: MessagingGroupView,
    pub wirings: Seq<WiringView>,
}

impl WiredChat {
    pub open spec fn view(&self) -> WiredChatView {
        WiredChatView { chat: self.chat@, wirings: self.wirings@.map_values(|w: Wiring| w@) }
    }
}

/// What a response shows of the wirings of some chats: chat by chat.
pub open spec fn wiring_rows(chats: Seq<WiredChatView>) -> Seq<JsonView>
    decreases chats.len(),
{
    if chats.len() == 0 {
        Seq::empty()
    } else {
        let last = chats.last();
        wiring_rows(chats.drop_last()) + last.wirings.map_values(
            |w: WiringView| wiring_value(last.chat, w),
        )
    }
}

fn wiring_json(chat: &MessagingGroup, wiring: &Wiring) -> (r: Json)
    ensures
        r@ == wiring_value(chat@, wiring@),
{
    let mut fields: Vec<(String, Json)> = Vec::new();
    json::add_field(&mut fields, "agent_group", json::text_json(wiring.agent_group_id.as_str()));
    json::add_field(&mut fields, "channel", json::text_json(&chat.channel_type));
    json::add_field(&mut fields, "engage_mode", json::text_json(wiring.engage_mode.as_str()));
    json::add_field(&mut fields, "messaging_group", json::text_json(&chat.platform_id));
    json::add_field(&mut fields, "session_mode", json::text_json(wiring.session_mode.as_str()));
    let r = json::object(fields);
    assert(r@->Object_0 =~= wiring_value(chat@, wiring@)->Object_0);
    r
}

/// What a response shows of the wirings of some chats.
pub fn wirings_json(chats: &Vec<WiredChat>) -> (r: Json)
    ensures
        r@ == JsonView::List(wiring_rows(chats@.map_values(|c: WiredChat| c@))),
{
    let ghost all = chats@.map_values(|c: WiredChat| c@);
    let mut out: Vec<Json> = Vec::new();
    let mut i: usize = 0;
    assert(json::items_view(out@) =~= wiring_rows(all.take(0)));
    while i < chats.len()
        invariant
            i <= chats@.len(),
            all == chats@.map_values(|c: WiredChat| c@),
            json::items_view(out@) == wiring_rows(all.take(i as int)),
        decreases chats@.len() - i,
    {
        let chat = &chats[i];
        let ghost before = json::items_view(out@);
        let ghost rows = all[i as int].wirings.map_values(
            |w: WiringView| wiring_value(all[i as int].chat, w),
        );
        let mut j: usize = 0;
        assert(before + rows.take(0) =~= before);
        while j < chat.wirings.len()
            invariant
                j <= chat.wirings@.len(),
                i < all.len(),
                all[i as int] == chat@,
                rows == all[i as int].wirings.map_values(
                    |w: WiringView| wiring_value(all[i as int].chat, w),
                ),
                json::items_view(out@) == before + rows.take(j as int),
            decreases chat.wirings@.len() - j,
        {
            let row = wiring_json(&chat.chat, &chat.wirings[j]);
            proof {
                assert(rows[j as int] == row@);
                assert(json::items_view(out@.push(row)) =~= json::items_view(out@).push(row@));
                assert((before + rows.take(j as int)).push(rows[j as int]) =~= before + rows.take(
                    j + 1,
                ));
            }
            out.push(row);
            j += 1;
        }
        proof {
            assert(rows.take(j as int) =~= rows);
            let now = all.take(i + 1);
            assert(now.drop_last() =~= all.take(i as int));
            assert(now.last() == all[i as int]);
        }
        i += 1;
    }
    proof {
        assert(all.take(i as int) =~= all);
        json::lemma_list_view(out);
    }
    Json::List(out)
}

// ---------------------------------------------------------------------------
// Roles

/// What a response shows of a role grant.
pub open spec fn grant_value(g: RoleGrantView) -> JsonView {
    JsonView::Object(
        seq![
            ("agent_group"@, json::text_or_null(g.agent_group_id)),
            ("role"@, JsonView::Text(g.role.text())),
        ],
    )
}

fn grant_json(grant: &RoleGrant) -> (r: Json)
    ensures
        r@ == grant_value(grant@),
{
    let mut fields: Vec<(String, Json)> = Vec::new();
    let group = match &grant.agent_group_id {
        Some(id) => json::text_json(id.as_str()),
        None => Json::Null,
    };
    json::add_field(&mut fields, "agent_group", group);
    json::add_field(&mut fields, "role", json::text_json(grant.role.as_str()));
    let r = json::object(fields);
    assert(r@->Object_0 =~= grant_value(grant@)->Object_0);
    r
}

/// A role, who it is for, and where it holds.
#[derive(Debug, PartialEq, Eq)]
pub struct RoleRequest {
    pub user: UserId,
    pub role: Role,
    pub scope: Option<AgentGroupId>,
}

/// The mathematical value of a [`RoleRequest`].
#[verifier::ext_equal]
pub struct RoleRequestView {
    pub user: Seq<char>,
    pub role: Role,
    pub scope: Option<Seq<char>>,
}

impl RoleRequest {
    pub open spec fn view(&self) -> RoleRequestView {
        RoleRequestView {
            user: self.user@,
            role: self.role,
            scope: match self.scope {
                Some(id) => Some(id@),
                None => None,
            },
        }
    }
}

/// The role that the arguments name, or why they are refused.
pub open spec fn role_request_of(args: Fields) -> Result<RoleRequestView, FrameErrorView> {
    match required(args, "user"@) {
        Err(e) => Err(e),
        Ok(user) => match required(args, "role"@) {
            Err(e) => Err(e),
            Ok(raw) => if exists|role: Role| #[trigger] role.text() == raw {
                Ok(
                    RoleRequestView {
                        user,
                        role: choose|role: Role| #[trigger] role.text() == raw,
                        scope: optional(args, "agent_group"@),
                    },
                )
            } else {
                Err(invalid_view("role must be owner or admin"@))
            },
        },
    }
}

/// The grant that the arguments ask for: an owner is one everywhere.
pub open spec fn role_grant_of(args: Fields) -> Result<RoleRequestView, FrameErrorView> {
    match role_request_of(args) {
        Err(e) => Err(e),
        Ok(request) => if request.role == Role::Owner && request.scope is Some {
            Err(invalid_view("owner is global; do not pass agent_group"@))
        } else {
            Ok(request)
        },
    }
}

fn parse_role_request(args: &Vec<(String, Json)>) -> (r: Result<RoleRequest, FrameError>)
    ensures
        match r {
            Ok(request) => role_request_of(json::fields_view(args@)) == Ok::<
                RoleRequestView,
                FrameErrorView,
            >(request@),
            Err(e) => role_request_of(json::fields_view(args@)) == Err::<
                RoleRequestView,
                FrameErrorView,
            >(e@),
        },
{
    let user = UserId::new(&require_str(args, "user")?);
    let raw = require_str(args, "role")?;
    let role = match Role::parse(&raw) {
        Ok(role) => {
            proof {
                assert(role.text() == raw@);
                let chosen = choose|w: Role| #[trigger] w.text() == raw@;
                Role::texts_differ(chosen, role);
            }
            role
        },
        Err(_) => {
            return Err(invalid("role must be owner or admin"));
        },
    };
    let scope = match opt_str(args, "agent_group") {
        Some(group) => Some(AgentGroupId::new(&group)),
        None => None,
    };
    Ok(RoleRequest { user, role, scope })
}

/// The grant that the arguments ask for.
pub fn roles_grant(args: &Vec<(String, Json)>) -> (r: Result<RoleRequest, FrameError>)
    ensures
        match r {
            Ok(request) => role_grant_of(json::fields_view(args@)) == Ok::<
                RoleRequestView,
                FrameErrorView,
            >(request@),
            Err(e) => role_grant_of(json::fields_view(args@)) == Err::<
                RoleRequestView,
                FrameErrorView,
            >(e@),
        },
{
    let request = parse_role_request(args)?;
    if request.role == Role::Owner && request.scope.is_some() {
        return Err(invalid("owner is global; do not pass agent_group"));
    }
    Ok(request)
}

/// The grant that the arguments ask to take back.
pub fn roles_revoke(args: &Vec<(String, Json)>) -> (r: Result<RoleRequest, FrameError>)
    ensures
        match r {
            Ok(request) => role_request_of(json::fields_view(args@)) == Ok::<
                RoleRequestView,
                FrameErrorView,
            >(request@),
            Err(e) => role_request_of(json::fields_view(args@)) == Err::<
                RoleRequestView,
                FrameErrorView,
            >(e@),
        },
{
    parse_role_request(args)
}

/// The kind of a user: what stands before the first colon of the id.
pub open spec fn user_kind_of(user: Seq<char>) -> Seq<char> {
    text::pieces(user, ':', 0)[0]
}

/// The kind of a user: what stands before the first colon of the id.
pub fn user_kind(user: &UserId) -> (r: String)
    ensures
        r@ == user_kind_of(user@),
{
    let parts = text::split(user.as_str(), ':');
    proof {
        assert(text::pieces(user@, ':', 0).len() > 0);
        assert(text::views(parts@).len() == parts@.len());
        assert(text::views(parts@)[0] == parts@[0]@);
    }
    parts[0].clone()
}

// ---------------------------------------------------------------------------
// What a command asks of the database

/// The work that a command leaves to the database.
pub enum Work {
    ListEndpoints,
    CreateEndpoint(EndpointDraft),
    UpdateEndpoint(EndpointName, EndpointChange),
    DeleteEndpoint(EndpointName),
    ListGroups,
    GetGroup(AgentGroupId),
    CreateGroup(GroupDraft),
    UpdateGroup(AgentGroupId, GroupChange),
    ListWirings,
    ListRoles(UserId),
    GrantRole(RoleRequest),
    RevokeRole(RoleRequest),
    ListConnectors,
    CreateConnector(ConnectorDraft),
    UpdateConnector(ConnectorId, ConnectorChange),
    DeleteConnector(ConnectorId),
}

/// The mathematical value of a [`Work`].
#[verifier::ext_equal]
pub enum WorkView {
    ListEndpoints,
    CreateEndpoint(EndpointDraftView),
    UpdateEndpoint(Seq<char>, EndpointChangeView),
    DeleteEndpoint(Seq<char>),
    ListGroups,
    GetGroup(Seq<char>),
    CreateGroup(GroupDraftView),
    UpdateGroup(Seq<char>, GroupChangeView),
    ListWirings,
    ListRoles(Seq<char>),
    GrantRole(RoleRequestView),
    RevokeRole(RoleRequestView),
    ListConnectors,
    CreateConnector(ConnectorDraftView),
    UpdateConnector(Seq<char>, ConnectorChangeView),
    DeleteConnector(Seq<char>),
}

impl Work {
    pub open spec fn view(&self) -> WorkView {
        match self {
            Work::ListEndpoints => WorkView::ListEndpoints,
            Work::CreateEndpoint(draft) => WorkView::CreateEndpoint(draft@),
            Work::UpdateEndpoint(name, change) => WorkView::UpdateEndpoint(name@, change@),
            Work::DeleteEndpoint(name) => WorkView::DeleteEndpoint(name@),
            Work::ListGroups => WorkView::ListGroups,
            Work::GetGroup(id) => WorkView::GetGroup(id@),
            Work::CreateGroup(draft) => WorkView::CreateGroup(draft@),
            Work::UpdateGroup(id, change) => WorkView::UpdateGroup(id@, change@),
            Work::ListWirings => WorkView::ListWirings,
            Work::ListRoles(user) => WorkView::ListRoles(user@),
            Work::GrantRole(request) => WorkView::GrantRole(request@),
            Work::RevokeRole(request) => WorkView::RevokeRole(request@),
            Work::ListConnectors => WorkView::ListConnectors,
            Work::CreateConnector(draft) => WorkView::CreateConnector(draft@),
            Work::UpdateConnector(id, change) => WorkView::UpdateConnector(id@, change@),
            Work::DeleteConnector(id) => WorkView::DeleteConnector(id@),
        }
    }
}

/// The work that a command leaves to the database for some arguments, or why
/// these are refused.
pub open spec fn work_of(action: Action, args: Fields) -> Result<WorkView, FrameErrorView> {
    match action {
        Action::EndpointsList => Ok(WorkView::ListEndpoints),
        Action::EndpointsCreate => match endpoint_draft_of(args) {
            Ok(draft) => Ok(WorkView::CreateEndpoint(draft)),
            Err(e) => Err(e),
        },
        Action::EndpointsUpdate => match endpoint_change_of(args) {
            Ok((name, change)) => Ok(WorkView::UpdateEndpoint(name, change)),
            Err(e) => Err(e),
        },
        Action::EndpointsDelete => match required(args, "name"@) {
            Ok(name) => Ok(WorkView::DeleteEndpoint(name)),
            Err(e) => Err(e),
        },
        Action::GroupsList => Ok(WorkView::ListGroups),
        Action::GroupsGet => match required(args, "id"@) {
            Ok(id) => Ok(WorkView::GetGroup(id)),
            Err(e) => Err(e),
        },
        Action::GroupsCreate => match new_group_of(args) {
            Ok(draft) => Ok(WorkView::CreateGroup(draft)),
            Err(e) => Err(e),
        },
        Action::GroupsUpdate => match group_change_of(args) {
            Ok((id, change)) => Ok(WorkView::UpdateGroup(id, change)),
            Err(e) => Err(e),
        },
        Action::WiringsList => Ok(WorkView::ListWirings),
        Action::RolesList => match required(args, "user"@) {
            Ok(user) => Ok(WorkView::ListRoles(user)),
            Err(e) => Err(e),
        },
        Action::RolesGrant => match role_grant_of(args) {
            Ok(request) => Ok(WorkView::GrantRole(request)),
            Err(e) => Err(e),
        },
        Action::RolesRevoke => match role_request_of(args) {
            Ok(request) => Ok(WorkView::RevokeRole(request)),
            Err(e) => Err(e),
        },
        Action::ConnectorsList => Ok(WorkView::ListConnectors),
        Action::ConnectorsCreate => match connector_draft_of(args) {
            Ok(draft) => Ok(WorkView::CreateConnector(draft)),
            Err(e) => Err(e),
        },
        Action::ConnectorsUpdate => match connector_change_of(args) {
            Ok((id, change)) => Ok(WorkView::UpdateConnector(id, change)),
            Err(e) => Err(e),
        },
        Action::ConnectorsDelete => match required(args, "id"@) {
            Ok(id) => Ok(WorkView::DeleteConnector(id)),
            Err(e) => Err(e),
        },
    }
}

/// The work that a command leaves to the database for some arguments.
pub fn plan(action: Action, args: &Vec<(String, Json)>) -> (r: Result<Work, FrameError>)
    ensures
        match r {
            Ok(work) => work_of(action, json::fields_view(args@)) == Ok::<WorkView, FrameErrorView>(
                work@,
            ),
            Err(e) => work_of(action, json::fields_view(args@)) == Err::<WorkView, FrameErrorView>(
                e@,
            ),
        },
{
    match action {
        Action::EndpointsList => Ok(Work::ListEndpoints),
        Action::EndpointsCreate => Ok(Work::CreateEndpoint(endpoints_create(args)?)),
        Action::EndpointsUpdate => {
            let (name, change) = endpoints_update(args)?;
            Ok(Work::UpdateEndpoint(name, change))
        },
        Action::EndpointsDelete => Ok(
            Work::DeleteEndpoint(EndpointName::new(&require_str(args, "name")?)),
        ),
        Action::GroupsList => Ok(Work::ListGroups),
        Action::GroupsGet => Ok(Work::GetGroup(AgentGroupId::new(&require_str(args, "id")?))),
        Action::GroupsCreate => Ok(Work::CreateGroup(groups_create(args)?)),
        Action::GroupsUpdate => {
            let (id, change) = groups_update(args)?;
            Ok(Work::UpdateGroup(id, change))
        },
        Action::WiringsList => Ok(Work::ListWirings),
        Action::RolesList => Ok(Work::ListRoles(UserId::new(&require_str(args, "user")?))),
        Action::RolesGrant => Ok(Work::GrantRole(roles_grant(args)?)),
        Action::RolesRevoke => Ok(Work::RevokeRole(roles_revoke(args)?)),
        Action::ConnectorsList => Ok(Work::ListConnectors),
        Action::ConnectorsCreate => Ok(
            Work::CreateConnector(connectors::connectors_create(args)?),
        ),
        Action::ConnectorsUpdate => {
            let (id, change) = connectors::connectors_update(args)?;
            Ok(Work::UpdateConnector(ConnectorId::new(&id), change))
        },
        Action::ConnectorsDelete => Ok(
            Work::DeleteConnector(ConnectorId::new(&require_str(args, "id")?)),
        ),
    }
}

// ---------------------------------------------------------------------------
// What a command answers

/// What the database came back with.
pub enum Outcome {
    Endpoints(Vec<Endpoint>),
    Endpoint(Option<Endpoint>),
    Groups(Vec<AgentGroup>),
    Group(Option<AgentGroup>),
    /// A group that was made, and its chat with the wirings of it.
    NewGroup(AgentGroup, WiredChat),
    Wirings(Vec<WiredChat>),
    Roles(Vec<RoleGrant>),
    Connectors(Vec<Connector>),
    Connector(Option<Connector>),
    Changed(bool),
    Failed(String),
}

/// The mathematical value of an [`Outcome`].
#[verifier::ext_equal]
pub enum OutcomeView {
    Endpoints(Seq<EndpointView>),
    Endpoint(Option<EndpointView>),
    Groups(Seq<AgentGroupView>),
    Group(Option<AgentGroupView>),
    NewGroup(AgentGroupView, WiredChatView),
    Wirings(Seq<WiredChatView>),
    Roles(Seq<RoleGrantView>),
    Connectors(Seq<(ConnectorView, ConnectorKind)>),
    Connector(Option<(ConnectorView, ConnectorKind)>),
    Changed(bool),
    Failed(Seq<char>),
}

impl Outcome {
    pub open spec fn view(&self) -> OutcomeView {
        match self {
            Outcome::Endpoints(rows) => OutcomeView::Endpoints(rows@.map_values(|e: Endpoint| e@)),
            Outcome::Endpoint(row) => OutcomeView::Endpoint(
                match row {
                    Some(e) => Some(e@),
                    None => None,
                },
            ),
            Outcome::Groups(rows) => OutcomeView::Groups(rows@.map_values(|g: AgentGroup| g@)),
            Outcome::Group(row) => OutcomeView::Group(
                match row {
                    Some(g) => Some(g@),
                    None => None,
                },
            ),
            Outcome::NewGroup(group, wired) => OutcomeView::NewGroup(group@, wired@),
            Outcome::Wirings(chats) => OutcomeView::Wirings(chats@.map_values(|c: WiredChat| c@)),
            Outcome::Roles(rows) => OutcomeView::Roles(rows@.map_values(|g: RoleGrant| g@)),
            Outcome::Connectors(rows) => OutcomeView::Connectors(
                rows@.map_values(|c: Connector| (c@, c.config.kind_of())),
            ),
            Outcome::Connector(row) => OutcomeView::Connector(
                match row {
                    Some(c) => Some((c@, c.config.kind_of())),
                    None => None,
                },
            ),
            Outcome::Changed(changed) => OutcomeView::Changed(*changed),
            Outcome::Failed(message) => OutcomeView::Failed(message@),
        }
    }
}

/// An object with one text field.
pub open spec fn single_text(key: Seq<char>, value: Seq<char>) -> JsonView {
    JsonView::Object(seq![(key, JsonView::Text(value))])
}

/// A role change that was made.
pub open spec fn role_done(verb: Seq<char>, request: RoleRequestView) -> JsonView {
    JsonView::Object(
        seq![(verb, JsonView::Text(request.role.text())), ("user"@, JsonView::Text(request.user))],
    )
}

/// What a command answers once the database has done its work.
pub open spec fn answer_of(work: WorkView, outcome: OutcomeView) -> Result<
    JsonView,
    FrameErrorView,
> {
    match (work, outcome) {
        (_, OutcomeView::Failed(message)) => Err(handler_error_view(message)),
        (WorkView::ListEndpoints, OutcomeView::Endpoints(rows)) => Ok(
            JsonView::List(rows.map_values(|e: EndpointView| endpoint_value(e))),
        ),
        (WorkView::CreateEndpoint(_), OutcomeView::Endpoint(Some(e))) => Ok(endpoint_value(e)),
        (WorkView::UpdateEndpoint(_, _), OutcomeView::Endpoint(Some(e))) => Ok(endpoint_value(e)),
        (WorkView::UpdateEndpoint(name, _), OutcomeView::Endpoint(None)) => Err(no_endpoint(name)),
        (WorkView::DeleteEndpoint(name), OutcomeView::Changed(true)) => Ok(
            single_text("deleted"@, name),
        ),
        (WorkView::DeleteEndpoint(name), OutcomeView::Changed(false)) => Err(no_endpoint(name)),
        (WorkView::ListGroups, OutcomeView::Groups(rows)) => Ok(
            JsonView::List(rows.map_values(|g: AgentGroupView| group_value(g))),
        ),
        (WorkView::GetGroup(_), OutcomeView::Group(Some(g))) => Ok(group_value(g)),
        (WorkView::GetGroup(id), OutcomeView::Group(None)) => Err(no_group(id)),
        (WorkView::CreateGroup(draft), OutcomeView::NewGroup(group, wired)) => if made_as_drafted(
            draft,
            group,
            wired,
        ) {
            Ok(group_value(group))
        } else {
            Err(handler_error_view("unexpected database outcome"@))
        },
        (WorkView::UpdateGroup(_, _), OutcomeView::Group(Some(g))) => Ok(group_value(g)),
        (WorkView::UpdateGroup(id, _), OutcomeView::Group(None)) => Err(no_group(id)),
        (WorkView::ListWirings, OutcomeView::Wirings(chats)) => Ok(
            JsonView::List(wiring_rows(chats)),
        ),
        (WorkView::ListRoles(_), OutcomeView::Roles(rows)) => Ok(
            JsonView::List(rows.map_values(|g: RoleGrantView| grant_value(g))),
        ),
        (WorkView::GrantRole(request), OutcomeView::Changed(_)) => Ok(
            role_done("granted"@, request),
        ),
        (WorkView::RevokeRole(request), OutcomeView::Changed(true)) => Ok(
            role_done("revoked"@, request),
        ),
        (WorkView::RevokeRole(_), OutcomeView::Changed(false)) => Err(
            not_found_view("no such grant"@),
        ),
        (WorkView::ListConnectors, OutcomeView::Connectors(rows)) => Ok(
            JsonView::List(
                rows.map_values(|c: (ConnectorView, ConnectorKind)| connector_value(c.0, c.1)),
            ),
        ),
        (WorkView::CreateConnector(_), OutcomeView::Connector(Some((c, kind)))) => Ok(
            connector_value(c, kind),
        ),
        (WorkView::CreateConnector(draft), OutcomeView::Connector(None)) => Err(
            not_found_view("no agent group "@ + draft.agent_group),
        ),
        (WorkView::UpdateConnector(_, _), OutcomeView::Connector(Some((c, kind)))) => Ok(
            connector_value(c, kind),
        ),
        (WorkView::UpdateConnector(id, _), OutcomeView::Connector(None)) => Err(no_connector(id)),
        (WorkView::DeleteConnector(id), OutcomeView::Changed(true)) => Ok(
            single_text("deleted"@, id),
        ),
        (WorkView::DeleteConnector(id), OutcomeView::Changed(false)) => Err(no_connector(id)),
        _ => Err(handler_error_view("unexpected database outcome"@)),
    }
}

fn single_text_json(key: &str, value: &str) -> (r: Json)
    ensures
        r@ == single_text(key@, value@),
{
    let mut fields: Vec<(String, Json)> = Vec::new();
    json::add_field(&mut fields, key, json::text_json(value));
    let r = json::object(fields);
    assert(r@->Object_0 =~= single_text(key@, value@)->Object_0);
    r
}

fn role_done_json(verb: &str, request: &RoleRequest) -> (r: Json)
    ensures
        r@ == role_done(verb@, request@),
{
    let mut fields: Vec<(String, Json)> = Vec::new();
    json::add_field(&mut fields, verb, json::text_json(request.role.as_str()));
    json::add_field(&mut fields, "user", json::text_json(request.user.as_str()));
    let r = json::object(fields);
    assert(r@->Object_0 =~= role_done(verb@, request@)->Object_0);
    r
}

fn no_endpoint_error(name: &EndpointName) -> (r: FrameError)
    ensures
        r@ == no_endpoint(name@),
{
    not_found(&text::concat3("no endpoint EndpointName(", &text::quote(name.as_str()), ")"))
}

fn endpoints_json(rows: &Vec<Endpoint>) -> (r: Json)
    ensures
        r@ == JsonView::List(
            rows@.map_values(|e: Endpoint| e@).map_values(|e: EndpointView| endpoint_value(e)),
        ),
{
    let mut out: Vec<Json> = Vec::new();
    let mut i: usize = 0;
    while i < rows.len()
        invariant
            i <= rows@.len(),
            out@.len() == i,
            forall|j: int| 0 <= j < i ==> (#[trigger] out@[j])@ == endpoint_value(rows@[j]@),
        decreases rows@.len() - i,
    {
        out.push(endpoint_json(&rows[i]));
        i += 1;
    }
    proof {
        json::lemma_list_view(out);
        assert(json::items_view(out@) =~= rows@.map_values(|e: Endpoint| e@).map_values(
            |e: EndpointView| endpoint_value(e),
        ));
    }
    Json::List(out)
}

fn groups_json(rows: &Vec<AgentGroup>) -> (r: Json)
    ensures
        r@ == JsonView::List(
            rows@.map_values(|g: AgentGroup| g@).map_values(|g: AgentGroupView| group_value(g)),
        ),
{
    let mut out: Vec<Json> = Vec::new();
    let mut i: usize = 0;
    while i < rows.len()
        invariant
            i <= rows@.len(),
            out@.len() == i,
            forall|j: int| 0 <= j < i ==> (#[trigger] out@[j])@ == group_value(rows@[j]@),
        decreases rows@.len() - i,
    {
        out.push(group_json(&rows[i]));
        i += 1;
    }
    proof {
        json::lemma_list_view(out);
        assert(json::items_view(out@) =~= rows@.map_values(|g: AgentGroup| g@).map_values(
            |g: AgentGroupView| group_value(g),
        ));
    }
    Json::List(out)
}

fn grants_json(rows: &Vec<RoleGrant>) -> (r: Json)
    ensures
        r@ == JsonView::List(
            rows@.map_values(|g: RoleGrant| g@).map_values(|g: RoleGrantView| grant_value(g)),
        ),
{
    let mut out: Vec<Json> = Vec::new();
    let mut i: usize = 0;
    while i < rows.len()
        invariant
            i <= rows@.len(),
            out@.len() == i,
            forall|j: int| 0 <= j < i ==> (#[trigger] out@[j])@ == grant_value(rows@[j]@),
        decreases rows@.len() - i,
    {
        out.push(grant_json(&rows[i]));
        i += 1;
    }
    proof {
        json::lemma_list_view(out);
        assert(json::items_view(out@) =~= rows@.map_values(|g: RoleGrant| g@).map_values(
            |g: RoleGrantView| grant_value(g),
        ));
    }
    Json::List(out)
}

fn connectors_json(rows: &Vec<Connector>) -> (r: Json)
    ensures
        r@ == JsonView::List(
            rows@.map_values(|c: Connector| (c@, c.config.kind_of())).map_values(
                |c: (ConnectorView, ConnectorKind)| connector_value(c.0, c.1),
            ),
        ),
{
    let mut out: Vec<Json> = Vec::new();
    let mut i: usize = 0;
    while i < rows.len()
        invariant
            i <= rows@.len(),
            out@.len() == i,
            forall|j: int|
                0 <= j < i ==> (#[trigger] out@[j])@ == connector_value(
                    rows@[j]@,
                    rows@[j].config.kind_of(),
                ),
        decreases rows@.len() - i,
    {
        out.push(connector_json(&rows[i]));
        i += 1;
    }
    proof {
        json::lemma_list_view(out);
        assert(json::items_view(out@) =~= rows@.map_values(
            |c: Connector| (c@, c.config.kind_of()),
        ).map_values(|c: (ConnectorView, ConnectorKind)| connector_value(c.0, c.1)));
    }
    Json::List(out)
}

/// What a command answers once the database has done its work.
pub fn answer(work: &Work, outcome: &Outcome) -> (r: Result<Json, FrameError>)
    ensures
        match r {
            Ok(value) => answer_of(work@, outcome@) == Ok::<JsonView, FrameErrorView>(value@),
            Err(e) => answer_of(work@, outcome@) == Err::<JsonView, FrameErrorView>(e@),
        },
{
    match (work, outcome) {
        (_, Outcome::Failed(message)) => Err(handler_error(message)),
        (Work::ListEndpoints, Outcome::Endpoints(rows)) => Ok(endpoints_json(rows)),
        (Work::CreateEndpoint(_), Outcome::Endpoint(Some(e))) => Ok(endpoint_json(e)),
        (Work::UpdateEndpoint(_, _), Outcome::Endpoint(Some(e))) => Ok(endpoint_json(e)),
        (Work::UpdateEndpoint(name, _), Outcome::Endpoint(None)) => Err(no_endpoint_error(name)),
        (Work::DeleteEndpoint(name), Outcome::Changed(deleted)) => {
            if *deleted {
                Ok(single_text_json("deleted", name.as_str()))
            } else {
                Err(no_endpoint_error(name))
            }
        },
        (Work::ListGroups, Outcome::Groups(rows)) => Ok(groups_json(rows)),
        (Work::GetGroup(_), Outcome::Group(Some(g))) => Ok(group_json(g)),
        (Work::GetGroup(id), Outcome::Group(None)) => Err(
            not_found(&text::concat2("no group ", id.as_str())),
        ),
        (Work::CreateGroup(draft), Outcome::NewGroup(group, wired)) => {
            if draft.fulfilled(group, wired) {
                Ok(group_json(group))
            } else {
                Err(handler_error("unexpected database outcome"))
            }
        },
        (Work::UpdateGroup(_, _), Outcome::Group(Some(g))) => Ok(group_json(g)),
        (Work::UpdateGroup(id, _), Outcome::Group(None)) => Err(
            not_found(&text::concat2("no group ", id.as_str())),
        ),
        (Work::ListWirings, Outcome::Wirings(chats)) => Ok(wirings_json(chats)),
        (Work::ListRoles(_), Outcome::Roles(rows)) => Ok(grants_json(rows)),
        (Work::GrantRole(request), Outcome::Changed(_)) => Ok(role_done_json("granted", request)),
        (Work::RevokeRole(request), Outcome::Changed(revoked)) => {
            if *revoked {
                Ok(role_done_json("revoked", request))
            } else {
                Err(not_found("no such grant"))
            }
        },
        (Work::ListConnectors, Outcome::Connectors(rows)) => Ok(connectors_json(rows)),
        (Work::CreateConnector(_), Outcome::Connector(Some(c))) => Ok(connector_json(c)),
        (Work::CreateConnector(draft), Outcome::Connector(None)) => Err(
            not_found(&text::concat2("no agent group ", draft.agent_group.as_str())),
        ),
        (Work::UpdateConnector(_, _), Outcome::Connector(Some(c))) => Ok(connector_json(c)),
        (Work::UpdateConnector(id, _), Outcome::Connector(None)) => Err(
            not_found(&text::concat2("no connector ", id.as_str())),
        ),
        (Work::DeleteConnector(id), Outcome::Changed(deleted)) => {
            if *deleted {
                Ok(single_text_json("deleted", id.as_str()))
            } else {
                Err(not_found(&text::concat2("no connector ", id.as_str())))
            }
        },
        _ => Err(handler_error("unexpected database outcome")),
    }
}

// ---------------------------------------------------------------------------
// Laws

/// A response never depends on the value of a key: endpoints that differ in
/// nothing but the key that each has are shown alike.
pub proof fn endpoint_key_is_never_shown(e: EndpointView, key: Seq<char>)
    requires
        e.api_key is Some,
    ensures
        endpoint_value(EndpointView { api_key: Some(key), ..e }) == endpoint_value(e),
{
}

/// A change that says nothing changes nothing, and making a change twice is
/// making it once; the name and the date of creation stay.
pub proof fn endpoint_changes_settle(e: EndpointView, change: EndpointChangeView)
    ensures
        changed_endpoint(
            e,
            EndpointChangeView { base_url: None, api_key: None, api_key_env: None, notes: None },
        ) == e,
        changed_endpoint(changed_endpoint(e, change), change) == changed_endpoint(e, change),
        changed_endpoint(e, change).name == e.name,
        changed_endpoint(e, change).created_at == e.created_at,
{
}

/// The same of agent groups; the id, the folder and the date of creation stay.
pub proof fn group_changes_settle(g: AgentGroupView, change: GroupChangeView)
    ensures
        changed_group(
            g,
            GroupChangeView {
                name: None,
                agent_provider: None,
                endpoint: None,
                model: None,
                tool_profile: None,
                cli_scope: None,
            },
        ) == g,
        changed_group(changed_group(g, change), change) == changed_group(g, change),
        changed_group(g, change).id == g.id,
        changed_group(g, change).folder == g.folder,
        changed_group(g, change).created_at == g.created_at,
{
}

/// A group that was created has one chat of its own, on the web channel and of its
/// name, and that chat is wired to the group alone.
pub proof fn created_groups_have_a_wired_chat(args: Fields, outcome: OutcomeView)
    requires
        work_of(Action::GroupsCreate, args) is Ok,
        answer_of(work_of(Action::GroupsCreate, args)->Ok_0, outcome) is Ok,
    ensures
        outcome matches OutcomeView::NewGroup(group, wired) && ({
            &&& required(args, "name"@) == Ok::<Seq<char>, FrameErrorView>(group.name)
            &&& group.folder == slug(group.name)
            &&& wired.chat.channel_type == web::CHANNEL_TYPE@
            &&& wired.chat.name == Some(group.name)
            &&& wired.wirings.len() == 1
            &&& wired.wirings[0].messaging_group_id == wired.chat.id
            &&& wired.wirings[0].agent_group_id == group.id
        }),
{
}

/// An owner is never granted for one group alone.
pub proof fn owner_is_granted_everywhere(args: Fields)
    ensures
        role_grant_of(args) matches Ok(request) ==> request.role == Role::Owner ==> request.scope
            is None,
{
}

/// What creates or deletes for good needs the owner's approval, what deals with
/// roles is not for agents, and every other command is open; each command has the
/// resource that its name begins with.
pub proof fn grave_commands_need_approval(i: int)
    requires
        0 <= i < table().len(),
    ensures
        ({
            let c = table()[i];
            &&& c.access == Access::Approval <==> c.action == Action::EndpointsDelete || c.action
                == Action::GroupsCreate || c.action == Action::ConnectorsDelete
            &&& c.access == Access::Hidden <==> c.action == Action::RolesGrant || c.action
                == Action::RolesRevoke
            &&& c.resource == "endpoints"@ <==> c.action == Action::EndpointsList || c.action
                == Action::EndpointsCreate || c.action == Action::EndpointsUpdate || c.action
                == Action::EndpointsDelete
            &&& c.resource == "groups"@ <==> c.action == Action::GroupsList || c.action
                == Action::GroupsGet || c.action == Action::GroupsCreate || c.action
                == Action::GroupsUpdate
            &&& c.resource == "roles"@ <==> c.action == Action::RolesList || c.action
                == Action::RolesGrant || c.action == Action::RolesRevoke
            &&& c.resource == "connectors"@ <==> c.action == Action::ConnectorsList || c.action
                == Action::ConnectorsCreate || c.action == Action::ConnectorsUpdate || c.action
                == Action::ConnectorsDelete
            &&& c.resource == "wirings"@ <==> c.action == Action::WiringsList
        }),
{
    reveal_strlit("endpoints");
    reveal_strlit("groups");
    reveal_strlit("wirings");
    reveal_strlit("roles");
    reveal_strlit("connectors");
    assert("endpoints"@.len() == 9 && "groups"@.len() == 6 && "wirings"@.len() == 7 && "roles"@.len()
        == 5 && "connectors"@.len() == 10);
}

/// An endpoint is drafted of what the arguments say; it needs a name and an address.
pub proof fn endpoints_are_drafted_as_asked(args: Fields)
    ensures
        endpoint_draft_of(args) is Ok <==> optional(args, "name"@) is Some && optional(
            args,
            "base_url"@,
        ) is Some,
        endpoint_draft_of(args) matches Ok(draft) ==> {
            &&& Some(draft.name) == optional(args, "name"@)
            &&& Some(draft.base_url) == optional(args, "base_url"@)
            &&& draft.api_key == optional(args, "api_key"@)
            &&& draft.api_key_env == optional(args, "api_key_env"@)
            &&& draft.notes == optional(args, "notes"@)
        },
        endpoint_draft_of(args) matches Err(e) ==> e.code == ErrorCode::InvalidArgs,
{
}

/// A change of an endpoint names it, and holds what the arguments say and no more.
pub proof fn endpoints_are_changed_as_asked(args: Fields)
    ensures
        endpoint_change_of(args) is Ok <==> optional(args, "name"@) is Some,
        endpoint_change_of(args) matches Ok((name, change)) ==> {
            &&& Some(name) == optional(args, "name"@)
            &&& change.base_url == optional(args, "base_url"@)
            &&& change.api_key == optional(args, "api_key"@)
            &&& change.api_key_env == optional(args, "api_key_env"@)
            &&& change.notes == optional(args, "notes"@)
        },
{
}

/// A changed endpoint has what the change gives and keeps what it leaves out.
pub proof fn endpoints_take_what_is_given(e: EndpointView, change: EndpointChangeView)
    ensures
        ({
            let r = changed_endpoint(e, change);
            &&& change.base_url is Some ==> Some(r.base_url) == change.base_url
            &&& change.base_url is None ==> r.base_url == e.base_url
            &&& change.api_key is Some ==> r.api_key == change.api_key
            &&& change.api_key is None ==> r.api_key == e.api_key
            &&& change.api_key_env is Some ==> r.api_key_env == change.api_key_env
            &&& change.api_key_env is None ==> r.api_key_env == e.api_key_env
            &&& change.notes is Some ==> r.notes == change.notes
            &&& change.notes is None ==> r.notes == e.notes
        }),
{
}

/// A changed group has what the change gives and keeps what it leaves out; how much
/// it thinks is not for a change to say.
pub proof fn groups_take_what_is_given(g: AgentGroupView, change: GroupChangeView)
    ensures
        ({
            let r = changed_group(g, change);
            &&& change.name is Some ==> Some(r.name) == change.name
            &&& change.name is None ==> r.name == g.name
            &&& change.agent_provider is Some ==> r.agent_provider == change.agent_provider
            &&& change.agent_provider is None ==> r.agent_provider == g.agent_provider
            &&& change.endpoint is Some ==> r.endpoint == change.endpoint
            &&& change.endpoint is None ==> r.endpoint == g.endpoint
            &&& change.model is Some ==> r.model == change.model
            &&& change.model is None ==> r.model == g.model
            &&& change.tool_profile is Some ==> Some(r.tool_profile) == change.tool_profile
            &&& change.tool_profile is None ==> r.tool_profile == g.tool_profile
            &&& change.cli_scope is Some ==> Some(r.cli_scope) == change.cli_scope
            &&& change.cli_scope is None ==> r.cli_scope == g.cli_scope
            &&& r.thinking_level == g.thinking_level
        }),
{
}

/// A change of a group names it, and holds what the arguments say and no more; a
/// choice that there is not is refused.
pub proof fn groups_are_changed_as_asked(args: Fields)
    ensures
        group_change_of(args) matches Ok((id, change)) ==> {
            &&& Some(id) == optional(args, "id"@)
            &&& change.name == optional(args, "name"@)
            &&& change.endpoint == optional(args, "endpoint"@)
            &&& change.model == optional(args, "model"@)
            &&& optional(args, "agent_provider"@) == (match change.agent_provider {
                Some(v) => Some(v.text()),
                None => None,
            })
            &&& optional(args, "tool_profile"@) == (match change.tool_profile {
                Some(v) => Some(v.text()),
                None => None,
            })
            &&& optional(args, "cli_scope"@) == (match change.cli_scope {
                Some(v) => Some(v.text()),
                None => None,
            })
        },
        group_change_of(args) matches Err(e) ==> e.code == ErrorCode::InvalidArgs && (optional(
            args,
            "id"@,
        ) is None || optional(args, "agent_provider"@) is Some || optional(args, "tool_profile"@)
            is Some || optional(args, "cli_scope"@) is Some),
{
}

/// An endpoint is shown with what it has under its name, and of its key only whether
/// it has one.
pub proof fn endpoints_are_shown_by_name(e: EndpointView)
    ensures
        endpoint_value(e) matches JsonView::Object(shown) && ({
            &&& json::lookup(shown, "name"@) == Some(JsonView::Text(e.name))
            &&& json::lookup(shown, "base_url"@) == Some(JsonView::Text(e.base_url))
            &&& e.api_key is Some <==> json::lookup(shown, "has_api_key"@) == Some(
                JsonView::Bool(true),
            )
            &&& e.api_key_env is Some ==> json::lookup(shown, "api_key_env"@) == Some(
                JsonView::Text(e.api_key_env->0),
            )
            &&& e.notes is Some ==> json::lookup(shown, "notes"@) == Some(
                JsonView::Text(e.notes->0),
            )
            &&& json::lookup(shown, "api_key"@) is None
        }),
{
    reveal_strlit("api_key");
    reveal_strlit("api_key_env");
    reveal_strlit("base_url");
    reveal_strlit("has_api_key");
    reveal_strlit("name");
    reveal_strlit("notes");
    assert("api_key"@.len() == 7 && "api_key_env"@.len() == 11 && "base_url"@.len() == 8);
    assert("has_api_key"@.len() == 11 && "name"@.len() == 4 && "notes"@.len() == 5);
    assert("api_key_env"@[0] == 'a' && "has_api_key"@[0] == 'h');
    let shown = endpoint_value(e)->Object_0;
    json::lemma_lookup_at(shown, "api_key_env"@, 0);
    json::lemma_lookup_at(shown, "base_url"@, 1);
    json::lemma_lookup_at(shown, "has_api_key"@, 2);
    json::lemma_lookup_at(shown, "name"@, 3);
    json::lemma_lookup_at(shown, "notes"@, 4);
    json::lemma_lookup_absent(shown, "api_key"@);
}

/// A group is shown with each of its settings under its name.
pub proof fn groups_are_shown_by_name(g: AgentGroupView)
    ensures
        group_value(g) matches JsonView::Object(shown) && ({
            &&& json::lookup(shown, "id"@) == Some(JsonView::Text(g.id))
            &&& json::lookup(shown, "name"@) == Some(JsonView::Text(g.name))
            &&& json::lookup(shown, "folder"@) == Some(JsonView::Text(g.folder))
            &&& json::lookup(shown, "cli_scope"@) == Some(JsonView::Text(g.cli_scope.text()))
            &&& json::lookup(shown, "tool_profile"@) == Some(JsonView::Text(g.tool_profile.text()))
            &&& g.agent_provider is Some ==> json::lookup(shown, "agent_provider"@) == Some(
                JsonView::Text(g.agent_provider->0.text()),
            )
            &&& g.endpoint is Some ==> json::lookup(shown, "endpoint"@) == Some(
                JsonView::Text(g.endpoint->0),
            )
            &&& g.model is Some ==> json::lookup(shown, "model"@) == Some(
                JsonView::Text(g.model->0),
            )
        }),
{
    reveal_strlit("agent_provider");
    reveal_strlit("cli_scope");
    reveal_strlit("endpoint");
    reveal_strlit("folder");
    reveal_strlit("id");
    reveal_strlit("model");
    reveal_strlit("name");
    reveal_strlit("tool_profile");
    assert("agent_provider"@.len() == 14 && "cli_scope"@.len() == 9 && "endpoint"@.len() == 8);
    assert("folder"@.len() == 6 && "id"@.len() == 2 && "model"@.len() == 5 && "name"@.len() == 4);
    assert("tool_profile"@.len() == 12);
    let shown = group_value(g)->Object_0;
    json::lemma_lookup_at(shown, "agent_provider"@, 0);
    json::lemma_lookup_at(shown, "cli_scope"@, 1);
    json::lemma_lookup_at(shown, "endpoint"@, 2);
    json::lemma_lookup_at(shown, "folder"@, 3);
    json::lemma_lookup_at(shown, "id"@, 4);
    json::lemma_lookup_at(shown, "model"@, 5);
    json::lemma_lookup_at(shown, "name"@, 6);
    json::lemma_lookup_at(shown, "tool_profile"@, 7);
}

/// A wiring is shown with its chat and its group, and a grant with its role and its
/// scope.
pub proof fn wirings_and_grants_are_shown_by_name(
    chat: MessagingGroupView,
    w: WiringView,
    g: RoleGrantView,
)
    ensures
        wiring_value(chat, w) matches JsonView::Object(shown) && ({
            &&& json::lookup(shown, "agent_group"@) == Some(JsonView::Text(w.agent_group_id))
            &&& json::lookup(shown, "channel"@) == Some(JsonView::Text(chat.channel_type))
            &&& json::lookup(shown, "messaging_group"@) == Some(JsonView::Text(chat.platform_id))
            &&& json::lookup(shown, "engage_mode"@) == Some(JsonView::Text(w.engage_mode.text()))
            &&& json::lookup(shown, "session_mode"@) == Some(JsonView::Text(w.session_mode.text()))
        }),
        grant_value(g) matches JsonView::Object(shown) && ({
            &&& json::lookup(shown, "role"@) == Some(JsonView::Text(g.role.text()))
            &&& g.agent_group_id is Some ==> json::lookup(shown, "agent_group"@) == Some(
                JsonView::Text(g.agent_group_id->0),
            )
            &&& g.agent_group_id is None ==> json::lookup(shown, "agent_group"@) == Some(
                JsonView::Null,
            )
        }),
{
    reveal_strlit("agent_group");
    reveal_strlit("channel");
    reveal_strlit("engage_mode");
    reveal_strlit("messaging_group");
    reveal_strlit("session_mode");
    reveal_strlit("role");
    assert("agent_group"@.len() == 11 && "channel"@.len() == 7 && "engage_mode"@.len() == 11);
    assert("messaging_group"@.len() == 15 && "session_mode"@.len() == 12 && "role"@.len() == 4);
    assert("agent_group"@[0] == 'a' && "engage_mode"@[0] == 'e');
    let shown = wiring_value(chat, w)->Object_0;
    json::lemma_lookup_at(shown, "agent_group"@, 0);
    json::lemma_lookup_at(shown, "channel"@, 1);
    json::lemma_lookup_at(shown, "engage_mode"@, 2);
    json::lemma_lookup_at(shown, "messaging_group"@, 3);
    json::lemma_lookup_at(shown, "session_mode"@, 4);
    let granted = grant_value(g)->Object_0;
    json::lemma_lookup_at(granted, "agent_group"@, 0);
    json::lemma_lookup_at(granted, "role"@, 1);
}

/// One chat more adds a row for each of its wirings, behind the rows of the others.
pub proof fn every_wiring_is_listed(chats: Seq<WiredChatView>, chat: WiredChatView, i: int)
    requires
        0 <= i < chat.wirings.len(),
    ensures
        wiring_rows(chats.push(chat)).len() == wiring_rows(chats).len() + chat.wirings.len(),
        wiring_rows(chats.push(chat))[wiring_rows(chats).len() + i] == wiring_value(
            chat.chat,
            chat.wirings[i],
        ),
        wiring_rows(chats.push(chat)).take(wiring_rows(chats).len() as int) == wiring_rows(chats),
        wiring_rows(seq![]).len() == 0,
{
    assert(chats.push(chat).drop_last() =~= chats);
    assert(wiring_rows(chats.push(chat)).take(wiring_rows(chats).len() as int) =~= wiring_rows(
        chats,
    ));
}

/// A role is granted to the user and for the group that the arguments name, and the
/// role is the one that they name.
pub proof fn roles_are_requested_as_asked(args: Fields)
    ensures
        role_request_of(args) matches Ok(request) ==> {
            &&& Some(request.user) == optional(args, "user"@)
            &&& Some(request.role.text()) == optional(args, "role"@)
            &&& request.scope == optional(args, "agent_group"@)
        },
        role_grant_of(args) matches Ok(request) ==> role_request_of(args) == Ok::<
            RoleRequestView,
            FrameErrorView,
        >(request),
        role_request_of(args) is Ok && role_grant_of(args) is Err ==> optional(args, "agent_group"@)
            is Some && optional(args, "role"@) == Some("owner"@),
        optional(args, "user"@) is Some && (optional(args, "role"@) == Some("owner"@) || optional(
            args,
            "role"@,
        ) == Some("admin"@)) ==> role_request_of(args) is Ok,
        role_request_of(args) matches Err(e) ==> e.code == ErrorCode::InvalidArgs,
{
    assert(Role::Owner.text() == "owner"@);
    assert(Role::Admin.text() == "admin"@);
}

/// What kind of account a user has is what stands before the first colon.
pub proof fn user_kinds_stand_before_the_colon(kind: Seq<char>, name: Seq<char>)
    requires
        forall|i: int| 0 <= i < kind.len() ==> kind[i] != ':',
    ensures
        user_kind_of(kind + seq![':'] + name) == kind,
        user_kind_of(kind) == kind,
{
    text::lemma_one_piece(kind, ':');
    text::lemma_pieces_join(kind, ':', name);
    assert(kind.push(':') + name =~= kind + seq![':'] + name);
}

/// A command works on what its arguments name: it reads, changes or deletes the one
/// thing that they name, and needs that name.
pub proof fn commands_work_on_what_they_name(args: Fields)
    ensures
        work_of(Action::EndpointsDelete, args) matches Ok(work) ==> work
            == WorkView::DeleteEndpoint(optional(args, "name"@)->0) && optional(args, "name"@)
            is Some,
        work_of(Action::ConnectorsDelete, args) matches Ok(work) ==> work
            == WorkView::DeleteConnector(optional(args, "id"@)->0) && optional(args, "id"@)
            is Some,
        work_of(Action::GroupsGet, args) matches Ok(work) ==> work == WorkView::GetGroup(
            optional(args, "id"@)->0,
        ) && optional(args, "id"@) is Some,
        work_of(Action::RolesList, args) matches Ok(work) ==> work == WorkView::ListRoles(
            optional(args, "user"@)->0,
        ) && optional(args, "user"@) is Some,
        optional(args, "name"@) is Some ==> work_of(Action::EndpointsDelete, args) is Ok,
        optional(args, "id"@) is Some ==> work_of(Action::ConnectorsDelete, args) is Ok && work_of(
            Action::GroupsGet,
            args,
        ) is Ok,
        optional(args, "user"@) is Some ==> work_of(Action::RolesList, args) is Ok,
{
}

/// Every action is worked on as what it is: no action becomes the work of another.
pub proof fn actions_become_their_own_work(action: Action, args: Fields)
    ensures
        work_of(action, args) matches Ok(work) ==> {
            &&& work is ListEndpoints <==> action == Action::EndpointsList
            &&& work is CreateEndpoint <==> action == Action::EndpointsCreate
            &&& work is UpdateEndpoint <==> action == Action::EndpointsUpdate
            &&& work is DeleteEndpoint <==> action == Action::EndpointsDelete
            &&& work is ListGroups <==> action == Action::GroupsList
            &&& work is GetGroup <==> action == Action::GroupsGet
            &&& work is CreateGroup <==> action == Action::GroupsCreate
            &&& work is UpdateGroup <==> action == Action::GroupsUpdate
            &&& work is ListWirings <==> action == Action::WiringsList
            &&& work is ListRoles <==> action == Action::RolesList
            &&& work is GrantRole <==> action == Action::RolesGrant
            &&& work is RevokeRole <==> action == Action::RolesRevoke
            &&& work is ListConnectors <==> action == Action::ConnectorsList
            &&& work is CreateConnector <==> action == Action::ConnectorsCreate
            &&& work is UpdateConnector <==> action == Action::ConnectorsUpdate
            &&& work is DeleteConnector <==> action == Action::ConnectorsDelete
        },
        work_of(action, args) matches Err(e) ==> e.code == ErrorCode::InvalidArgs,
{
}

/// A list has a row for everything that there is, in order.
pub proof fn lists_have_a_row_for_each(
    endpoints: Seq<EndpointView>,
    groups: Seq<AgentGroupView>,
    grants: Seq<RoleGrantView>,
    connectors: Seq<(ConnectorView, ConnectorKind)>,
    user: Seq<char>,
    i: int,
)
    ensures
        answer_of(WorkView::ListEndpoints, OutcomeView::Endpoints(endpoints)) matches Ok(
            JsonView::List(rows),
        ) && rows.len() == endpoints.len() && (0 <= i < endpoints.len() ==> rows[i]
            == endpoint_value(endpoints[i])),
        answer_of(WorkView::ListGroups, OutcomeView::Groups(groups)) matches Ok(
            JsonView::List(rows),
        ) && rows.len() == groups.len() && (0 <= i < groups.len() ==> rows[i] == group_value(
            groups[i],
        )),
        answer_of(WorkView::ListRoles(user), OutcomeView::Roles(grants)) matches Ok(
            JsonView::List(rows),
        ) && rows.len() == grants.len() && (0 <= i < grants.len() ==> rows[i] == grant_value(
            grants[i],
        )),
        answer_of(WorkView::ListConnectors, OutcomeView::Connectors(connectors)) matches Ok(
            JsonView::List(rows),
        ) && rows.len() == connectors.len() && (0 <= i < connectors.len() ==> rows[i]
            == connector_value(connectors[i].0, connectors[i].1)),
{
}

/// What there is not is not found, and the answer names it.
pub proof fn what_is_missing_is_not_found(
    name: Seq<char>,
    e: EndpointChangeView,
    g: GroupChangeView,
    c: ConnectorChangeView,
)
    ensures
        answer_of(WorkView::DeleteEndpoint(name), OutcomeView::Changed(false)) matches Err(r)
            && r.code == ErrorCode::NotFound && text::within(r.message, text::quoted(name)),
        answer_of(WorkView::UpdateEndpoint(name, e), OutcomeView::Endpoint(None)) matches Err(r)
            && r.code == ErrorCode::NotFound && text::within(r.message, text::quoted(name)),
        answer_of(WorkView::GetGroup(name), OutcomeView::Group(None)) matches Err(r) && r.code
            == ErrorCode::NotFound && text::within(r.message, name),
        answer_of(WorkView::UpdateGroup(name, g), OutcomeView::Group(None)) matches Err(r) && r.code
            == ErrorCode::NotFound && text::within(r.message, name),
        answer_of(WorkView::DeleteConnector(name), OutcomeView::Changed(false)) matches Err(r)
            && r.code == ErrorCode::NotFound && text::within(r.message, name),
        answer_of(WorkView::UpdateConnector(name, c), OutcomeView::Connector(None)) matches Err(r)
            && r.code == ErrorCode::NotFound && text::within(r.message, name),
{
    text::parts_stand_in_the_whole(
        no_endpoint(name).message,
        "no endpoint EndpointName("@,
        text::quoted(name),
        ")"@,
    );
    let group = no_group(name).message;
    assert(group =~= "no group "@ + name + seq![]);
    text::parts_stand_in_the_whole(group, "no group "@, name, seq![]);
    let connector = no_connector(name).message;
    assert(connector =~= "no connector "@ + name + seq![]);
    text::parts_stand_in_the_whole(connector, "no connector "@, name, seq![]);
}

/// A failure of the database is told as it was; and what was deleted, granted or
/// revoked is named.
pub proof fn outcomes_are_told_as_they_are(
    work: WorkView,
    message: Seq<char>,
    name: Seq<char>,
    request: RoleRequestView,
)
    ensures
        answer_of(work, OutcomeView::Failed(message)) matches Err(e) && e.code
            == ErrorCode::HandlerError && e.message == message,
        answer_of(WorkView::DeleteEndpoint(name), OutcomeView::Changed(true)) matches Ok(
            JsonView::Object(shown),
        ) && json::lookup(shown, "deleted"@) == Some(JsonView::Text(name)),
        answer_of(WorkView::DeleteConnector(name), OutcomeView::Changed(true)) matches Ok(
            JsonView::Object(shown),
        ) && json::lookup(shown, "deleted"@) == Some(JsonView::Text(name)),
        answer_of(WorkView::GrantRole(request), OutcomeView::Changed(true)) matches Ok(
            JsonView::Object(shown),
        ) && json::lookup(shown, "granted"@) == Some(JsonView::Text(request.role.text()))
            && json::lookup(shown, "user"@) == Some(JsonView::Text(request.user)),
        answer_of(WorkView::RevokeRole(request), OutcomeView::Changed(true)) matches Ok(
            JsonView::Object(shown),
        ) && json::lookup(shown, "revoked"@) == Some(JsonView::Text(request.role.text()))
            && json::lookup(shown, "user"@) == Some(JsonView::Text(request.user)),
        answer_of(WorkView::RevokeRole(request), OutcomeView::Changed(false)) matches Err(e)
            && e.code == ErrorCode::NotFound,
{
    reveal_strlit("granted");
    reveal_strlit("revoked");
    reveal_strlit("user");
    assert("granted"@.len() == 7 && "revoked"@.len() == 7 && "user"@.len() == 4);
    let deleted = single_text("deleted"@, name)->Object_0;
    json::lemma_lookup_at(deleted, "deleted"@, 0);
    let granted = role_done("granted"@, request)->Object_0;
    json::lemma_lookup_at(granted, "granted"@, 0);
    json::lemma_lookup_at(granted, "user"@, 1);
    let revoked = role_done("revoked"@, request)->Object_0;
    json::lemma_lookup_at(revoked, "revoked"@, 0);
    json::lemma_lookup_at(revoked, "user"@, 1);
}

proof fn lemma_slug_run(s: Seq<char>, from: int, to: int, word: Seq<char>)
    requires
        0 <= from <= to <= s.len(),
        forall|i: int| from <= i < to ==> slug_char(#[trigger] s[i]),
    ensures
        slug_words(s, from, word) == slug_words(
            s,
            to,
            word + s.subrange(from, to).map_values(|c: char| text::lower_ascii(c)),
        ),
    decreases to - from,
{
    let lower = |c: char| text::lower_ascii(c);
    if from < to {
        let next = word.push(text::lower_ascii(s[from]));
        lemma_slug_run(s, from + 1, to, next);
        assert(next + s.subrange(from + 1, to).map_values(lower) =~= word + s.subrange(
            from,
            to,
        ).map_values(lower));
    } else {
        assert(word + s.subrange(from, to).map_values(lower) =~= word);
    }
}

proof fn lemma_slug_rest(a: Seq<char>, b: Seq<char>, j: int, word: Seq<char>)
    requires
        0 <= j <= b.len(),
    ensures
        slug_words(a + b, a.len() + j, word) == slug_words(b, j, word),
    decreases b.len() - j,
{
    if j < b.len() {
        assert((a + b)[a.len() + j] == b[j]);
        lemma_slug_rest(a, b, j + 1, word.push(text::lower_ascii(b[j])));
        lemma_slug_rest(a, b, j + 1, seq![]);
    }
}

/// A name of letters and digits alone gives a folder of the same letters, in lower
/// case.
pub proof fn plain_names_keep_their_letters(name: Seq<char>)
    requires
        forall|i: int| 0 <= i < name.len() ==> slug_char(#[trigger] name[i]),
    ensures
        slug(name).len() == name.len(),
        forall|i: int|
            0 <= i < name.len() ==> {
                &&& 'A' <= #[trigger] name[i] <= 'Z' ==> slug(name)[i] as int == name[i] as int + 32
                &&& !('A' <= name[i] <= 'Z') ==> slug(name)[i] == name[i]
            },
{
    lemma_slug_run(name, 0, name.len() as int, seq![]);
    let lowered = name.subrange(0, name.len() as int).map_values(
        |c: char| text::lower_ascii(c),
    );
    assert(Seq::<char>::empty() + lowered =~= lowered);
    if name.len() > 0 {
        text::one_more_part_is_joined(seq![], lowered, "-"@);
    }
}

/// The words of a name are told apart by what is neither letter nor digit, and a
/// hyphen stands between them.
pub proof fn words_of_names_are_hyphenated(word: Seq<char>, mark: char, rest: Seq<char>)
    requires
        word.len() > 0,
        forall|i: int| 0 <= i < word.len() ==> slug_char(#[trigger] word[i]),
        !slug_char(mark),
    ensures
        slug(rest).len() > 0 ==> slug(word.push(mark) + rest) == slug(word) + "-"@ + slug(rest),
        slug(rest).len() == 0 ==> slug(word.push(mark) + rest) == slug(word),
        slug(seq![mark] + rest) == slug(rest),
{
    let n = word.len() as int;
    let whole = word.push(mark) + rest;
    let lowered = word.subrange(0, n).map_values(|c: char| text::lower_ascii(c));
    assert(whole.subrange(0, n) =~= word.subrange(0, n));
    assert forall|i: int| 0 <= i < n implies slug_char(#[trigger] whole[i]) by {
        assert(whole[i] == word[i]);
    }
    lemma_slug_run(whole, 0, n, seq![]);
    lemma_slug_run(word, 0, n, seq![]);
    assert(Seq::<char>::empty() + lowered =~= lowered);
    assert(whole[n] == mark);
    lemma_slug_rest(word.push(mark), rest, 0, seq![]);
    let tail = slug_words(rest, 0, seq![]);
    assert(slug_words(whole, 0, seq![]) == seq![lowered] + tail);
    text::one_more_part_is_joined(seq![], lowered, "-"@);
    lemma_front_joined(lowered, tail, "-"@);
    lemma_slug_words_hold(rest, 0, seq![]);
    if tail.len() > 0 {
        text::every_part_is_joined(tail, "-"@, 0);
        assert(tail[0].len() > 0);
        let i = choose|i: int| text::at(text::joined(tail, "-"@), tail[0], i);
    }
    lemma_slug_rest(seq![mark], rest, 0, seq![]);
    assert((seq![mark] + rest)[0] == mark);
}

/// A part in front comes before a separator.
proof fn lemma_front_joined(part: Seq<char>, parts: Seq<Seq<char>>, sep: Seq<char>)
    ensures
        text::joined(seq![part] + parts, sep) == (if parts.len() == 0 {
            part
        } else {
            part + sep + text::joined(parts, sep)
        }),
    decreases parts.len(),
{
    let none: Seq<Seq<char>> = seq![];
    if parts.len() == 0 {
        assert(seq![part] + parts =~= seq![part]);
        text::one_more_part_is_joined(none, part, sep);
    } else {
        let init = parts.drop_last();
        lemma_front_joined(part, init, sep);
        assert(parts =~= init.push(parts.last()));
        assert(seq![part] + parts =~= (seq![part] + init).push(parts.last()));
        text::one_more_part_is_joined(seq![part] + init, parts.last(), sep);
        text::one_more_part_is_joined(init, parts.last(), sep);
        if init.len() == 0 {
            assert(init.push(parts.last()) =~= seq![parts.last()]);
        } else {
            assert(part + sep + text::joined(init, sep) + sep + parts.last() =~= part + sep + (
            text::joined(init, sep) + sep + parts.last()));
        }
    }
}

/// Whether a character may stand in a word of a folder's name.
spec fn folder_char(c: char) -> bool {
    'a' <= c <= 'z' || '0' <= c <= '9'
}

proof fn lemma_slug_words_hold(s: Seq<char>, from: int, word: Seq<char>)
    requires
        0 <= from <= s.len(),
        forall|i: int| 0 <= i < word.len() ==> folder_char(#[trigger] word[i]),
    ensures
        forall|k: int|
            0 <= k < slug_words(s, from, word).len() ==> (#[trigger] slug_words(
                s,
                from,
                word,
            )[k]).len() > 0,
        forall|k: int, i: int|
            0 <= k < slug_words(s, from, word).len() && 0 <= i < slug_words(s, from, word)[k].len()
                ==> folder_char(#[trigger] slug_words(s, from, word)[k][i]),
    decreases s.len() - from,
{
    if from < s.len() {
        let next = word.push(text::lower_ascii(s[from]));
        if slug_char(s[from]) {
            assert forall|i: int| 0 <= i < next.len() implies folder_char(#[trigger] next[i]) by {
                if i < word.len() {
                    assert(next[i] == word[i]);
                }
            }
            lemma_slug_words_hold(s, from + 1, next);
            assert(slug_words(s, from, word) == slug_words(s, from + 1, next));
        } else {
            lemma_slug_words_hold(s, from + 1, seq![]);
            let rest = slug_words(s, from + 1, seq![]);
            let all = slug_words(s, from, word);
            if word.len() > 0 {
                assert(all =~= seq![word] + rest);
                assert(all[0] =~= word);
                assert forall|k: int| 0 <= k < all.len() implies (#[trigger] all[k]).len() > 0 by {
                    if k > 0 {
                        assert(all[k] == rest[k - 1]);
                    }
                }
                assert forall|k: int, i: int|
                    0 <= k < all.len() && 0 <= i < all[k].len() implies folder_char(
                    #[trigger] all[k][i],
                ) by {
                    if k > 0 {
                        assert(all[k][i] == rest[k - 1][i]);
                    }
                }
            } else {
                assert(all == rest);
            }
        }
    } else if word.len() > 0 {
        let all = slug_words(s, from, word);
        assert(all =~= seq![word]);
        assert forall|k: int, i: int|
            0 <= k < all.len() && 0 <= i < all[k].len() implies folder_char(
            #[trigger] all[k][i],
        ) by {
            assert(all[k] == word);
        }
    }
}

proof fn lemma_joined_chars(parts: Seq<Seq<char>>, i: int)
    requires
        0 <= i < text::joined(parts, "-"@).len(),
        forall|k: int, j: int|
            0 <= k < parts.len() && 0 <= j < parts[k].len() ==> folder_char(
                #[trigger] parts[k][j],
            ),
    ensures
        folder_char(text::joined(parts, "-"@)[i]) || text::joined(parts, "-"@)[i] == '-',
    decreases parts.len(),
{
    reveal_strlit("-");
    if parts.len() == 1 {
        assert(text::joined(parts, "-"@) == parts[0]);
        assert(folder_char(parts[0][i]));
    } else if parts.len() > 1 {
        let init = parts.drop_last();
        let n = text::joined(init, "-"@).len() as int;
        assert forall|k: int, j: int| 0 <= k < init.len() && 0 <= j < init[k].len() implies
            folder_char(#[trigger] init[k][j]) by {
            assert(init[k][j] == parts[k][j]);
        }
        if i < n {
            lemma_joined_chars(init, i);
            assert(text::joined(parts, "-"@)[i] == text::joined(init, "-"@)[i]);
        } else if i > n {
            let last = parts[parts.len() - 1];
            assert(text::joined(parts, "-"@)[i] == last[i - n - 1]);
            assert(folder_char(parts[parts.len() - 1][i - n - 1]));
        }
    }
}

/// A folder's name holds lower case letters, digits and hyphens, and nothing else.
pub proof fn folders_hold_plain_characters(name: Seq<char>, i: int)
    requires
        0 <= i < slug(name).len(),
    ensures
        'a' <= slug(name)[i] <= 'z' || '0' <= slug(name)[i] <= '9' || slug(name)[i] == '-',
{
    lemma_slug_words_hold(name, 0, seq![]);
    lemma_joined_chars(slug_words(name, 0, seq![]), i);
}

/// A group is drafted under the name that is asked for, with a folder of that name
/// and a chat of its own of the same name; a name without a letter or a digit gives
/// none.
pub proof fn groups_are_drafted_as_asked(args: Fields)
    ensures
        new_group_of(args) matches Ok(draft) ==> {
            &&& Some(draft.name) == optional(args, "name"@)
            &&& draft.folder == slug(draft.name)
            &&& draft.folder.len() > 0
            &&& draft.chat.name == draft.name
            &&& draft.chat.channel_type == "web"@
            &&& !draft.chat.is_group
        },
        new_group_of(args) is Err <==> optional(args, "name"@) is None || slug(
            optional(args, "name"@)->0,
        ).len() == 0,
        new_group_of(args) matches Err(e) ==> e.code == ErrorCode::InvalidArgs,
{
}

} // verus!
