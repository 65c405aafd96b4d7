//! Connector commands: one row per external channel, assigned to one agent
//! group.

use vstd::prelude::*;

use crate::commands::registry::{
    defs_view, enum_arg, enum_arg_view, invalid, invalid_view, not_found_view, opt_str, optional,
    require_str, required, text_arg, text_arg_view, Access, Action, CommandDef, CommandView,
};
use crate::db::connectors::{Connector, ConnectorView};
use crate::json;
use crate::json::{Fields, Json, JsonView};
use crate::protocol::entities::{
    ConfigView, ConnectorConfig, ConnectorKind, SmsConfigView, SmsConnectorConfig,
};
use crate::protocol::frame::{ErrorCode, FrameError, FrameErrorView};
use crate::protocol::ids::AgentGroupId;
use crate::text;

verus! {

broadcast use vstd::string::group_string_axioms;

/// The connector commands.
pub open spec fn connector_table() -> Seq<CommandView> {
    seq![
        CommandView {
            name: "connectors-list"@,
            summary: "List external channel connectors"@,
            resource: "connectors"@,
            access: Access::Open,
            args: seq![],
            action: Action::ConnectorsList,
        },
        CommandView {
            name: "connectors-create"@,
            summary: "Add an external channel and assign it to an agent group"@,
            resource: "connectors"@,
            access: Access::Open,
            args: seq![enum_arg_view("kind"@, "Channel"@, seq!["sms"@], true), text_arg_view("agent_group"@, "Assigned agent group id"@, true), text_arg_view("label"@, "Label"@, false), text_arg_view("base_url"@, "Base URL"@, true), text_arg_view("token"@, "API token (read+send scopes)"@, true), text_arg_view("webhook_secret"@, "Webhook secret (wake-up hook)"@, false)],
            action: Action::ConnectorsCreate,
        },
        CommandView {
            name: "connectors-update"@,
            summary: "Reassign, reconfigure, or enable/disable a connector"@,
            resource: "connectors"@,
            access: Access::Open,
            args: seq![text_arg_view("id"@, "Connector id"@, true), text_arg_view("agent_group"@, "Assigned agent group id"@, false), text_arg_view("label"@, "Label"@, false), text_arg_view("base_url"@, "Base URL"@, false), text_arg_view("token"@, "API token (read+send scopes)"@, false), text_arg_view("webhook_secret"@, "Webhook secret (wake-up hook)"@, false), enum_arg_view("enabled"@, "Enabled"@, seq!["true"@, "false"@], false)],
            action: Action::ConnectorsUpdate,
        },
        CommandView {
            name: "connectors-delete"@,
            summary: "Delete a connector (its channel goes dark)"@,
            resource: "connectors"@,
            access: Access::Approval,
            args: seq![text_arg_view("id"@, "Connector id"@, true)],
            action: Action::ConnectorsDelete,
        },
    ]
}

/// The connector commands. Secrets are write-only: responses report their presence, never their value.
pub fn commands() -> (r: Vec<CommandDef>)
    ensures
        defs_view(r@) == connector_table(),
{
    let mut r: Vec<CommandDef> = Vec::new();
    r.push(
        CommandDef {
            name: "connectors-list",
            summary: "List external channel connectors",
            resource: "connectors",
            access: Access::Open,
            args: vec![],
            action: Action::ConnectorsList,
        },
    );
    r.push(
        CommandDef {
            name: "connectors-create",
            summary: "Add an external channel and assign it to an agent group",
            resource: "connectors",
            access: Access::Open,
            args: vec![enum_arg("kind", "Channel", vec!["sms"], true), text_arg("agent_group", "Assigned agent group id", true), text_arg("label", "Label", false), text_arg("base_url", "Base URL", true), text_arg("token", "API token (read+send scopes)", true), text_arg("webhook_secret", "Webhook secret (wake-up hook)", false)],
            action: Action::ConnectorsCreate,
        },
    );
    r.push(
        CommandDef {
            name: "connectors-update",
            summary: "Reassign, reconfigure, or enable/disable a connector",
            resource: "connectors",
            access: Access::Open,
            args: vec![text_arg("id", "Connector id", true), text_arg("agent_group", "Assigned agent group id", false), text_arg("label", "Label", false), text_arg("base_url", "Base URL", false), text_arg("token", "API token (read+send scopes)", false), text_arg("webhook_secret", "Webhook secret (wake-up hook)", false), enum_arg("enabled", "Enabled", vec!["true", "false"], false)],
            action: Action::ConnectorsUpdate,
        },
    );
    r.push(
        CommandDef {
            name: "connectors-delete",
            summary: "Delete a connector (its channel goes dark)",
            resource: "connectors",
            access: Access::Approval,
            args: vec![text_arg("id", "Connector id", true)],
            action: Action::ConnectorsDelete,
        },
    );
    proof {
        assert(r@[0]@ =~~= connector_table()[0]);
        assert(r@[1]@ =~~= connector_table()[1]);
        assert(r@[2]@ =~~= connector_table()[2]);
        assert(r@[3]@ =~~= connector_table()[3]);
        assert(defs_view(r@) =~= connector_table());
    }
    r
}


/// A connector to be added.
#[derive(Debug, PartialEq, Eq)]
pub struct ConnectorDraft {
    pub config: ConnectorConfig,
    pub agent_group: AgentGroupId,
    pub label: Option<String>,
}

/// The mathematical value of a [`ConnectorDraft`].
#[verifier::ext_equal]
pub struct ConnectorDraftView {
    pub config: ConfigView,
    pub agent_group: Seq<char>,
    pub label: Option<Seq<char>>,
}

impl ConnectorDraft {
    pub open spec fn view(&self) -> ConnectorDraftView {
        ConnectorDraftView {
            config: self.config@,
            agent_group: self.agent_group@,
            label: text::opt_view(self.label),
        }
    }
}

/// What to change of a connector; absent parts stay.
#[derive(Debug, PartialEq, Eq)]
pub struct ConnectorChange {
    pub label: Option<String>,
    pub agent_group: Option<String>,
    pub enabled: Option<bool>,
    pub base_url: Option<String>,
    pub token: Option<String>,
    pub webhook_secret: Option<String>,
}

/// The mathematical value of a [`ConnectorChange`].
#[verifier::ext_equal]
pub struct ConnectorChangeView {
    pub label: Option<Seq<char>>,
    pub agent_group: Option<Seq<char>>,
    pub enabled: Option<bool>,
    pub base_url: Option<Seq<char>>,
    pub token: Option<Seq<char>>,
    pub webhook_secret: Option<Seq<char>>,
}

impl ConnectorChange {
    pub open spec fn view(&self) -> ConnectorChangeView {
        ConnectorChangeView {
            label: text::opt_view(self.label),
            agent_group: text::opt_view(self.agent_group),
            enabled: self.enabled,
            base_url: text::opt_view(self.base_url),
            token: text::opt_view(self.token),
            webhook_secret: text::opt_view(self.webhook_secret),
        }
    }
}


/// What a response shows of a connector: its settings without its secrets.
pub open spec fn connector_value(c: ConnectorView, kind: ConnectorKind) -> JsonView {
    match c.config {
        ConfigView::Sms(sms) => JsonView::Object(
            seq![
                ("agent_group"@, JsonView::Text(c.agent_group_id)),
                ("base_url"@, JsonView::Text(sms.base_url)),
                ("enabled"@, JsonView::Bool(c.enabled)),
                ("has_token"@, JsonView::Bool(sms.token.len() > 0)),
                ("has_webhook_secret"@, JsonView::Bool(sms.webhook_secret is Some)),
                ("id"@, JsonView::Text(c.id)),
                ("kind"@, JsonView::Text(kind.text())),
                ("label"@, json::text_or_null(c.label)),
            ],
        ),
    }
}

/// What a response shows of a connector.
pub fn connector_json(connector: &Connector) -> (r: Json)
    ensures
        r@ == connector_value(connector@, connector.config.kind_of()),
{
    match &connector.config {
        ConnectorConfig::Sms(config) => {
            let mut fields: Vec<(String, Json)> = Vec::new();
            json::add_field(
                &mut fields,
                "agent_group",
                json::text_json(connector.agent_group_id.as_str()),
            );
            json::add_field(&mut fields, "base_url", json::text_json(&config.base_url));
            json::add_field(&mut fields, "enabled", Json::Bool(connector.enabled));
            json::add_field(
                &mut fields,
                "has_token",
                Json::Bool(!config.token.as_str().is_empty()),
            );
            json::add_field(
                &mut fields,
                "has_webhook_secret",
                Json::Bool(config.webhook_secret.is_some()),
            );
            json::add_field(&mut fields, "id", json::text_json(connector.id.as_str()));
            json::add_field(&mut fields, "kind", json::text_json(connector.kind().as_str()));
            json::add_field(&mut fields, "label", json::text_or_null_json(&connector.label));
            let r = json::object(fields);
            assert(r@->Object_0 =~= connector_value(
                connector@,
                connector.config.kind_of(),
            )->Object_0);
            r
        },
    }
}

/// The connector that the arguments ask for, or why they are refused.
pub open spec fn connector_draft_of(args: Fields) -> Result<ConnectorDraftView, FrameErrorView> {
    match required(args, "kind"@) {
        Err(e) => Err(e),
        Ok(kind) => if kind != ConnectorKind::Sms.text() {
            Err(invalid_view("unknown connector kind"@))
        } else {
            match required(args, "agent_group"@) {
                Err(e) => Err(e),
                Ok(agent_group) => match required(args, "base_url"@) {
                    Err(e) => Err(e),
                    Ok(base_url) => match required(args, "token"@) {
                        Err(e) => Err(e),
                        Ok(token) => Ok(
                            ConnectorDraftView {
                                config: ConfigView::Sms(
                                    SmsConfigView {
                                        base_url,
                                        token,
                                        webhook_secret: optional(args, "webhook_secret"@),
                                    },
                                ),
                                agent_group,
                                label: optional(args, "label"@),
                            },
                        ),
                    },
                },
            }
        },
    }
}

/// The connector that the arguments ask for.
pub fn connectors_create(args: &Vec<(String, Json)>) -> (r: Result<ConnectorDraft, FrameError>)
    ensures
        match r {
            Ok(draft) => connector_draft_of(json::fields_view(args@)) == Ok::<
                ConnectorDraftView,
                FrameErrorView,
            >(draft@),
            Err(e) => connector_draft_of(json::fields_view(args@)) == Err::<
                ConnectorDraftView,
                FrameErrorView,
            >(e@),
        },
{
    let kind_text = require_str(args, "kind")?;
    let kind = match ConnectorKind::parse(&kind_text) {
        Ok(kind) => kind,
        Err(_) => {
            return Err(invalid("unknown connector kind"));
        },
    };
    let agent_group = AgentGroupId::new(&require_str(args, "agent_group")?);
    let label = opt_str(args, "label");
    let config = match kind {
        ConnectorKind::Sms => ConnectorConfig::Sms(
            SmsConnectorConfig {
                base_url: require_str(args, "base_url")?,
                token: require_str(args, "token")?,
                webhook_secret: opt_str(args, "webhook_secret"),
            },
        ),
    };
    Ok(ConnectorDraft { config, agent_group, label })
}

/// A flag argument: a JSON boolean from a form, or a text from the command line.
pub open spec fn flag_of(args: Fields, key: Seq<char>) -> Result<Option<bool>, FrameErrorView> {
    match json::lookup(args, key) {
        None => Ok(None),
        Some(JsonView::Bool(b)) => Ok(Some(b)),
        Some(JsonView::Text(raw)) => if raw == "true"@ {
            Ok(Some(true))
        } else if raw == "false"@ {
            Ok(Some(false))
        } else {
            Err(invalid_view("invalid value "@ + text::quoted(raw) + " for "@ + key))
        },
        Some(other) => Err(invalid_view("invalid value "@ + json::encoded(other) + " for "@ + key)),
    }
}

/// A flag argument: a JSON boolean from a form, or a text from the command line.
pub fn opt_flag(args: &Vec<(String, Json)>, key: &str) -> (r: Result<Option<bool>, FrameError>)
    ensures
        match r {
            Ok(flag) => flag_of(json::fields_view(args@), key@) == Ok::<
                Option<bool>,
                FrameErrorView,
            >(flag),
            Err(e) => flag_of(json::fields_view(args@), key@) == Err::<
                Option<bool>,
                FrameErrorView,
            >(e@),
        },
{
    let shown = match json::field(args, key) {
        None => {
            return Ok(None);
        },
        Some(Json::Bool(b)) => {
            return Ok(Some(*b));
        },
        Some(Json::Text(raw)) => {
            if text::same(raw, "true") {
                return Ok(Some(true));
            } else if text::same(raw, "false") {
                return Ok(Some(false));
            } else {
                text::quote(raw)
            }
        },
        Some(other) => other.encode(),
    };
    let mut message = "invalid value ".to_owned();
    message.append(&shown);
    message.append(" for ");
    message.append(key);
    Err(invalid(&message))
}

/// The change that the arguments ask for, and the connector that it is for.
pub open spec fn connector_change_of(args: Fields) -> Result<
    (Seq<char>, ConnectorChangeView),
    FrameErrorView,
> {
    match required(args, "id"@) {
        Err(e) => Err(e),
        Ok(id) => match flag_of(args, "enabled"@) {
            Err(e) => Err(e),
            Ok(enabled) => Ok(
                (
                    id,
                    ConnectorChangeView {
                        label: optional(args, "label"@),
                        agent_group: optional(args, "agent_group"@),
                        enabled,
                        base_url: optional(args, "base_url"@),
                        token: optional(args, "token"@),
                        webhook_secret: optional(args, "webhook_secret"@),
                    },
                ),
            ),
        },
    }
}

/// The change that the arguments ask for, and the connector that it is for.
pub fn connectors_update(args: &Vec<(String, Json)>) -> (r: Result<
    (String, ConnectorChange),
    FrameError,
>)
    ensures
        match r {
            Ok((id, change)) => connector_change_of(json::fields_view(args@)) == Ok::<
                (Seq<char>, ConnectorChangeView),
                FrameErrorView,
            >((id@, change@)),
            Err(e) => connector_change_of(json::fields_view(args@)) == Err::<
                (Seq<char>, ConnectorChangeView),
                FrameErrorView,
            >(e@),
        },
{
    let id = require_str(args, "id")?;
    let enabled = opt_flag(args, "enabled")?;
    Ok(
        (
            id,
            ConnectorChange {
                label: opt_str(args, "label"),
                agent_group: opt_str(args, "agent_group"),
                enabled,
                base_url: opt_str(args, "base_url"),
                token: opt_str(args, "token"),
                webhook_secret: opt_str(args, "webhook_secret"),
            },
        ),
    )
}

/// A value, or what stands where there is none.
pub open spec fn or_else<T>(new: Option<T>, was: T) -> T {
    match new {
        Some(v) => v,
        None => was,
    }
}

/// An optional value that is replaced where there is a new one.
pub open spec fn or_keep<T>(new: Option<T>, was: Option<T>) -> Option<T> {
    match new {
        Some(v) => Some(v),
        None => was,
    }
}

/// A connector after a change.
pub open spec fn changed_connector(c: ConnectorView, change: ConnectorChangeView) -> ConnectorView {
    ConnectorView {
        id: c.id,
        label: or_keep(change.label, c.label),
        config: match c.config {
            ConfigView::Sms(sms) => ConfigView::Sms(
                SmsConfigView {
                    base_url: or_else(change.base_url, sms.base_url),
                    token: or_else(change.token, sms.token),
                    webhook_secret: or_keep(change.webhook_secret, sms.webhook_secret),
                },
            ),
        },
        agent_group_id: or_else(change.agent_group, c.agent_group_id),
        enabled: or_else(change.enabled, c.enabled),
        created_at: c.created_at,
    }
}

/// A text, or the one that stands where there is none.
pub fn pick(new: &Option<String>, was: &String) -> (r: String)
    ensures
        r@ == or_else(text::opt_view(*new), was@),
{
    match new {
        Some(v) => v.clone(),
        None => was.clone(),
    }
}

/// An optional text that is replaced where there is a new one.
pub fn pick_opt(new: &Option<String>, was: &Option<String>) -> (r: Option<String>)
    ensures
        text::opt_view(r) == or_keep(text::opt_view(*new), text::opt_view(*was)),
{
    match new {
        Some(v) => Some(v.clone()),
        None => text::clone_opt(was),
    }
}

impl ConnectorChange {
    /// The connector after the change.
    pub fn apply(&self, connector: &Connector) -> (r: Connector)
        ensures
            r@ == changed_connector(connector@, self@),
    {
        let config = match &connector.config {
            ConnectorConfig::Sms(sms) => ConnectorConfig::Sms(
                SmsConnectorConfig {
                    base_url: pick(&self.base_url, &sms.base_url),
                    token: pick(&self.token, &sms.token),
                    webhook_secret: pick_opt(&self.webhook_secret, &sms.webhook_secret),
                },
            ),
        };
        let agent_group_id = match &self.agent_group {
            Some(group) => AgentGroupId::new(group),
            None => connector.agent_group_id.clone(),
        };
        let enabled = match self.enabled {
            Some(enabled) => enabled,
            None => connector.enabled,
        };
        Connector {
            id: connector.id.clone(),
            label: pick_opt(&self.label, &connector.label),
            config,
            agent_group_id,
            enabled,
            created_at: connector.created_at.clone(),
        }
    }
}

// ---------------------------------------------------------------------------
// Laws

/// A response never depends on the value of a secret: connectors that differ in
/// nothing but their token and webhook secret, each present or absent alike,
/// are shown alike.
pub proof fn connector_secrets_are_never_shown(
    c: ConnectorView,
    token: Seq<char>,
    secret: Option<Seq<char>>,
    kind: ConnectorKind,
)
    requires
        (token.len() > 0) == (c.config->Sms_0.token.len() > 0),
        secret is Some == c.config->Sms_0.webhook_secret is Some,
    ensures
        ({
            let other = ConnectorView {
                config: ConfigView::Sms(
                    SmsConfigView { token, webhook_secret: secret, ..c.config->Sms_0 },
                ),
                ..c
            };
            connector_value(other, kind) == connector_value(c, kind)
        }),
{
}

/// A change that says nothing changes nothing.
pub proof fn empty_connector_change_keeps_the_connector(c: ConnectorView)
    ensures
        changed_connector(
            c,
            ConnectorChangeView {
                label: None,
                agent_group: None,
                enabled: None,
                base_url: None,
                token: None,
                webhook_secret: None,
            },
        ) == c,
{
}

/// Making a change twice is making it once.
pub proof fn connector_change_is_idempotent(c: ConnectorView, change: ConnectorChangeView)
    ensures
        changed_connector(changed_connector(c, change), change) == changed_connector(c, change),
{
}

/// A connector keeps its id, its kind and its date of creation through a change.
pub proof fn connector_change_keeps_identity(c: ConnectorView, change: ConnectorChangeView)
    ensures
        changed_connector(c, change).id == c.id,
        changed_connector(c, change).created_at == c.created_at,
        changed_connector(c, change).config is Sms == c.config is Sms,
{
}

/// The error for a connector that does not exist.
pub open spec fn no_connector(id: Seq<char>) -> FrameErrorView {
    not_found_view("no connector "@ + id)
}

/// A connector is drafted of what the arguments say, each setting of the argument
/// that names it; it needs a kind that is known, a group, an address and a token.
pub proof fn connectors_are_drafted_as_asked(args: Fields)
    ensures
        connector_draft_of(args) is Ok <==> optional(args, "kind"@) == Some("sms"@) && optional(
            args,
            "agent_group"@,
        ) is Some && optional(args, "base_url"@) is Some && optional(args, "token"@) is Some,
        connector_draft_of(args) matches Ok(draft) ==> {
            &&& Some(draft.agent_group) == optional(args, "agent_group"@)
            &&& draft.label == optional(args, "label"@)
            &&& draft.config matches ConfigView::Sms(sms) && Some(sms.base_url) == optional(
                args,
                "base_url"@,
            ) && Some(sms.token) == optional(args, "token"@) && sms.webhook_secret == optional(
                args,
                "webhook_secret"@,
            )
        },
        connector_draft_of(args) matches Err(e) ==> e.code == ErrorCode::InvalidArgs,
{
}

/// A change of a connector names it, and holds what the arguments say and no more.
pub proof fn connectors_are_changed_as_asked(args: Fields)
    ensures
        connector_change_of(args) matches Ok((id, change)) ==> {
            &&& Some(id) == optional(args, "id"@)
            &&& change.label == optional(args, "label"@)
            &&& change.agent_group == optional(args, "agent_group"@)
            &&& change.base_url == optional(args, "base_url"@)
            &&& change.token == optional(args, "token"@)
            &&& change.webhook_secret == optional(args, "webhook_secret"@)
            &&& json::lookup(args, "enabled"@) == Some(JsonView::Bool(true)) || json::lookup(
                args,
                "enabled"@,
            ) == Some(JsonView::Text("true"@)) <==> change.enabled == Some(true)
            &&& json::lookup(args, "enabled"@) == Some(JsonView::Bool(false)) || json::lookup(
                args,
                "enabled"@,
            ) == Some(JsonView::Text("false"@)) <==> change.enabled == Some(false)
            &&& json::lookup(args, "enabled"@) is None <==> change.enabled is None
        },
        optional(args, "id"@) is None ==> connector_change_of(args) is Err,
        connector_change_of(args) matches Err(e) ==> e.code == ErrorCode::InvalidArgs,
{
    reveal_strlit("true");
    reveal_strlit("false");
    assert("true"@.len() == 4 && "false"@.len() == 5);
}

/// A changed connector has what the change gives and keeps what it leaves out.
pub proof fn connectors_take_what_is_given(c: ConnectorView, change: ConnectorChangeView)
    ensures
        ({
            let r = changed_connector(c, change);
            let was = c.config->Sms_0;
            let now = r.config->Sms_0;
            &&& change.label is Some ==> r.label == change.label
            &&& change.label is None ==> r.label == c.label
            &&& change.agent_group is Some ==> Some(r.agent_group_id) == change.agent_group
            &&& change.agent_group is None ==> r.agent_group_id == c.agent_group_id
            &&& change.enabled is Some ==> Some(r.enabled) == change.enabled
            &&& change.enabled is None ==> r.enabled == c.enabled
            &&& change.base_url is Some ==> Some(now.base_url) == change.base_url
            &&& change.base_url is None ==> now.base_url == was.base_url
            &&& change.token is Some ==> Some(now.token) == change.token
            &&& change.token is None ==> now.token == was.token
            &&& change.webhook_secret is Some ==> now.webhook_secret == change.webhook_secret
            &&& change.webhook_secret is None ==> now.webhook_secret == was.webhook_secret
        }),
{
}

/// A connector is shown with each of its settings under its name.
pub proof fn connectors_are_shown_by_name(c: ConnectorView, kind: ConnectorKind)
    ensures
        connector_value(c, kind) matches JsonView::Object(shown) && ({
            let sms = c.config->Sms_0;
            &&& json::lookup(shown, "id"@) == Some(JsonView::Text(c.id))
            &&& json::lookup(shown, "kind"@) == Some(JsonView::Text(kind.text()))
            &&& json::lookup(shown, "agent_group"@) == Some(JsonView::Text(c.agent_group_id))
            &&& json::lookup(shown, "base_url"@) == Some(JsonView::Text(sms.base_url))
            &&& json::lookup(shown, "enabled"@) == Some(JsonView::Bool(c.enabled))
            &&& c.label is Some ==> json::lookup(shown, "label"@) == Some(
                JsonView::Text(c.label->0),
            )
            &&& c.label is None ==> json::lookup(shown, "label"@) == Some(JsonView::Null)
            &&& sms.token.len() > 0 <==> json::lookup(shown, "has_token"@) == Some(
                JsonView::Bool(true),
            )
            &&& sms.webhook_secret is Some <==> json::lookup(shown, "has_webhook_secret"@) == Some(
                JsonView::Bool(true),
            )
            &&& json::lookup(shown, "token"@) is None
            &&& json::lookup(shown, "webhook_secret"@) is None
        }),
{
    reveal_strlit("agent_group");
    reveal_strlit("base_url");
    reveal_strlit("enabled");
    reveal_strlit("has_token");
    reveal_strlit("has_webhook_secret");
    reveal_strlit("id");
    reveal_strlit("kind");
    reveal_strlit("label");
    reveal_strlit("token");
    reveal_strlit("webhook_secret");
    assert("agent_group"@.len() == 11 && "base_url"@.len() == 8 && "enabled"@.len() == 7);
    assert("has_token"@.len() == 9 && "has_webhook_secret"@.len() == 18 && "id"@.len() == 2);
    assert("kind"@.len() == 4 && "label"@.len() == 5 && "token"@.len() == 5);
    assert("webhook_secret"@.len() == 14);
    assert("label"@[0] == 'l' && "token"@[0] == 't');
    let shown = connector_value(c, kind)->Object_0;
    json::lemma_lookup_at(shown, "agent_group"@, 0);
    json::lemma_lookup_at(shown, "base_url"@, 1);
    json::lemma_lookup_at(shown, "enabled"@, 2);
    json::lemma_lookup_at(shown, "has_token"@, 3);
    json::lemma_lookup_at(shown, "has_webhook_secret"@, 4);
    json::lemma_lookup_at(shown, "id"@, 5);
    json::lemma_lookup_at(shown, "kind"@, 6);
    json::lemma_lookup_at(shown, "label"@, 7);
    json::lemma_lookup_absent(shown, "token"@);
    json::lemma_lookup_absent(shown, "webhook_secret"@);
}

} // verus!
