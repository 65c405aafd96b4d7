//! The tools that a model may call: how they are offered, what a call asks for,
//! and what the model is told of it.

use vstd::prelude::*;

use crate::channels;
use crate::cron;
use crate::cron::Cron;
use crate::db;
use crate::json;
use crate::json::{Fields, Json, JsonView};
use crate::mcp;
use crate::mcp::{McpTool, McpToolView};
use crate::protocol::content;
use crate::protocol::content::{
    Operation, OperationView, OutboundContent, OutboundView, Routing, RoutingView,
};
use crate::protocol::entities::ToolProfile;
use crate::protocol::frame::{ErrorCode, RequestFrame, RequestView, ResponseFrame, ResponseView};
use crate::providers::native::client;
use crate::providers::native::client::{ToolCall, ToolDefinition, ToolDefinitionView};
use crate::session::{NewOutboundMessage, NewOutboundMessageView};
use crate::text;

verus! {

broadcast use vstd::string::group_string_axioms;

/// Runs an admin command.
pub const ADMIN: &'static str = "admin";

/// Answers the user.
pub const SEND_MESSAGE: &'static str = "send_message";

/// Schedules a task.
pub const SCHEDULE_TASK: &'static str = "schedule_task";

/// Lists the scheduled tasks.
pub const LIST_TASKS: &'static str = "list_tasks";

/// Cancels a task.
pub const CANCEL_TASK: &'static str = "cancel_task";

/// Pauses a task.
pub const PAUSE_TASK: &'static str = "pause_task";

/// Resumes a task.
pub const RESUME_TASK: &'static str = "resume_task";

/// Writes to another agent.
pub const SEND_TO_AGENT: &'static str = "send_to_agent";

/// Asks the user a question.
pub const ASK_USER_QUESTION: &'static str = "ask_user_question";

/// Runs a shell command.
pub const BASH: &'static str = "bash";

/// Reads a file.
pub const READ: &'static str = "read";

/// Writes a file.
pub const WRITE: &'static str = "write";

/// Edits a file.
pub const EDIT: &'static str = "edit";

// ---------------------------------------------------------------------------
// Offering

/// What an argument of a tool may be.
#[derive(Debug, Clone, Copy, PartialEq, Eq, Structural)]
pub enum ParamKind {
    Text,
    Integer,
    Texts,
    Object,
}

/// An argument of a tool.
#[derive(Debug, Clone, Copy)]
pub struct Param {
    pub name: &'static str,
    pub kind: ParamKind,
    pub description: Option<&'static str>,
    pub required: bool,
}

/// The mathematical value of a [`Param`].
#[verifier::ext_equal]
pub struct ParamView {
    pub name: Seq<char>,
    pub kind: ParamKind,
    pub description: Option<Seq<char>>,
    pub required: bool,
}

impl Param {
    pub open spec fn view(&self) -> ParamView {
        ParamView {
            name: self.name@,
            kind: self.kind,
            description: match self.description {
                Some(d) => Some(d@),
                None => None,
            },
            required: self.required,
        }
    }
}

/// The mathematical values of some arguments.
pub open spec fn params_view(params: Seq<Param>) -> Seq<ParamView> {
    params.map_values(|p: Param| p@)
}

/// A tool of the agent itself.
pub struct ToolEntry {
    pub name: &'static str,
    pub description: &'static str,
    pub params: Vec<Param>,
}

/// The mathematical value of a [`ToolEntry`].
#[verifier::ext_equal]
pub struct ToolEntryView {
    pub name: Seq<char>,
    pub description: Seq<char>,
    pub params: Seq<ParamView>,
}

impl ToolEntry {
    pub open spec fn view(&self) -> ToolEntryView {
        ToolEntryView {
            name: self.name@,
            description: self.description@,
            params: params_view(self.params@),
        }
    }
}

/// The mathematical values of some tools.
pub open spec fn entries_view(list: Seq<ToolEntry>) -> Seq<ToolEntryView> {
    list.map_values(|e: ToolEntry| e@)
}

/// The tools that every agent has: messages, tasks and questions.
pub open spec fn messaging_table() -> Seq<ToolEntryView> {
    seq![
        ToolEntryView {
            name: SEND_MESSAGE@,
            description: "Send a chat message back to the user in this conversation."@,
            params: seq![
                ParamView { name: "text"@, kind: ParamKind::Text, description: Some("The message to send."@), required: true },
            ],
        },
        ToolEntryView {
            name: SCHEDULE_TASK@,
            description: "Schedule a prompt to run later, optionally on a recurring cron schedule. Returns a series id."@,
            params: seq![
                ParamView { name: "prompt"@, kind: ParamKind::Text, description: Some("What to do when the task fires."@), required: true },
                ParamView { name: "process_after"@, kind: ParamKind::Text, description: Some("ISO-8601 UTC timestamp for the first run. Omit to run as soon as possible."@), required: false },
                ParamView { name: "recurrence"@, kind: ParamKind::Text, description: Some("Cron expression (5 fields) for recurring runs. Omit for a one-shot task."@), required: false },
            ],
        },
        ToolEntryView {
            name: LIST_TASKS@,
            description: "List the active (pending or paused) scheduled tasks with their series ids."@,
            params: Seq::empty(),
        },
        ToolEntryView {
            name: CANCEL_TASK@,
            description: "Cancel a scheduled task by its series id."@,
            params: seq![
                ParamView { name: "series"@, kind: ParamKind::Text, description: None, required: true },
            ],
        },
        ToolEntryView {
            name: PAUSE_TASK@,
            description: "Pause a scheduled task by its series id (stops it firing until resumed)."@,
            params: seq![
                ParamView { name: "series"@, kind: ParamKind::Text, description: None, required: true },
            ],
        },
        ToolEntryView {
            name: RESUME_TASK@,
            description: "Resume a paused scheduled task by its series id."@,
            params: seq![
                ParamView { name: "series"@, kind: ParamKind::Text, description: None, required: true },
            ],
        },
        ToolEntryView {
            name: SEND_TO_AGENT@,
            description: "Send a message to another agent group, e.g. to delegate work."@,
            params: seq![
                ParamView { name: "agent_group"@, kind: ParamKind::Text, description: Some("Target agent group id."@), required: true },
                ParamView { name: "text"@, kind: ParamKind::Text, description: Some("The message to deliver."@), required: true },
            ],
        },
        ToolEntryView {
            name: ASK_USER_QUESTION@,
            description: "Ask the user a multiple-choice question (>=2 options). Their choice arrives later as a normal message — do not block waiting; end your turn after asking."@,
            params: seq![
                ParamView { name: "question"@, kind: ParamKind::Text, description: None, required: true },
                ParamView { name: "options"@, kind: ParamKind::Texts, description: None, required: true },
            ],
        },
    ]
}

/// The tools that a coding agent has besides: the shell and files.
pub open spec fn coder_table() -> Seq<ToolEntryView> {
    seq![
        ToolEntryView {
            name: BASH@,
            description: "Run a bash command in the agent workspace. Returns exit code and output."@,
            params: seq![
                ParamView { name: "command"@, kind: ParamKind::Text, description: Some("The shell command to run."@), required: true },
            ],
        },
        ToolEntryView {
            name: READ@,
            description: "Read a file with line numbers. Paths are relative to the workspace."@,
            params: seq![
                ParamView { name: "path"@, kind: ParamKind::Text, description: None, required: true },
                ParamView { name: "offset"@, kind: ParamKind::Integer, description: Some("1-based first line to show."@), required: false },
                ParamView { name: "limit"@, kind: ParamKind::Integer, description: Some("Max lines to show (default 2000)."@), required: false },
            ],
        },
        ToolEntryView {
            name: WRITE@,
            description: "Create or overwrite a file. Parent directories are created."@,
            params: seq![
                ParamView { name: "path"@, kind: ParamKind::Text, description: None, required: true },
                ParamView { name: "content"@, kind: ParamKind::Text, description: None, required: true },
            ],
        },
        ToolEntryView {
            name: EDIT@,
            description: "Replace an exact string in a file. old_string must match exactly once."@,
            params: seq![
                ParamView { name: "path"@, kind: ParamKind::Text, description: None, required: true },
                ParamView { name: "old_string"@, kind: ParamKind::Text, description: None, required: true },
                ParamView { name: "new_string"@, kind: ParamKind::Text, description: None, required: true },
            ],
        },
    ]
}

/// The tool of an agent that may run admin commands.
pub open spec fn admin_table() -> Seq<ToolEntryView> {
    seq![
        ToolEntryView {
            name: ADMIN@,
            description: "Run a claw admin command (e.g. endpoints-list, groups-update) to inspect or change configuration. Use endpoints-list / groups-list to discover names first."@,
            params: seq![
                ParamView { name: "command"@, kind: ParamKind::Text, description: Some("Command name, e.g. groups-update."@), required: true },
                ParamView { name: "args"@, kind: ParamKind::Object, description: Some("Command arguments as a JSON object."@), required: false },
            ],
        },
    ]
}

fn messaging_entries() -> (r: Vec<ToolEntry>)
    ensures
        entries_view(r@) == messaging_table(),
{
    let list = vec![
        ToolEntry {
            name: SEND_MESSAGE,
            description: "Send a chat message back to the user in this conversation.",
            params: vec![
                Param { name: "text", kind: ParamKind::Text, description: Some("The message to send."), required: true },
            ],
        },
        ToolEntry {
            name: SCHEDULE_TASK,
            description: "Schedule a prompt to run later, optionally on a recurring cron schedule. Returns a series id.",
            params: vec![
                Param { name: "prompt", kind: ParamKind::Text, description: Some("What to do when the task fires."), required: true },
                Param { name: "process_after", kind: ParamKind::Text, description: Some("ISO-8601 UTC timestamp for the first run. Omit to run as soon as possible."), required: false },
                Param { name: "recurrence", kind: ParamKind::Text, description: Some("Cron expression (5 fields) for recurring runs. Omit for a one-shot task."), required: false },
            ],
        },
        ToolEntry {
            name: LIST_TASKS,
            description: "List the active (pending or paused) scheduled tasks with their series ids.",
            params: Vec::new(),
        },
        ToolEntry {
            name: CANCEL_TASK,
            description: "Cancel a scheduled task by its series id.",
            params: vec![
                Param { name: "series", kind: ParamKind::Text, description: None, required: true },
            ],
        },
        ToolEntry {
            name: PAUSE_TASK,
            description: "Pause a scheduled task by its series id (stops it firing until resumed).",
            params: vec![
                Param { name: "series", kind: ParamKind::Text, description: None, required: true },
            ],
        },
        ToolEntry {
            name: RESUME_TASK,
            description: "Resume a paused scheduled task by its series id.",
            params: vec![
                Param { name: "series", kind: ParamKind::Text, description: None, required: true },
            ],
        },
        ToolEntry {
            name: SEND_TO_AGENT,
            description: "Send a message to another agent group, e.g. to delegate work.",
            params: vec![
                Param { name: "agent_group", kind: ParamKind::Text, description: Some("Target agent group id."), required: true },
                Param { name: "text", kind: ParamKind::Text, description: Some("The message to deliver."), required: true },
            ],
        },
        ToolEntry {
            name: ASK_USER_QUESTION,
            description: "Ask the user a multiple-choice question (>=2 options). Their choice arrives later as a normal message — do not block waiting; end your turn after asking.",
            params: vec![
                Param { name: "question", kind: ParamKind::Text, description: None, required: true },
                Param { name: "options", kind: ParamKind::Texts, description: None, required: true },
            ],
        },
    ];
    proof {
        assert(params_view(list@[0].params@) =~= messaging_table()[0].params);
        assert(params_view(list@[1].params@) =~= messaging_table()[1].params);
        assert(params_view(list@[2].params@) =~= messaging_table()[2].params);
        assert(params_view(list@[3].params@) =~= messaging_table()[3].params);
        assert(params_view(list@[4].params@) =~= messaging_table()[4].params);
        assert(params_view(list@[5].params@) =~= messaging_table()[5].params);
        assert(params_view(list@[6].params@) =~= messaging_table()[6].params);
        assert(params_view(list@[7].params@) =~= messaging_table()[7].params);
        assert(entries_view(list@) =~= messaging_table());
    }
    list
}

fn coder_entries() -> (r: Vec<ToolEntry>)
    ensures
        entries_view(r@) == coder_table(),
{
    let list = vec![
        ToolEntry {
            name: BASH,
            description: "Run a bash command in the agent workspace. Returns exit code and output.",
            params: vec![
                Param { name: "command", kind: ParamKind::Text, description: Some("The shell command to run."), required: true },
            ],
        },
        ToolEntry {
            name: READ,
            description: "Read a file with line numbers. Paths are relative to the workspace.",
            params: vec![
                Param { name: "path", kind: ParamKind::Text, description: None, required: true },
                Param { name: "offset", kind: ParamKind::Integer, description: Some("1-based first line to show."), required: false },
                Param { name: "limit", kind: ParamKind::Integer, description: Some("Max lines to show (default 2000)."), required: false },
            ],
        },
        ToolEntry {
            name: WRITE,
            description: "Create or overwrite a file. Parent directories are created.",
            params: vec![
                Param { name: "path", kind: ParamKind::Text, description: None, required: true },
                Param { name: "content", kind: ParamKind::Text, description: None, required: true },
            ],
        },
        ToolEntry {
            name: EDIT,
            description: "Replace an exact string in a file. old_string must match exactly once.",
            params: vec![
                Param { name: "path", kind: ParamKind::Text, description: None, required: true },
                Param { name: "old_string", kind: ParamKind::Text, description: None, required: true },
                Param { name: "new_string", kind: ParamKind::Text, description: None, required: true },
            ],
        },
    ];
    proof {
        assert(params_view(list@[0].params@) =~= coder_table()[0].params);
        assert(params_view(list@[1].params@) =~= coder_table()[1].params);
        assert(params_view(list@[2].params@) =~= coder_table()[2].params);
        assert(params_view(list@[3].params@) =~= coder_table()[3].params);
        assert(entries_view(list@) =~= coder_table());
    }
    list
}

fn admin_entries() -> (r: Vec<ToolEntry>)
    ensures
        entries_view(r@) == admin_table(),
{
    let list = vec![
        ToolEntry {
            name: ADMIN,
            description: "Run a claw admin command (e.g. endpoints-list, groups-update) to inspect or change configuration. Use endpoints-list / groups-list to discover names first.",
            params: vec![
                Param { name: "command", kind: ParamKind::Text, description: Some("Command name, e.g. groups-update."), required: true },
                Param { name: "args", kind: ParamKind::Object, description: Some("Command arguments as a JSON object."), required: false },
            ],
        },
    ];
    proof {
        assert(params_view(list@[0].params@) =~= admin_table()[0].params);
        assert(entries_view(list@) =~= admin_table());
    }
    list
}

/// The name of a kind of value in a schema.
pub open spec fn kind_name(kind: ParamKind) -> Seq<char> {
    match kind {
        ParamKind::Text => "string"@,
        ParamKind::Integer => "integer"@,
        ParamKind::Texts => "array"@,
        ParamKind::Object => "object"@,
    }
}

/// The schema of a value that is nothing but of a kind.
pub open spec fn bare(kind: Seq<char>) -> JsonView {
    JsonView::Object(seq![("type"@, JsonView::Text(kind))])
}

/// The schema of an argument.
pub open spec fn property_of(p: ParamView) -> JsonView {
    let f1 = json::with(
        Seq::empty(),
        "description"@,
        match p.description {
            Some(d) => Some(JsonView::Text(d)),
            None => None,
        },
    );
    let f2 = json::with(
        f1,
        "items"@,
        if p.kind == ParamKind::Texts {
            Some(bare("string"@))
        } else {
            None
        },
    );
    JsonView::Object(json::with(f2, "type"@, Some(JsonView::Text(kind_name(p.kind)))))
}

/// The schemas of some arguments, by their names in order.
pub open spec fn properties_of(params: Seq<ParamView>) -> Fields
    decreases params.len(),
{
    if params.len() == 0 {
        Seq::empty()
    } else {
        json::put(
            properties_of(params.drop_last()),
            params.last().name,
            property_of(params.last()),
        )
    }
}

/// The names of the arguments that must be given.
pub open spec fn required_of(params: Seq<ParamView>) -> Seq<Seq<char>>
    decreases params.len(),
{
    if params.len() == 0 {
        Seq::empty()
    } else {
        let before = required_of(params.drop_last());
        if params.last().required {
            before.push(params.last().name)
        } else {
            before
        }
    }
}

/// The schema of the arguments of a tool.
pub open spec fn schema_of(params: Seq<ParamView>) -> JsonView {
    let f1 = json::with(
        Seq::empty(),
        "properties"@,
        Some(JsonView::Object(properties_of(params))),
    );
    let f2 = json::with(
        f1,
        "required"@,
        if required_of(params).len() == 0 {
            None
        } else {
            Some(json::texts_value(required_of(params)))
        },
    );
    JsonView::Object(json::with(f2, "type"@, Some(JsonView::Text("object"@))))
}

/// A tool of the agent itself as it is offered.
pub open spec fn definition_of(entry: ToolEntryView) -> ToolDefinitionView {
    ToolDefinitionView {
        name: entry.name,
        description: entry.description,
        parameters: schema_of(entry.params),
    }
}

/// A tool of a server as it is offered: under a name that tells the server, and
/// with a schema that takes any object where it has none.
pub open spec fn mcp_definition_of(server: Seq<char>, tool: McpToolView) -> ToolDefinitionView {
    ToolDefinitionView {
        name: mcp::qualified(server, tool.name),
        description: tool.description,
        parameters: if tool.input_schema == JsonView::Null {
            bare("object"@)
        } else {
            tool.input_schema
        },
    }
}

/// The tools that an agent is offered: messages for everyone, the shell and files
/// for a coding agent, admin commands where they are allowed, and the tools of the
/// server where one is connected.
pub open spec fn surface(
    profile: ToolProfile,
    admin_enabled: bool,
    server: Option<(Seq<char>, Seq<McpToolView>)>,
) -> Seq<ToolDefinitionView> {
    let own = messaging_table() + (if profile == ToolProfile::Coder {
        coder_table()
    } else {
        Seq::empty()
    }) + (if admin_enabled {
        admin_table()
    } else {
        Seq::empty()
    });
    own.map_values(|e: ToolEntryView| definition_of(e)) + (match server {
        Some((name, tools)) => tools.map_values(|t: McpToolView| mcp_definition_of(name, t)),
        None => Seq::empty(),
    })
}

fn kind_text(kind: ParamKind) -> (r: &'static str)
    ensures
        r@ == kind_name(kind),
{
    match kind {
        ParamKind::Text => "string",
        ParamKind::Integer => "integer",
        ParamKind::Texts => "array",
        ParamKind::Object => "object",
    }
}

fn bare_json(kind: &str) -> (r: Json)
    ensures
        r@ == bare(kind@),
{
    let mut fields: Vec<(String, Json)> = Vec::new();
    json::add_field(&mut fields, "type", json::text_json(kind));
    let value = json::object(fields);
    assert(value@->Object_0 =~= bare(kind@)->Object_0);
    value
}

fn no_fields() -> (r: Vec<(String, Json)>)
    ensures
        json::fields_view(r@) == Seq::<(Seq<char>, JsonView)>::empty(),
{
    let none: Vec<(String, Json)> = Vec::new();
    assert(json::fields_view(none@) =~= Seq::empty());
    none
}

fn property_json(p: &Param) -> (r: Json)
    ensures
        r@ == property_of(p@),
{
    let mut fields = no_fields();
    match p.description {
        Some(d) => {
            json::add_optional(&mut fields, "description", Some(json::text_json(d)));
        },
        None => {
            json::add_optional(&mut fields, "description", None);
        },
    }
    if p.kind == ParamKind::Texts {
        json::add_optional(&mut fields, "items", Some(bare_json("string")));
    } else {
        json::add_optional(&mut fields, "items", None);
    }
    json::add_optional(&mut fields, "type", Some(json::text_json(kind_text(p.kind))));
    json::object(fields)
}

fn schema_json(params: &Vec<Param>) -> (r: Json)
    ensures
        r@ == schema_of(params_view(params@)),
{
    let ghost all = params_view(params@);
    let mut properties = no_fields();
    let mut required: Vec<String> = Vec::new();
    let mut i: usize = 0;
    proof {
        assert(all.take(0) =~= Seq::empty());
        assert(text::views(required@) =~= Seq::empty());
    }
    while i < params.len()
        invariant
            i <= params@.len(),
            all == params_view(params@),
            json::fields_view(properties@) == properties_of(all.take(i as int)),
            text::views(required@) == required_of(all.take(i as int)),
        decreases params@.len() - i,
    {
        let ghost was = text::views(required@);
        proof {
            assert(all.take(i + 1).drop_last() =~= all.take(i as int));
            assert(all.take(i + 1).last() == params@[i as int]@);
        }
        let value = property_json(&params[i]);
        json::set_field(&mut properties, params[i].name, value);
        if params[i].required {
            required.push(params[i].name.to_owned());
            assert(text::views(required@) =~= was.push(params@[i as int].name@));
        }
        i += 1;
    }
    assert(all.take(i as int) =~= all);
    assert(required@.len() == text::views(required@).len());
    let mut fields = no_fields();
    json::add_optional(&mut fields, "properties", Some(json::object(properties)));
    if required.len() == 0 {
        json::add_optional(&mut fields, "required", None);
    } else {
        json::add_optional(&mut fields, "required", Some(json::from_texts(&required)));
    }
    json::add_optional(&mut fields, "type", Some(json::text_json("object")));
    json::object(fields)
}

fn offer_all(out: &mut Vec<ToolDefinition>, entries: &Vec<ToolEntry>)
    ensures
        client::definitions_view(final(out)@) == client::definitions_view(old(out)@)
            + entries_view(entries@).map_values(|e: ToolEntryView| definition_of(e)),
{
    let ghost start = client::definitions_view(out@);
    let ghost want = entries_view(entries@).map_values(|e: ToolEntryView| definition_of(e));
    let mut i: usize = 0;
    assert(start + want.take(0) =~= start);
    while i < entries.len()
        invariant
            i <= entries@.len(),
            want == entries_view(entries@).map_values(|e: ToolEntryView| definition_of(e)),
            client::definitions_view(out@) == start + want.take(i as int),
        decreases entries@.len() - i,
    {
        let ghost was = out@;
        let entry = &entries[i];
        let definition = ToolDefinition::function(
            entry.name,
            entry.description,
            schema_json(&entry.params),
        );
        proof {
            assert(want[i as int] == definition_of(entry@));
        }
        out.push(definition);
        proof {
            assert(client::definitions_view(out@) =~= client::definitions_view(was).push(
                definition@,
            ));
            assert(start + want.take(i + 1) =~= (start + want.take(i as int)).push(
                want[i as int],
            ));
        }
        i += 1;
    }
    assert(want.take(i as int) =~= want);
}

/// The tools of a server as they are offered.
pub fn mcp_definitions(server: &str, tools: &Vec<McpTool>) -> (r: Vec<ToolDefinition>)
    ensures
        client::definitions_view(r@) == mcp::tools_view(tools@).map_values(
            |t: McpToolView| mcp_definition_of(server@, t),
        ),
{
    let mut out: Vec<ToolDefinition> = Vec::new();
    let mut i: usize = 0;
    while i < tools.len()
        invariant
            i <= tools@.len(),
            out@.len() == i,
            forall|j: int|
                0 <= j < i ==> (#[trigger] out@[j])@ == mcp_definition_of(server@, tools@[j]@),
        decreases tools@.len() - i,
    {
        let tool = &tools[i];
        let parameters = match &tool.input_schema {
            Json::Null => bare_json("object"),
            schema => schema.copy(),
        };
        out.push(
            ToolDefinition::function(
                &mcp::qualify(server, &tool.name),
                &tool.description,
                parameters,
            ),
        );
        i += 1;
    }
    assert(client::definitions_view(out@) =~= mcp::tools_view(tools@).map_values(
        |t: McpToolView| mcp_definition_of(server@, t),
    ));
    out
}

/// The mathematical value of a connected server.
pub open spec fn server_view(server: Option<(&str, &Vec<McpTool>)>) -> Option<
    (Seq<char>, Seq<McpToolView>),
> {
    match server {
        Some((name, tools)) => Some((name@, mcp::tools_view(tools@))),
        None => None,
    }
}

/// The tools that an agent is offered.
#[must_use]
pub fn definitions(
    profile: ToolProfile,
    admin_enabled: bool,
    server: Option<(&str, &Vec<McpTool>)>,
) -> (r: Vec<ToolDefinition>)
    ensures
        client::definitions_view(r@) == surface(profile, admin_enabled, server_view(server)),
{
    let ghost show = |e: ToolEntryView| definition_of(e);
    let ghost coding = if profile == ToolProfile::Coder {
        coder_table()
    } else {
        Seq::empty()
    };
    let ghost admin = if admin_enabled {
        admin_table()
    } else {
        Seq::empty()
    };
    let mut out: Vec<ToolDefinition> = Vec::new();
    let entries = messaging_entries();
    offer_all(&mut out, &entries);
    assert(client::definitions_view(out@) =~= messaging_table().map_values(show));
    if profile == ToolProfile::Coder {
        let more = coder_entries();
        offer_all(&mut out, &more);
    }
    assert(client::definitions_view(out@) =~= messaging_table().map_values(show)
        + coding.map_values(show));
    if admin_enabled {
        let more = admin_entries();
        offer_all(&mut out, &more);
    }
    assert(client::definitions_view(out@) =~= (messaging_table() + coding + admin).map_values(
        show,
    ));
    let ghost own = client::definitions_view(out@);
    match server {
        Some((name, tools)) => {
            let mut theirs = mcp_definitions(name, tools);
            let ghost extra = client::definitions_view(theirs@);
            let ghost was = out@;
            out.append(&mut theirs);
            assert(client::definitions_view(out@) =~= own + extra);
        },
        None => {
            assert(own + Seq::empty() =~= own);
        },
    }
    out
}

// ---------------------------------------------------------------------------
// Outcomes

/// What a model is told of a call. `produced_message` says whether the agent has
/// answered the user by it, so that it is not made to answer twice.
#[derive(Debug, PartialEq, Eq)]
pub struct ToolOutcome {
    pub result: String,
    pub produced_message: bool,
}

/// The mathematical value of a [`ToolOutcome`].
#[verifier::ext_equal]
pub struct OutcomeView {
    pub result: Seq<char>,
    pub produced_message: bool,
}

/// An outcome that is no answer to the user.
pub open spec fn note_of(result: Seq<char>) -> OutcomeView {
    OutcomeView { result, produced_message: false }
}

/// An outcome that is an answer to the user.
pub open spec fn answer_of(result: Seq<char>) -> OutcomeView {
    OutcomeView { result, produced_message: true }
}

impl ToolOutcome {
    pub open spec fn view(&self) -> OutcomeView {
        OutcomeView { result: self.result@, produced_message: self.produced_message }
    }

    /// An outcome that is no answer to the user.
    pub fn note(result: &str) -> (r: Self)
        ensures
            r@ == note_of(result@),
    {
        ToolOutcome { result: result.to_owned(), produced_message: false }
    }

    /// An outcome that is an answer to the user.
    pub fn message(result: &str) -> (r: Self)
        ensures
            r@ == answer_of(result@),
    {
        ToolOutcome { result: result.to_owned(), produced_message: true }
    }
}

// ---------------------------------------------------------------------------
// Calls

/// What a call may touch.
pub struct ToolContext {
    pub profile: ToolProfile,
    /// Whether the agent may run admin commands.
    pub admin_enabled: bool,
    /// The name of the server that is connected, if one is.
    pub server: Option<String>,
}

/// The mathematical value of a [`ToolContext`].
#[verifier::ext_equal]
pub struct ContextView {
    pub profile: ToolProfile,
    pub admin_enabled: bool,
    pub server: Option<Seq<char>>,
}

impl ToolContext {
    pub open spec fn view(&self) -> ContextView {
        ContextView {
            profile: self.profile,
            admin_enabled: self.admin_enabled,
            server: text::opt_view(self.server),
        }
    }
}

/// What a call asks for.
pub enum ToolPlan {
    /// Tell the model at once.
    Answer(ToolOutcome),
    /// Call a tool of the connected server.
    Server { tool: String, arguments: Json },
    /// Run an admin command.
    Admin(RequestFrame),
    /// Run a shell command.
    Bash { command: String },
    /// Read a file.
    Read { path: String, offset: Option<usize>, limit: Option<usize> },
    /// Write a file.
    Write { path: String, content: String },
    /// Edit a file.
    Edit { path: String, old_string: String, new_string: String },
    /// Send a message, and tell the model if that works.
    Send { message: NewOutboundMessage, sent: ToolOutcome },
    /// Schedule a task.
    Schedule { prompt: String, process_after: Option<String>, recurrence: Option<String> },
    /// List the tasks.
    ListTasks,
    /// Cancel a task.
    Cancel { series: String },
    /// Pause or resume a task.
    SetPaused { series: String, paused: bool },
}

/// The mathematical value of a [`ToolPlan`].
#[verifier::ext_equal]
pub enum PlanView {
    Answer(OutcomeView),
    Server { tool: Seq<char>, arguments: JsonView },
    Admin(RequestView),
    Bash { command: Seq<char> },
    Read { path: Seq<char>, offset: Option<usize>, limit: Option<usize> },
    Write { path: Seq<char>, content: Seq<char> },
    Edit { path: Seq<char>, old_string: Seq<char>, new_string: Seq<char> },
    Send { message: NewOutboundMessageView, sent: OutcomeView },
    Schedule {
        prompt: Seq<char>,
        process_after: Option<Seq<char>>,
        recurrence: Option<Seq<char>>,
    },
    ListTasks,
    Cancel { series: Seq<char> },
    SetPaused { series: Seq<char>, paused: bool },
}

impl ToolPlan {
    pub open spec fn view(&self) -> PlanView {
        match self {
            ToolPlan::Answer(outcome) => PlanView::Answer(outcome@),
            ToolPlan::Server { tool, arguments } => PlanView::Server {
                tool: tool@,
                arguments: arguments@,
            },
            ToolPlan::Admin(request) => PlanView::Admin(request@),
            ToolPlan::Bash { command } => PlanView::Bash { command: command@ },
            ToolPlan::Read { path, offset, limit } => PlanView::Read {
                path: path@,
                offset: *offset,
                limit: *limit,
            },
            ToolPlan::Write { path, content } => PlanView::Write {
                path: path@,
                content: content@,
            },
            ToolPlan::Edit { path, old_string, new_string } => PlanView::Edit {
                path: path@,
                old_string: old_string@,
                new_string: new_string@,
            },
            ToolPlan::Send { message, sent } => PlanView::Send { message: message@, sent: sent@ },
            ToolPlan::Schedule { prompt, process_after, recurrence } => PlanView::Schedule {
                prompt: prompt@,
                process_after: text::opt_view(*process_after),
                recurrence: text::opt_view(*recurrence),
            },
            ToolPlan::ListTasks => PlanView::ListTasks,
            ToolPlan::Cancel { series } => PlanView::Cancel { series: series@ },
            ToolPlan::SetPaused { series, paused } => PlanView::SetPaused {
                series: series@,
                paused: *paused,
            },
        }
    }
}

/// A plan that tells the model at once.
pub open spec fn tell(result: Seq<char>) -> PlanView {
    PlanView::Answer(note_of(result))
}

/// A plan that tells the model what is wrong with its arguments.
pub open spec fn bad_arguments(reason: Seq<char>) -> PlanView {
    tell("error: bad arguments: "@ + reason)
}

/// A plan that tells the model that its arguments have the wrong shape.
pub open spec fn bad_shape() -> PlanView {
    bad_arguments("unexpected shape"@)
}

/// A chat message with a content.
pub open spec fn chat_message(content: OutboundView, routing: RoutingView) -> NewOutboundMessageView {
    NewOutboundMessageView {
        kind: "chat"@,
        content: json::encoded(content::outbound_value(content)),
        routing,
        in_reply_to: None,
    }
}

/// A line number or a count; `None` where the value is neither.
pub open spec fn index_of(value: Option<JsonView>) -> Option<Option<usize>> {
    match value {
        None => Some(None),
        Some(JsonView::Null) => Some(None),
        Some(JsonView::Number(n)) => match text::unsigned(n, usize::MAX as int) {
            Some(k) => Some(Some(k as usize)),
            None => None,
        },
        Some(_) => None,
    }
}

/// What a call of the admin tool asks for.
pub open spec fn admin_plan(args: JsonView, ulid: Seq<char>) -> PlanView {
    let command = json::text_of(json::part(args, 0, "command"@));
    let given = match json::part(args, 1, "args"@) {
        None => Some(Seq::empty()),
        Some(JsonView::Object(fields)) => Some(fields),
        Some(_) => None,
    };
    if json::is_record(args, 2) && command is Some && given is Some {
        PlanView::Admin(
            RequestView {
                id: db::id_text("acmd"@, ulid),
                command: command->0,
                args: given->0,
            },
        )
    } else {
        bad_shape()
    }
}

/// What a call of the shell asks for.
pub open spec fn bash_plan(args: JsonView) -> PlanView {
    if json::is_record(args, 1) {
        match json::text_of(json::part(args, 0, "command"@)) {
            Some(command) => PlanView::Bash { command },
            None => bad_shape(),
        }
    } else {
        bad_shape()
    }
}

/// What a call that reads a file asks for.
pub open spec fn read_plan(args: JsonView) -> PlanView {
    let path = json::text_of(json::part(args, 0, "path"@));
    let offset = index_of(json::part(args, 1, "offset"@));
    let limit = index_of(json::part(args, 2, "limit"@));
    if json::is_record(args, 3) && path is Some && offset is Some && limit is Some {
        PlanView::Read { path: path->0, offset: offset->0, limit: limit->0 }
    } else {
        bad_shape()
    }
}

/// What a call that writes a file asks for.
pub open spec fn write_plan(args: JsonView) -> PlanView {
    let path = json::text_of(json::part(args, 0, "path"@));
    let content = json::text_of(json::part(args, 1, "content"@));
    if json::is_record(args, 2) && path is Some && content is Some {
        PlanView::Write { path: path->0, content: content->0 }
    } else {
        bad_shape()
    }
}

/// What a call that edits a file asks for.
pub open spec fn edit_plan(args: JsonView) -> PlanView {
    let path = json::text_of(json::part(args, 0, "path"@));
    let old_string = json::text_of(json::part(args, 1, "old_string"@));
    let new_string = json::text_of(json::part(args, 2, "new_string"@));
    if json::is_record(args, 3) && path is Some && old_string is Some && new_string is Some {
        PlanView::Edit { path: path->0, old_string: old_string->0, new_string: new_string->0 }
    } else {
        bad_shape()
    }
}

/// What a call that answers the user asks for.
pub open spec fn send_plan(args: JsonView) -> PlanView {
    if json::is_record(args, 1) {
        match json::text_of(json::part(args, 0, "text"@)) {
            Some(said) => PlanView::Send {
                message: chat_message(content::text_content(said), content::open_routing()),
                sent: answer_of("sent"@),
            },
            None => bad_shape(),
        }
    } else {
        bad_shape()
    }
}

/// What a call that schedules a task asks for: a schedule that recurs must be one.
pub open spec fn schedule_plan(args: JsonView) -> PlanView {
    let prompt = json::text_of(json::part(args, 0, "prompt"@));
    let process_after = json::optional_text(json::part(args, 1, "process_after"@));
    let recurrence = json::optional_text(json::part(args, 2, "recurrence"@));
    if json::is_record(args, 3) && prompt is Some && process_after is Some && recurrence is Some {
        let plan = PlanView::Schedule {
            prompt: prompt->0,
            process_after: process_after->0,
            recurrence: recurrence->0,
        };
        match recurrence->0 {
            None => plan,
            Some(expr) => match cron::meaning(expr) {
                Ok(_) => plan,
                Err(reason) => tell(
                    "error: "@ + ("invalid cron expression "@ + text::quoted(expr) + ": "@
                        + reason),
                ),
            },
        }
    } else {
        bad_shape()
    }
}

/// What a call that names a task asks for.
pub open spec fn series_plan(name: Seq<char>, args: JsonView) -> PlanView {
    if json::is_record(args, 1) {
        match json::text_of(json::part(args, 0, "series"@)) {
            Some(series) => if name == CANCEL_TASK@ {
                PlanView::Cancel { series }
            } else {
                PlanView::SetPaused { series, paused: name == PAUSE_TASK@ }
            },
            None => bad_shape(),
        }
    } else {
        bad_shape()
    }
}

/// What a call that writes to another agent asks for.
pub open spec fn delegate_plan(args: JsonView) -> PlanView {
    let agent_group = json::text_of(json::part(args, 0, "agent_group"@));
    let said = json::text_of(json::part(args, 1, "text"@));
    if json::is_record(args, 2) && agent_group is Some && said is Some {
        PlanView::Send {
            message: chat_message(
                content::text_content(said->0),
                RoutingView {
                    channel_type: Some(channels::AGENT_CHANNEL_TYPE@),
                    platform_id: agent_group,
                    thread_id: None,
                },
            ),
            sent: note_of("delivered to agent"@),
        }
    } else {
        bad_shape()
    }
}

/// A question as it is sent: the text lets a later turn see what was asked.
pub open spec fn question_content(
    id: Seq<char>,
    question: Seq<char>,
    options: Seq<Seq<char>>,
) -> OutboundView {
    OutboundView {
        text: Some(question + " ("@ + text::joined(options, " / "@) + ")"@),
        files: Seq::empty(),
        operation: Some(
            OperationView::AskQuestion { question_id: id, title: question, question, options },
        ),
        extra: Seq::empty(),
    }
}

/// What a call that asks the user a question asks for: there must be two options
/// to choose from.
pub open spec fn ask_plan(args: JsonView, ulid: Seq<char>) -> PlanView {
    let question = json::text_of(json::part(args, 0, "question"@));
    let options = match json::part(args, 1, "options"@) {
        Some(list) => json::texts_of(list),
        None => None,
    };
    if json::is_record(args, 2) && question is Some && options is Some {
        if options->0.len() < 2 {
            tell("error: ask_user_question needs at least two options"@)
        } else {
            let id = db::id_text("q"@, ulid);
            PlanView::Send {
                message: chat_message(
                    question_content(id, question->0, options->0),
                    content::open_routing(),
                ),
                sent: answer_of(
                    "asked the user (question "@ + id
                        + "); their choice will arrive as a new message"@,
                ),
            }
        }
    } else {
        bad_shape()
    }
}

/// Whether a tool is one of a coding agent.
pub open spec fn coder_only(name: Seq<char>) -> bool {
    name == BASH@ || name == READ@ || name == WRITE@ || name == EDIT@
}

/// Whether a tool takes the name of a task.
pub open spec fn names_a_task(name: Seq<char>) -> bool {
    name == CANCEL_TASK@ || name == PAUSE_TASK@ || name == RESUME_TASK@
}

/// Whether a name is that of a tool of the agent itself which takes arguments.
pub open spec fn takes_arguments(name: Seq<char>) -> bool {
    name == ADMIN@ || coder_only(name) || name == SEND_MESSAGE@ || name == SCHEDULE_TASK@
        || names_a_task(name) || name == SEND_TO_AGENT@ || name == ASK_USER_QUESTION@
}

/// What a call of a tool of the agent itself asks for, its arguments being read.
pub open spec fn own_plan(name: Seq<char>, args: JsonView, ulid: Seq<char>) -> PlanView {
    if name == ADMIN@ {
        admin_plan(args, ulid)
    } else if name == BASH@ {
        bash_plan(args)
    } else if name == READ@ {
        read_plan(args)
    } else if name == WRITE@ {
        write_plan(args)
    } else if name == EDIT@ {
        edit_plan(args)
    } else if name == SEND_MESSAGE@ {
        send_plan(args)
    } else if name == SCHEDULE_TASK@ {
        schedule_plan(args)
    } else if names_a_task(name) {
        series_plan(name, args)
    } else if name == SEND_TO_AGENT@ {
        delegate_plan(args)
    } else {
        ask_plan(args, ulid)
    }
}

/// The tool of the connected server that a name means, if it means one.
pub open spec fn server_tool(ctx: ContextView, name: Seq<char>) -> Option<Seq<char>> {
    match text::cut(name, "__"@) {
        Some((server, tool)) => if ctx.server == Some(server) {
            Some(tool)
        } else {
            None
        },
        None => None,
    }
}

/// What a call asks for. What is wrong with a call is told to the model and ends
/// no turn. A tool that the agent does not have is refused even if it is called.
pub open spec fn plan_of(
    ctx: ContextView,
    name: Seq<char>,
    arguments: Seq<char>,
    ulid: Seq<char>,
) -> PlanView {
    if coder_only(name) && ctx.profile != ToolProfile::Coder {
        tell("error: "@ + name + " is not available in this agent group"@)
    } else if server_tool(ctx, name) is Some {
        PlanView::Server {
            tool: server_tool(ctx, name)->0,
            arguments: match json::parsed(arguments) {
                Ok(value) => value,
                Err(_) => JsonView::Object(Seq::empty()),
            },
        }
    } else if name == ADMIN@ && !ctx.admin_enabled {
        tell("error: admin commands are not available to this agent group"@)
    } else if name == LIST_TASKS@ {
        PlanView::ListTasks
    } else if !takes_arguments(name) {
        tell("error: unknown tool "@ + name)
    } else {
        match json::parsed(arguments) {
            Err(reason) => bad_arguments(reason),
            Ok(args) => own_plan(name, args, ulid),
        }
    }
}

fn tell_plan(result: &str) -> (r: ToolPlan)
    ensures
        r@ == tell(result@),
{
    ToolPlan::Answer(ToolOutcome::note(result))
}

fn shape_plan() -> (r: ToolPlan)
    ensures
        r@ == bad_shape(),
{
    tell_plan(&text::concat2("error: bad arguments: ", "unexpected shape"))
}

fn read_index(value: Option<&Json>) -> (r: Option<Option<usize>>)
    ensures
        r == index_of(json::opt_value(value)),
{
    match value {
        None => Some(None),
        Some(Json::Null) => Some(None),
        Some(Json::Number(n)) => match text::parse_unsigned(n, usize::MAX as u64) {
            Some(k) => Some(Some(k as usize)),
            None => None,
        },
        Some(_) => None,
    }
}

fn chat_out(content: &OutboundContent, routing: Routing) -> (r: NewOutboundMessage)
    ensures
        r@ == chat_message(content@, routing@),
{
    NewOutboundMessage::chat(content.to_text(), routing)
}

fn anywhere() -> (r: Routing)
    ensures
        r@ == content::open_routing(),
{
    Routing { channel_type: None, platform_id: None, thread_id: None }
}

fn plan_admin(args: &Json, ulid: &str) -> (r: ToolPlan)
    ensures
        r@ == admin_plan(args@, ulid@),
{
    if !args.is_record(2) {
        return shape_plan();
    }
    let command = json::as_text(args.part(0, "command"));
    let given = match args.part(1, "args") {
        None => Some(no_fields()),
        Some(Json::Object(fields)) => {
            proof {
                json::lemma_object_view(*fields);
            }
            Some(crate::protocol::frame::copy_fields(fields))
        },
        Some(_) => None,
    };
    match (command, given) {
        (Some(command), Some(given)) => ToolPlan::Admin(
            RequestFrame { id: db::id_from("acmd", ulid), command, args: given },
        ),
        _ => shape_plan(),
    }
}

fn plan_bash(args: &Json) -> (r: ToolPlan)
    ensures
        r@ == bash_plan(args@),
{
    if !args.is_record(1) {
        return shape_plan();
    }
    match json::as_text(args.part(0, "command")) {
        Some(command) => ToolPlan::Bash { command },
        None => shape_plan(),
    }
}

fn plan_read(args: &Json) -> (r: ToolPlan)
    ensures
        r@ == read_plan(args@),
{
    if !args.is_record(3) {
        return shape_plan();
    }
    let path = json::as_text(args.part(0, "path"));
    let offset = read_index(args.part(1, "offset"));
    let limit = read_index(args.part(2, "limit"));
    match (path, offset, limit) {
        (Some(path), Some(offset), Some(limit)) => ToolPlan::Read { path, offset, limit },
        _ => shape_plan(),
    }
}

fn plan_write(args: &Json) -> (r: ToolPlan)
    ensures
        r@ == write_plan(args@),
{
    if !args.is_record(2) {
        return shape_plan();
    }
    let path = json::as_text(args.part(0, "path"));
    let content = json::as_text(args.part(1, "content"));
    match (path, content) {
        (Some(path), Some(content)) => ToolPlan::Write { path, content },
        _ => shape_plan(),
    }
}

fn plan_edit(args: &Json) -> (r: ToolPlan)
    ensures
        r@ == edit_plan(args@),
{
    if !args.is_record(3) {
        return shape_plan();
    }
    let path = json::as_text(args.part(0, "path"));
    let old_string = json::as_text(args.part(1, "old_string"));
    let new_string = json::as_text(args.part(2, "new_string"));
    match (path, old_string, new_string) {
        (Some(path), Some(old_string), Some(new_string)) => ToolPlan::Edit {
            path,
            old_string,
            new_string,
        },
        _ => shape_plan(),
    }
}

fn plan_send(args: &Json) -> (r: ToolPlan)
    ensures
        r@ == send_plan(args@),
{
    if !args.is_record(1) {
        return shape_plan();
    }
    match json::as_text(args.part(0, "text")) {
        Some(said) => ToolPlan::Send {
            message: chat_out(&OutboundContent::from_text(&said), anywhere()),
            sent: ToolOutcome::message("sent"),
        },
        None => shape_plan(),
    }
}

fn plan_schedule(args: &Json) -> (r: ToolPlan)
    ensures
        r@ == schedule_plan(args@),
{
    if !args.is_record(3) {
        return shape_plan();
    }
    let prompt = json::as_text(args.part(0, "prompt"));
    let process_after = json::as_optional_text(args.part(1, "process_after"));
    let recurrence = json::as_optional_text(args.part(2, "recurrence"));
    match (prompt, process_after, recurrence) {
        (Some(prompt), Some(process_after), Some(recurrence)) => {
            match &recurrence {
                Some(expr) => match Cron::parse(expr) {
                    Ok(_) => {},
                    Err(e) => {
                        return tell_plan(&text::concat2("error: ", &e.message()));
                    },
                },
                None => {},
            }
            ToolPlan::Schedule { prompt, process_after, recurrence }
        },
        _ => shape_plan(),
    }
}

fn plan_series(name: &str, args: &Json) -> (r: ToolPlan)
    ensures
        r@ == series_plan(name@, args@),
{
    if !args.is_record(1) {
        return shape_plan();
    }
    match json::as_text(args.part(0, "series")) {
        Some(series) => {
            if text::same(name, CANCEL_TASK) {
                ToolPlan::Cancel { series }
            } else {
                ToolPlan::SetPaused { series, paused: text::same(name, PAUSE_TASK) }
            }
        },
        None => shape_plan(),
    }
}

fn plan_delegate(args: &Json) -> (r: ToolPlan)
    ensures
        r@ == delegate_plan(args@),
{
    if !args.is_record(2) {
        return shape_plan();
    }
    let agent_group = json::as_text(args.part(0, "agent_group"));
    let said = json::as_text(args.part(1, "text"));
    match (agent_group, said) {
        (Some(agent_group), Some(said)) => {
            let routing = Routing {
                channel_type: Some(channels::AGENT_CHANNEL_TYPE.to_owned()),
                platform_id: Some(agent_group),
                thread_id: None,
            };
            ToolPlan::Send {
                message: chat_out(&OutboundContent::from_text(&said), routing),
                sent: ToolOutcome::note("delivered to agent"),
            }
        },
        _ => shape_plan(),
    }
}

fn ask_content(id: &str, question: &str, options: Vec<String>) -> (r: OutboundContent)
    ensures
        r@ == question_content(id@, question@, text::views(options@)),
{
    let mut said = question.to_owned();
    said.append(" (");
    said.append(&text::join(&options, " / "));
    said.append(")");
    let r = OutboundContent {
        text: Some(said),
        files: Vec::new(),
        operation: Some(
            Operation::AskQuestion {
                question_id: id.to_owned(),
                title: question.to_owned(),
                question: question.to_owned(),
                options,
            },
        ),
        extra: no_fields(),
    };
    assert(r@.files =~= Seq::empty());
    r
}

fn plan_ask(args: &Json, ulid: &str) -> (r: ToolPlan)
    ensures
        r@ == ask_plan(args@, ulid@),
{
    if !args.is_record(2) {
        return shape_plan();
    }
    let question = json::as_text(args.part(0, "question"));
    let options = match args.part(1, "options") {
        Some(list) => json::as_texts(list),
        None => None,
    };
    match (question, options) {
        (Some(question), Some(options)) => {
            assert(options@.len() == text::views(options@).len());
            if options.len() < 2 {
                return tell_plan("error: ask_user_question needs at least two options");
            }
            let id = db::id_from("q", ulid);
            let content = ask_content(&id, &question, options);
            ToolPlan::Send {
                message: chat_out(&content, anywhere()),
                sent: ToolOutcome::message(
                    &text::concat3(
                        "asked the user (question ",
                        &id,
                        "); their choice will arrive as a new message",
                    ),
                ),
            }
        },
        _ => shape_plan(),
    }
}

fn is_coder_only(name: &str) -> (r: bool)
    ensures
        r == coder_only(name@),
{
    text::same(name, BASH) || text::same(name, READ) || text::same(name, WRITE) || text::same(
        name,
        EDIT,
    )
}

fn is_about_a_task(name: &str) -> (r: bool)
    ensures
        r == names_a_task(name@),
{
    text::same(name, CANCEL_TASK) || text::same(name, PAUSE_TASK) || text::same(name, RESUME_TASK)
}

fn is_known(name: &str) -> (r: bool)
    ensures
        r == takes_arguments(name@),
{
    text::same(name, ADMIN) || is_coder_only(name) || text::same(name, SEND_MESSAGE)
        || text::same(name, SCHEDULE_TASK) || is_about_a_task(name) || text::same(
        name,
        SEND_TO_AGENT,
    ) || text::same(name, ASK_USER_QUESTION)
}

fn plan_own(name: &str, args: &Json, ulid: &str) -> (r: ToolPlan)
    ensures
        r@ == own_plan(name@, args@, ulid@),
{
    if text::same(name, ADMIN) {
        plan_admin(args, ulid)
    } else if text::same(name, BASH) {
        plan_bash(args)
    } else if text::same(name, READ) {
        plan_read(args)
    } else if text::same(name, WRITE) {
        plan_write(args)
    } else if text::same(name, EDIT) {
        plan_edit(args)
    } else if text::same(name, SEND_MESSAGE) {
        plan_send(args)
    } else if text::same(name, SCHEDULE_TASK) {
        plan_schedule(args)
    } else if is_about_a_task(name) {
        plan_series(name, args)
    } else if text::same(name, SEND_TO_AGENT) {
        plan_delegate(args)
    } else {
        plan_ask(args, ulid)
    }
}

fn find_server_tool(context: &ToolContext, name: &str) -> (r: Option<String>)
    ensures
        text::opt_view(r) == server_tool(context@, name@),
{
    match mcp::dequalify(name) {
        Some((server, tool)) => match &context.server {
            Some(connected) => {
                if text::same(connected, server) {
                    Some(tool.to_owned())
                } else {
                    None
                }
            },
            None => None,
        },
        None => None,
    }
}

/// What a call asks for. `ulid` is what an identifier is made of, should the call
/// need one.
pub fn plan(context: &ToolContext, call: &ToolCall, ulid: &str) -> (r: ToolPlan)
    ensures
        r@ == plan_of(context@, call@.function.name, call@.function.arguments, ulid@),
{
    let name: &str = call.function.name.as_str();
    if is_coder_only(name) && context.profile != ToolProfile::Coder {
        return tell_plan(
            &text::concat3("error: ", name, " is not available in this agent group"),
        );
    }
    match find_server_tool(context, name) {
        Some(tool) => {
            let arguments = match Json::parse(&call.function.arguments) {
                Ok(value) => value,
                Err(_) => json::object(no_fields()),
            };
            return ToolPlan::Server { tool, arguments };
        },
        None => {},
    }
    if text::same(name, ADMIN) && !context.admin_enabled {
        return tell_plan("error: admin commands are not available to this agent group");
    }
    if text::same(name, LIST_TASKS) {
        return ToolPlan::ListTasks;
    }
    if !is_known(name) {
        return tell_plan(&text::concat2("error: unknown tool ", name));
    }
    match Json::parse(&call.function.arguments) {
        Err(reason) => tell_plan(&text::concat2("error: bad arguments: ", &reason)),
        Ok(args) => plan_own(name, &args, ulid),
    }
}

/// What a call asks for, with a fresh identifier where it needs one.
pub fn dispatch(context: &ToolContext, call: &ToolCall) -> (r: ToolPlan)
    ensures
        exists|ulid: Seq<char>|
            db::ulid_text(ulid) && r@ == #[trigger] plan_of(
                context@,
                call@.function.name,
                call@.function.arguments,
                ulid,
            ),
{
    let ulid = db::fresh_ulid();
    plan(context, call, &ulid)
}

// ---------------------------------------------------------------------------
// Answers

/// The arguments of a command, as a summary shows them.
pub open spec fn args_parts(args: Fields) -> Seq<Seq<char>> {
    args.map_values(
        |f: (Seq<char>, JsonView)|
            f.0 + "="@ + (match f.1 {
                JsonView::Text(s) => s,
                other => json::encoded(other),
            }),
    )
}

/// The arguments of a command, as a summary shows them.
pub open spec fn args_summary(args: Fields) -> Seq<char> {
    if args.len() == 0 {
        Seq::empty()
    } else {
        " ("@ + text::joined(args_parts(args), ", "@) + ")"@
    }
}

fn summarize_args(args: &Vec<(String, Json)>) -> (r: String)
    ensures
        r@ == args_summary(json::fields_view(args@)),
{
    let ghost all = json::fields_view(args@);
    if args.len() == 0 {
        let none = String::new();
        assert(none@ =~= Seq::empty());
        return none;
    }
    let mut parts: Vec<String> = Vec::new();
    let mut i: usize = 0;
    while i < args.len()
        invariant
            i <= args@.len(),
            all == json::fields_view(args@),
            parts@.len() == i,
            forall|j: int| 0 <= j < i ==> (#[trigger] parts@[j])@ == args_parts(all)[j],
        decreases args@.len() - i,
    {
        let shown = match &args[i].1 {
            Json::Text(s) => s.clone(),
            other => other.encode(),
        };
        let part = text::concat3(&args[i].0, "=", &shown);
        assert(part@ == args_parts(all)[i as int]);
        parts.push(part);
        i += 1;
    }
    assert(text::views(parts@) =~= args_parts(all));
    text::concat3(" (", &text::join(&parts, ", "), ")")
}

/// What a command that waits for approval comes to: a summary, and the message
/// that asks the owner.
pub open spec fn approval_plan(data: Option<JsonView>, ulid: Seq<char>) -> PlanView {
    let given = match data {
        Some(value) => value,
        None => JsonView::Null,
    };
    let command = match json::get(given, "command"@) {
        Some(JsonView::Text(s)) => s,
        _ => Seq::empty(),
    };
    let args = match json::get(given, "args"@) {
        Some(JsonView::Object(fields)) => fields,
        _ => Seq::empty(),
    };
    let id = db::id_text("ap"@, ulid);
    let summary = "run `"@ + command + "`"@ + args_summary(args);
    PlanView::Send {
        message: chat_message(
            OutboundView {
                text: Some("Requested owner approval to "@ + summary + "."@),
                files: Seq::empty(),
                operation: Some(
                    OperationView::Approval { approval_id: id, command, args, summary },
                ),
                extra: Seq::empty(),
            },
            content::open_routing(),
        ),
        sent: answer_of(
            "submitted for owner approval ("@ + id + "); the outcome will arrive as a message"@,
        ),
    }
}

/// What a model is told of an admin command that ran.
pub open spec fn admin_text(response: ResponseView) -> Seq<char> {
    if response.ok {
        "ok: "@ + (match response.data {
            Some(data) => json::encoded(data),
            None => "ok"@,
        })
    } else {
        match response.error {
            Some(error) => "error: "@ + error.code.text() + ": "@ + error.message,
            None => "error: command failed"@,
        }
    }
}

/// Whether a response says that a command waits for approval.
pub open spec fn is_held(response: ResponseView) -> bool {
    response.error matches Some(error) && error.code == ErrorCode::ApprovalPending
}

/// What follows an admin command: the owner is asked where it waits for approval,
/// and otherwise the model is told.
pub open spec fn admin_answer(response: ResponseView, ulid: Seq<char>) -> PlanView {
    if is_held(response) {
        approval_plan(response.data, ulid)
    } else {
        tell(admin_text(response))
    }
}

fn submit_for_approval(data: &Option<Json>, ulid: &str) -> (r: ToolPlan)
    ensures
        r@ == approval_plan(
            match *data {
                Some(value) => Some(value@),
                None => None,
            },
            ulid@,
        ),
{
    let none = Json::Null;
    let given: &Json = match data {
        Some(value) => value,
        None => &none,
    };
    let command = match given.get("command") {
        Some(Json::Text(s)) => s.clone(),
        _ => {
            let empty = String::new();
            assert(empty@ =~= Seq::empty());
            empty
        },
    };
    let args = match given.get("args") {
        Some(Json::Object(fields)) => {
            proof {
                json::lemma_object_view(*fields);
            }
            crate::protocol::frame::copy_fields(fields)
        },
        _ => no_fields(),
    };
    let id = db::id_from("ap", ulid);
    let mut summary = text::concat3("run `", &command, "`");
    summary.append(&summarize_args(&args));
    let content = OutboundContent {
        text: Some(text::concat3("Requested owner approval to ", &summary, ".")),
        files: Vec::new(),
        operation: Some(Operation::Approval { approval_id: id.clone(), command, args, summary }),
        extra: no_fields(),
    };
    assert(content@.files =~= Seq::empty());
    ToolPlan::Send {
        message: chat_out(&content, anywhere()),
        sent: ToolOutcome::message(
            &text::concat3(
                "submitted for owner approval (",
                &id,
                "); the outcome will arrive as a message",
            ),
        ),
    }
}

fn render_admin_response(response: &ResponseFrame) -> (r: String)
    ensures
        r@ == admin_text(response@),
{
    if response.ok {
        match &response.data {
            Some(data) => text::concat2("ok: ", &data.encode()),
            None => text::concat2("ok: ", "ok"),
        }
    } else {
        match &response.error {
            Some(error) => {
                let mut out = text::concat3("error: ", error.code.as_str(), ": ");
                out.append(&error.message);
                out
            },
            None => "error: command failed".to_owned(),
        }
    }
}

/// What follows an admin command.
pub fn after_admin(response: &ResponseFrame, ulid: &str) -> (r: ToolPlan)
    ensures
        r@ == admin_answer(response@, ulid@),
{
    match &response.error {
        Some(error) => {
            if error.code == ErrorCode::ApprovalPending {
                return submit_for_approval(&response.data, ulid);
            }
        },
        None => {},
    }
    tell_plan(&render_admin_response(response))
}

/// What follows an admin command, with a fresh identifier where it needs one.
pub fn follow_admin(response: &ResponseFrame) -> (r: ToolPlan)
    ensures
        exists|ulid: Seq<char>|
            db::ulid_text(ulid) && r@ == #[trigger] admin_answer(response@, ulid),
{
    let ulid = db::fresh_ulid();
    after_admin(response, &ulid)
}

/// What a model is told of a message that was to be sent.
pub fn after_send(sent: ToolOutcome, failure: Option<String>) -> (r: ToolOutcome)
    ensures
        r@ == (match failure {
            None => sent@,
            Some(reason) => note_of("error: "@ + reason@),
        }),
{
    match failure {
        None => sent,
        Some(reason) => ToolOutcome::note(&text::concat2("error: ", &reason)),
    }
}

/// What a model is told of a task that was to be scheduled.
pub fn after_schedule(result: Result<String, String>) -> (r: ToolOutcome)
    ensures
        r@ == note_of(
            match result {
                Ok(series) => "scheduled (series "@ + series@ + ")"@,
                Err(reason) => "error: "@ + reason@,
            },
        ),
{
    match result {
        Ok(series) => ToolOutcome::note(&text::concat3("scheduled (series ", &series, ")")),
        Err(reason) => ToolOutcome::note(&text::concat2("error: ", &reason)),
    }
}

/// What a model is told of a task that was to be changed; `changed` is how many
/// were.
pub fn after_change(series: &str, changed: Result<u64, String>) -> (r: ToolOutcome)
    ensures
        r@ == note_of(
            match changed {
                Ok(n) => if n == 0 {
                    "no active task with series "@ + series@
                } else {
                    "done"@
                },
                Err(reason) => "error: "@ + reason@,
            },
        ),
{
    match changed {
        Ok(n) => {
            if n == 0 {
                ToolOutcome::note(&text::concat2("no active task with series ", series))
            } else {
                ToolOutcome::note("done")
            }
        },
        Err(reason) => ToolOutcome::note(&text::concat2("error: ", &reason)),
    }
}

/// What a model is told of a call of a tool of the connected server.
pub fn after_server(tool: &str, result: Result<String, String>) -> (r: ToolOutcome)
    ensures
        r@ == note_of(
            match result {
                Ok(said) => said@,
                Err(reason) => "error: "@ + tool@ + " failed: "@ + reason@,
            },
        ),
{
    match result {
        Ok(said) => ToolOutcome::note(&said),
        Err(reason) => {
            let mut out = text::concat3("error: ", tool, " failed: ");
            out.append(&reason);
            ToolOutcome::note(&out)
        },
    }
}

/// A task that is scheduled.
pub struct ScheduledTask {
    pub series: String,
    pub prompt: String,
    pub process_after: Option<String>,
    pub recurrence: Option<String>,
    pub paused: bool,
}

/// The mathematical value of a [`ScheduledTask`].
#[verifier::ext_equal]
pub struct ScheduledTaskView {
    pub series: Seq<char>,
    pub prompt: Seq<char>,
    pub process_after: Option<Seq<char>>,
    pub recurrence: Option<Seq<char>>,
    pub paused: bool,
}

impl ScheduledTask {
    pub open spec fn view(&self) -> ScheduledTaskView {
        ScheduledTaskView {
            series: self.series@,
            prompt: self.prompt@,
            process_after: text::opt_view(self.process_after),
            recurrence: text::opt_view(self.recurrence),
            paused: self.paused,
        }
    }
}

/// The line of a task in a list.
pub open spec fn task_line(t: ScheduledTaskView) -> Seq<char> {
    let schedule = match (t.recurrence, t.process_after) {
        (Some(expr), _) => "recurring ["@ + expr + "]"@,
        (None, Some(at)) => "once at "@ + at,
        (None, None) => "as soon as possible"@,
    };
    let line = "- "@ + t.series + " — "@ + t.prompt + " — "@ + schedule;
    if t.paused {
        line + " (paused)"@
    } else {
        line
    }
}

/// The list of the tasks.
pub open spec fn tasks_text(tasks: Seq<ScheduledTaskView>) -> Seq<char> {
    if tasks.len() == 0 {
        "no scheduled tasks"@
    } else {
        text::joined(tasks.map_values(|t: ScheduledTaskView| task_line(t)), "\n"@)
    }
}

fn show_task(task: &ScheduledTask) -> (r: String)
    ensures
        r@ == task_line(task@),
{
    let mut line = text::concat3("- ", &task.series, " — ");
    line.append(&task.prompt);
    line.append(" — ");
    let schedule = match &task.recurrence {
        Some(expr) => text::concat3("recurring [", expr, "]"),
        None => match &task.process_after {
            Some(at) => text::concat2("once at ", at),
            None => "as soon as possible".to_owned(),
        },
    };
    line.append(&schedule);
    if task.paused {
        line.append(" (paused)");
    }
    line
}

/// What a model is told of the tasks.
pub fn after_list(result: Result<Vec<ScheduledTask>, String>) -> (r: ToolOutcome)
    ensures
        r@ == note_of(
            match result {
                Ok(tasks) => tasks_text(tasks@.map_values(|t: ScheduledTask| t@)),
                Err(reason) => "error: "@ + reason@,
            },
        ),
{
    match result {
        Ok(tasks) => {
            let ghost all = tasks@.map_values(|t: ScheduledTask| t@);
            if tasks.len() == 0 {
                return ToolOutcome::note("no scheduled tasks");
            }
            let mut lines: Vec<String> = Vec::new();
            let mut i: usize = 0;
            while i < tasks.len()
                invariant
                    i <= tasks@.len(),
                    lines@.len() == i,
                    forall|j: int| 0 <= j < i ==> (#[trigger] lines@[j])@ == task_line(tasks@[j]@),
                decreases tasks@.len() - i,
            {
                lines.push(show_task(&tasks[i]));
                i += 1;
            }
            assert(text::views(lines@) =~= all.map_values(
                |t: ScheduledTaskView| task_line(t),
            ));
            ToolOutcome::note(&text::join(&lines, "\n"))
        },
        Err(reason) => ToolOutcome::note(&text::concat2("error: ", &reason)),
    }
}

// ---------------------------------------------------------------------------
// Laws

/// An agent that is no coding agent never gets at the shell or at files, whatever
/// it calls.
pub proof fn chat_agents_never_execute(
    ctx: ContextView,
    name: Seq<char>,
    arguments: Seq<char>,
    ulid: Seq<char>,
)
    requires
        ctx.profile != ToolProfile::Coder,
    ensures
        ({
            let plan = plan_of(ctx, name, arguments, ulid);
            !(plan is Bash) && !(plan is Read) && !(plan is Write) && !(plan is Edit)
        }),
{
}

/// An agent without admin commands never runs one, whatever it calls.
pub proof fn admin_commands_need_leave(
    ctx: ContextView,
    name: Seq<char>,
    arguments: Seq<char>,
    ulid: Seq<char>,
)
    requires
        !ctx.admin_enabled,
    ensures
        !(plan_of(ctx, name, arguments, ulid) is Admin),
{
}

/// A schedule that is no cron expression is never scheduled.
pub proof fn bad_schedules_are_refused(args: JsonView)
    ensures
        schedule_plan(args) matches PlanView::Schedule { recurrence: Some(expr), .. } ==>
            cron::meaning(expr) is Ok,
{
}

/// A question is asked with at least two options.
pub proof fn questions_have_a_choice(args: JsonView, ulid: Seq<char>)
    ensures
        ask_plan(args, ulid) is Send ==> (json::part(args, 1, "options"@) matches Some(list)
            && json::texts_of(list) matches Some(options) && options.len() >= 2),
{
}

/// Whether a text has an underscore at an index and at the next.
pub open spec fn doubled(s: Seq<char>, i: int) -> bool {
    s[i] == '_' && s[i + 1] == '_'
}

proof fn lemma_no_name_is_doubled()
    ensures
        forall|name: Seq<char>, i: int|
            (takes_arguments(name) || name == LIST_TASKS@) && 0 <= i < name.len() - 1
                ==> !#[trigger] doubled(name, i),
{
    reveal_strlit("admin");
    reveal_strlit("send_message");
    reveal_strlit("schedule_task");
    reveal_strlit("list_tasks");
    reveal_strlit("cancel_task");
    reveal_strlit("pause_task");
    reveal_strlit("resume_task");
    reveal_strlit("send_to_agent");
    reveal_strlit("ask_user_question");
    reveal_strlit("bash");
    reveal_strlit("read");
    reveal_strlit("write");
    reveal_strlit("edit");
    assert forall|i: int| 0 <= i < ADMIN@.len() - 1 implies !doubled(ADMIN@, i) by {
        assert(ADMIN@.len() == 5);
        assert(ADMIN@[0] == 'a');
        assert(ADMIN@[1] == 'd');
        assert(ADMIN@[2] == 'm');
        assert(ADMIN@[3] == 'i');
    }
    assert forall|i: int| 0 <= i < SEND_MESSAGE@.len() - 1 implies !doubled(SEND_MESSAGE@, i) by {
        assert(SEND_MESSAGE@.len() == 12);
        assert(SEND_MESSAGE@[0] == 's');
        assert(SEND_MESSAGE@[1] == 'e');
        assert(SEND_MESSAGE@[2] == 'n');
        assert(SEND_MESSAGE@[3] == 'd');
        assert(SEND_MESSAGE@[5] == 'm');
        assert(SEND_MESSAGE@[5] == 'm');
        assert(SEND_MESSAGE@[6] == 'e');
        assert(SEND_MESSAGE@[7] == 's');
        assert(SEND_MESSAGE@[8] == 's');
        assert(SEND_MESSAGE@[9] == 'a');
        assert(SEND_MESSAGE@[10] == 'g');
    }
    assert forall|i: int| 0 <= i < SCHEDULE_TASK@.len() - 1 implies !doubled(SCHEDULE_TASK@, i) by {
        assert(SCHEDULE_TASK@.len() == 13);
        assert(SCHEDULE_TASK@[0] == 's');
        assert(SCHEDULE_TASK@[1] == 'c');
        assert(SCHEDULE_TASK@[2] == 'h');
        assert(SCHEDULE_TASK@[3] == 'e');
        assert(SCHEDULE_TASK@[4] == 'd');
        assert(SCHEDULE_TASK@[5] == 'u');
        assert(SCHEDULE_TASK@[6] == 'l');
        assert(SCHEDULE_TASK@[7] == 'e');
        assert(SCHEDULE_TASK@[9] == 't');
        assert(SCHEDULE_TASK@[9] == 't');
        assert(SCHEDULE_TASK@[10] == 'a');
        assert(SCHEDULE_TASK@[11] == 's');
    }
    assert forall|i: int| 0 <= i < LIST_TASKS@.len() - 1 implies !doubled(LIST_TASKS@, i) by {
        assert(LIST_TASKS@.len() == 10);
        assert(LIST_TASKS@[0] == 'l');
        assert(LIST_TASKS@[1] == 'i');
        assert(LIST_TASKS@[2] == 's');
        assert(LIST_TASKS@[3] == 't');
        assert(LIST_TASKS@[5] == 't');
        assert(LIST_TASKS@[5] == 't');
        assert(LIST_TASKS@[6] == 'a');
        assert(LIST_TASKS@[7] == 's');
        assert(LIST_TASKS@[8] == 'k');
    }
    assert forall|i: int| 0 <= i < CANCEL_TASK@.len() - 1 implies !doubled(CANCEL_TASK@, i) by {
        assert(CANCEL_TASK@.len() == 11);
        assert(CANCEL_TASK@[0] == 'c');
        assert(CANCEL_TASK@[1] == 'a');
        assert(CANCEL_TASK@[2] == 'n');
        assert(CANCEL_TASK@[3] == 'c');
        assert(CANCEL_TASK@[4] == 'e');
        assert(CANCEL_TASK@[5] == 'l');
        assert(CANCEL_TASK@[7] == 't');
        assert(CANCEL_TASK@[7] == 't');
        assert(CANCEL_TASK@[8] == 'a');
        assert(CANCEL_TASK@[9] == 's');
    }
    assert forall|i: int| 0 <= i < PAUSE_TASK@.len() - 1 implies !doubled(PAUSE_TASK@, i) by {
        assert(PAUSE_TASK@.len() == 10);
        assert(PAUSE_TASK@[0] == 'p');
        assert(PAUSE_TASK@[1] == 'a');
        assert(PAUSE_TASK@[2] == 'u');
        assert(PAUSE_TASK@[3] == 's');
        assert(PAUSE_TASK@[4] == 'e');
        assert(PAUSE_TASK@[6] == 't');
        assert(PAUSE_TASK@[6] == 't');
        assert(PAUSE_TASK@[7] == 'a');
        assert(PAUSE_TASK@[8] == 's');
    }
    assert forall|i: int| 0 <= i < RESUME_TASK@.len() - 1 implies !doubled(RESUME_TASK@, i) by {
        assert(RESUME_TASK@.len() == 11);
        assert(RESUME_TASK@[0] == 'r');
        assert(RESUME_TASK@[1] == 'e');
        assert(RESUME_TASK@[2] == 's');
        assert(RESUME_TASK@[3] == 'u');
        assert(RESUME_TASK@[4] == 'm');
        assert(RESUME_TASK@[5] == 'e');
        assert(RESUME_TASK@[7] == 't');
        assert(RESUME_TASK@[7] == 't');
        assert(RESUME_TASK@[8] == 'a');
        assert(RESUME_TASK@[9] == 's');
    }
    assert forall|i: int| 0 <= i < SEND_TO_AGENT@.len() - 1 implies !doubled(SEND_TO_AGENT@, i) by {
        assert(SEND_TO_AGENT@.len() == 13);
        assert(SEND_TO_AGENT@[0] == 's');
        assert(SEND_TO_AGENT@[1] == 'e');
        assert(SEND_TO_AGENT@[2] == 'n');
        assert(SEND_TO_AGENT@[3] == 'd');
        assert(SEND_TO_AGENT@[5] == 't');
        assert(SEND_TO_AGENT@[5] == 't');
        assert(SEND_TO_AGENT@[6] == 'o');
        assert(SEND_TO_AGENT@[8] == 'a');
        assert(SEND_TO_AGENT@[8] == 'a');
        assert(SEND_TO_AGENT@[9] == 'g');
        assert(SEND_TO_AGENT@[10] == 'e');
        assert(SEND_TO_AGENT@[11] == 'n');
    }
    assert forall|i: int| 0 <= i < ASK_USER_QUESTION@.len() - 1 implies !doubled(ASK_USER_QUESTION@, i) by {
        assert(ASK_USER_QUESTION@.len() == 17);
        assert(ASK_USER_QUESTION@[0] == 'a');
        assert(ASK_USER_QUESTION@[1] == 's');
        assert(ASK_USER_QUESTION@[2] == 'k');
        assert(ASK_USER_QUESTION@[4] == 'u');
        assert(ASK_USER_QUESTION@[4] == 'u');
        assert(ASK_USER_QUESTION@[5] == 's');
        assert(ASK_USER_QUESTION@[6] == 'e');
        assert(ASK_USER_QUESTION@[7] == 'r');
        assert(ASK_USER_QUESTION@[9] == 'q');
        assert(ASK_USER_QUESTION@[9] == 'q');
        assert(ASK_USER_QUESTION@[10] == 'u');
        assert(ASK_USER_QUESTION@[11] == 'e');
        assert(ASK_USER_QUESTION@[12] == 's');
        assert(ASK_USER_QUESTION@[13] == 't');
        assert(ASK_USER_QUESTION@[14] == 'i');
        assert(ASK_USER_QUESTION@[15] == 'o');
    }
    assert forall|i: int| 0 <= i < BASH@.len() - 1 implies !doubled(BASH@, i) by {
        assert(BASH@.len() == 4);
        assert(BASH@[0] == 'b');
        assert(BASH@[1] == 'a');
        assert(BASH@[2] == 's');
    }
    assert forall|i: int| 0 <= i < READ@.len() - 1 implies !doubled(READ@, i) by {
        assert(READ@.len() == 4);
        assert(READ@[0] == 'r');
        assert(READ@[1] == 'e');
        assert(READ@[2] == 'a');
    }
    assert forall|i: int| 0 <= i < WRITE@.len() - 1 implies !doubled(WRITE@, i) by {
        assert(WRITE@.len() == 5);
        assert(WRITE@[0] == 'w');
        assert(WRITE@[1] == 'r');
        assert(WRITE@[2] == 'i');
        assert(WRITE@[3] == 't');
    }
    assert forall|i: int| 0 <= i < EDIT@.len() - 1 implies !doubled(EDIT@, i) by {
        assert(EDIT@.len() == 4);
        assert(EDIT@[0] == 'e');
        assert(EDIT@[1] == 'd');
        assert(EDIT@[2] == 'i');
    }
}

/// The tools of a server cannot be taken for tools of the agent itself: their
/// names differ.
pub proof fn names_never_collide(server: Seq<char>, tool: Seq<char>)
    ensures
        !takes_arguments(mcp::qualified(server, tool)),
        mcp::qualified(server, tool) != LIST_TASKS@,
{
    let name = mcp::qualified(server, tool);
    reveal_strlit("__");
    lemma_no_name_is_doubled();
    let n = server.len() as int;
    assert(name[n] == '_' && name[n + 1] == '_');
    assert(doubled(name, n));
}

proof fn lemma_names_differ()
    ensures
        forall|i: int|
            0 <= i < messaging_table().len() ==> !coder_only((#[trigger] messaging_table()[i]).name),
        !coder_only(ADMIN@),
{
    reveal_strlit("admin");
    reveal_strlit("send_message");
    reveal_strlit("schedule_task");
    reveal_strlit("list_tasks");
    reveal_strlit("cancel_task");
    reveal_strlit("pause_task");
    reveal_strlit("resume_task");
    reveal_strlit("send_to_agent");
    reveal_strlit("ask_user_question");
    reveal_strlit("bash");
    reveal_strlit("read");
    reveal_strlit("write");
    reveal_strlit("edit");
    assert("admin"@.len() == 5);
    assert("send_message"@.len() == 12);
    assert("schedule_task"@.len() == 13);
    assert("list_tasks"@.len() == 10);
    assert("cancel_task"@.len() == 11);
    assert("pause_task"@.len() == 10);
    assert("resume_task"@.len() == 11);
    assert("send_to_agent"@.len() == 13);
    assert("ask_user_question"@.len() == 17);
    assert("bash"@.len() == 4);
    assert("read"@.len() == 4);
    assert("write"@.len() == 5);
    assert("edit"@.len() == 4);
    assert("admin"@[0] != "write"@[0]);
    assert("schedule_task"@[1] != "send_to_agent"@[1]);
    assert("list_tasks"@[0] != "pause_task"@[0]);
    assert("cancel_task"@[0] != "resume_task"@[0]);
    assert("bash"@[0] != "read"@[0]);
    assert("bash"@[0] != "edit"@[0]);
    assert("read"@[0] != "edit"@[0]);
}

/// A coding agent is offered the shell and files besides all else, and no other
/// agent is.
pub proof fn only_coding_agents_are_offered_execution(admin_enabled: bool)
    ensures
        forall|i: int|
            0 <= i < surface(ToolProfile::Chat, admin_enabled, None).len() ==> !coder_only(
                (#[trigger] surface(ToolProfile::Chat, admin_enabled, None)[i]).name,
            ),
        forall|i: int|
            0 <= i < coder_table().len() ==> surface(
                ToolProfile::Coder,
                admin_enabled,
                None,
            ).contains(definition_of(#[trigger] coder_table()[i])),
        forall|i: int|
            0 <= i < messaging_table().len() ==> surface(
                ToolProfile::Coder,
                admin_enabled,
                None,
            ).contains(definition_of(#[trigger] messaging_table()[i])),
{
    lemma_names_differ();
    let chat = surface(ToolProfile::Chat, admin_enabled, None);
    assert forall|i: int| 0 <= i < chat.len() implies !coder_only((#[trigger] chat[i]).name) by {
        if i < messaging_table().len() {
            assert(chat[i] == definition_of(messaging_table()[i]));
        } else {
            assert(chat[i] == definition_of(admin_table()[0]));
        }
    }
    let coder = surface(ToolProfile::Coder, admin_enabled, None);
    let m = messaging_table().len() as int;
    assert forall|i: int| 0 <= i < coder_table().len() implies coder.contains(
        definition_of(#[trigger] coder_table()[i]),
    ) by {
        assert(coder[m + i] == definition_of(coder_table()[i]));
    }
    assert forall|i: int| 0 <= i < m implies coder.contains(
        definition_of(#[trigger] messaging_table()[i]),
    ) by {
        assert(coder[i] == definition_of(messaging_table()[i]));
    }
}

proof fn lemma_names_are_apart()
    ensures
        seq![
            ADMIN@,
            BASH@,
            READ@,
            WRITE@,
            EDIT@,
            SEND_MESSAGE@,
            SCHEDULE_TASK@,
            LIST_TASKS@,
            CANCEL_TASK@,
            PAUSE_TASK@,
            RESUME_TASK@,
            SEND_TO_AGENT@,
            ASK_USER_QUESTION@,
        ].no_duplicates(),
{
    reveal_strlit("admin");
    reveal_strlit("send_message");
    reveal_strlit("schedule_task");
    reveal_strlit("list_tasks");
    reveal_strlit("cancel_task");
    reveal_strlit("pause_task");
    reveal_strlit("resume_task");
    reveal_strlit("send_to_agent");
    reveal_strlit("ask_user_question");
    reveal_strlit("bash");
    reveal_strlit("read");
    reveal_strlit("write");
    reveal_strlit("edit");
    assert("admin"@.len() == 5);
    assert("send_message"@.len() == 12);
    assert("schedule_task"@.len() == 13);
    assert("list_tasks"@.len() == 10);
    assert("cancel_task"@.len() == 11);
    assert("pause_task"@.len() == 10);
    assert("resume_task"@.len() == 11);
    assert("send_to_agent"@.len() == 13);
    assert("ask_user_question"@.len() == 17);
    assert("bash"@.len() == 4);
    assert("read"@.len() == 4);
    assert("write"@.len() == 5);
    assert("edit"@.len() == 4);
    assert("admin"@[0] != "write"@[0]);
    assert("schedule_task"@[1] != "send_to_agent"@[1]);
    assert("list_tasks"@[0] != "pause_task"@[0]);
    assert("cancel_task"@[0] != "resume_task"@[0]);
    assert("bash"@[0] != "read"@[0]);
    assert("bash"@[0] != "edit"@[0]);
    assert("read"@[0] != "edit"@[0]);
}

proof fn lemma_own_tools_are_no_server_tools(ctx: ContextView, name: Seq<char>)
    requires
        takes_arguments(name) || name == LIST_TASKS@,
    ensures
        server_tool(ctx, name) is None,
{
    lemma_no_name_is_doubled();
    reveal_strlit("__");
    assert forall|i: int| !text::at(name, "__"@, i) by {
        if text::at(name, "__"@, i) {
            let two = name.subrange(i, i + 2);
            assert(two[0] == '_' && two[1] == '_');
            assert(doubled(name, i));
        }
    }
}

/// The value that an optional text is given as: a text, or nothing.
pub open spec fn given_as(given: Option<JsonView>, wanted: Option<Seq<char>>) -> bool {
    match wanted {
        Some(t) => given == Some(JsonView::Text(t)),
        None => given is None || given == Some(JsonView::Null),
    }
}

/// A task is scheduled as it was asked for: with its prompt, at its time and with
/// its recurrence, each word for word.
pub proof fn tasks_are_scheduled_as_asked(
    ctx: ContextView,
    arguments: Seq<char>,
    ulid: Seq<char>,
    fields: Fields,
    prompt: Seq<char>,
    process_after: Option<Seq<char>>,
    recurrence: Option<Seq<char>>,
)
    requires
        json::parsed(arguments) == Ok::<JsonView, Seq<char>>(JsonView::Object(fields)),
        json::lookup(fields, "prompt"@) == Some(JsonView::Text(prompt)),
        given_as(json::lookup(fields, "process_after"@), process_after),
        given_as(json::lookup(fields, "recurrence"@), recurrence),
    ensures
        ({
            let plan = plan_of(ctx, SCHEDULE_TASK@, arguments, ulid);
            &&& (recurrence matches Some(expr) ==> cron::meaning(expr) is Ok) ==> plan == (
            PlanView::Schedule { prompt, process_after, recurrence })
            &&& recurrence matches Some(expr) ==> cron::meaning(expr) is Err ==> (
            plan matches PlanView::Answer(told) && !told.produced_message && text::at(
                told.result,
                "error: "@,
                0,
            ))
        }),
{
    lemma_names_are_apart();
    lemma_own_tools_are_no_server_tools(ctx, SCHEDULE_TASK@);
    lemma_distinct_names();
    if let Some(expr) = recurrence {
        if let Err(reason) = cron::meaning(expr) {
            let told = "error: "@ + ("invalid cron expression "@ + text::quoted(expr) + ": "@
                + reason);
            assert(told.subrange(0, "error: "@.len() as int) =~= "error: "@);
        }
    }
}

proof fn lemma_distinct_names()
    ensures
        SCHEDULE_TASK@ != ADMIN@,
        SCHEDULE_TASK@ != SEND_MESSAGE@,
        SCHEDULE_TASK@ != LIST_TASKS@,
        SEND_MESSAGE@ != ADMIN@,
        SEND_MESSAGE@ != LIST_TASKS@,
        ADMIN@ != LIST_TASKS@,
        SEND_TO_AGENT@ != ADMIN@,
        SEND_TO_AGENT@ != SEND_MESSAGE@,
        SEND_TO_AGENT@ != SCHEDULE_TASK@,
        SEND_TO_AGENT@ != LIST_TASKS@,
        !names_a_task(SEND_TO_AGENT@),
        ASK_USER_QUESTION@ != ADMIN@,
        ASK_USER_QUESTION@ != SEND_MESSAGE@,
        ASK_USER_QUESTION@ != SCHEDULE_TASK@,
        ASK_USER_QUESTION@ != LIST_TASKS@,
        ASK_USER_QUESTION@ != SEND_TO_AGENT@,
        !names_a_task(ASK_USER_QUESTION@),
        forall|name: Seq<char>|
            coder_only(name) ==> name != ADMIN@ && name != SEND_MESSAGE@ && name != SCHEDULE_TASK@
                && name != LIST_TASKS@ && name != SEND_TO_AGENT@ && name != ASK_USER_QUESTION@
                && !names_a_task(name),
        forall|name: Seq<char>|
            names_a_task(name) ==> name != ADMIN@ && name != SEND_MESSAGE@ && name != SCHEDULE_TASK@
                && name != LIST_TASKS@ && !coder_only(name),
        BASH@ != READ@ && BASH@ != WRITE@ && BASH@ != EDIT@,
        READ@ != WRITE@ && READ@ != EDIT@ && WRITE@ != EDIT@,
        CANCEL_TASK@ != PAUSE_TASK@ && CANCEL_TASK@ != RESUME_TASK@ && PAUSE_TASK@ != RESUME_TASK@,
{
    lemma_names_are_apart();
    let names = seq![
        ADMIN@,
        BASH@,
        READ@,
        WRITE@,
        EDIT@,
        SEND_MESSAGE@,
        SCHEDULE_TASK@,
        LIST_TASKS@,
        CANCEL_TASK@,
        PAUSE_TASK@,
        RESUME_TASK@,
        SEND_TO_AGENT@,
        ASK_USER_QUESTION@,
    ];
    assert(names[0] == ADMIN@ && names[1] == BASH@ && names[2] == READ@ && names[3] == WRITE@
        && names[4] == EDIT@ && names[5] == SEND_MESSAGE@ && names[6] == SCHEDULE_TASK@ && names[7]
        == LIST_TASKS@ && names[8] == CANCEL_TASK@ && names[9] == PAUSE_TASK@ && names[10]
        == RESUME_TASK@ && names[11] == SEND_TO_AGENT@ && names[12] == ASK_USER_QUESTION@);
}

/// A coding agent's calls do with files and the shell what they name: the command,
/// the path and the texts are those of the call, each in its place.
pub proof fn file_tools_do_what_they_name(
    ctx: ContextView,
    arguments: Seq<char>,
    ulid: Seq<char>,
    fields: Fields,
    first: Seq<char>,
    second: Seq<char>,
    third: Seq<char>,
)
    requires
        ctx.profile == ToolProfile::Coder,
        json::parsed(arguments) == Ok::<JsonView, Seq<char>>(JsonView::Object(fields)),
    ensures
        json::lookup(fields, "command"@) == Some(JsonView::Text(first)) ==> plan_of(
            ctx,
            BASH@,
            arguments,
            ulid,
        ) == (PlanView::Bash { command: first }),
        json::lookup(fields, "path"@) == Some(JsonView::Text(first)) && json::lookup(
            fields,
            "content"@,
        ) == Some(JsonView::Text(second)) ==> plan_of(ctx, WRITE@, arguments, ulid) == (
        PlanView::Write { path: first, content: second }),
        json::lookup(fields, "path"@) == Some(JsonView::Text(first)) && json::lookup(
            fields,
            "old_string"@,
        ) == Some(JsonView::Text(second)) && json::lookup(fields, "new_string"@) == Some(
            JsonView::Text(third),
        ) ==> plan_of(ctx, EDIT@, arguments, ulid) == (PlanView::Edit {
            path: first,
            old_string: second,
            new_string: third,
        }),
{
    let args = JsonView::Object(fields);
    lemma_distinct_names();
    assert(coder_only(BASH@) && coder_only(WRITE@) && coder_only(EDIT@));
    lemma_own_calls_are_planned(ctx, BASH@, arguments, ulid, args);
    lemma_own_calls_are_planned(ctx, WRITE@, arguments, ulid, args);
    lemma_own_calls_are_planned(ctx, EDIT@, arguments, ulid, args);
    lemma_coders_plans(args, ulid);
}

proof fn lemma_own_calls_are_planned(
    ctx: ContextView,
    name: Seq<char>,
    arguments: Seq<char>,
    ulid: Seq<char>,
    args: JsonView,
)
    requires
        takes_arguments(name),
        coder_only(name) ==> ctx.profile == ToolProfile::Coder,
        name == ADMIN@ ==> ctx.admin_enabled,
        json::parsed(arguments) == Ok::<JsonView, Seq<char>>(args),
    ensures
        plan_of(ctx, name, arguments, ulid) == own_plan(name, args, ulid),
{
    lemma_own_tools_are_no_server_tools(ctx, name);
    lemma_distinct_names();
}

proof fn lemma_coders_plans(args: JsonView, ulid: Seq<char>)
    ensures
        own_plan(BASH@, args, ulid) == bash_plan(args),
        own_plan(READ@, args, ulid) == read_plan(args),
        own_plan(WRITE@, args, ulid) == write_plan(args),
        own_plan(EDIT@, args, ulid) == edit_plan(args),
{
    lemma_distinct_names();
    assert(coder_only(BASH@) && coder_only(READ@) && coder_only(WRITE@) && coder_only(EDIT@));
}

/// A file is read from the line and for the number of lines that the call names.
pub proof fn files_are_read_where_they_are_asked_for(
    ctx: ContextView,
    arguments: Seq<char>,
    ulid: Seq<char>,
    fields: Fields,
    path: Seq<char>,
    offset: Option<usize>,
    limit: Option<usize>,
)
    requires
        ctx.profile == ToolProfile::Coder,
        json::parsed(arguments) == Ok::<JsonView, Seq<char>>(JsonView::Object(fields)),
        json::lookup(fields, "path"@) == Some(JsonView::Text(path)),
        offset matches Some(n) ==> json::lookup(fields, "offset"@) == Some(
            JsonView::Number(text::decimal(n as int)),
        ),
        offset is None ==> json::lookup(fields, "offset"@) is None,
        limit matches Some(n) ==> json::lookup(fields, "limit"@) == Some(
            JsonView::Number(text::decimal(n as int)),
        ),
        limit is None ==> json::lookup(fields, "limit"@) is None,
    ensures
        plan_of(ctx, READ@, arguments, ulid) == (PlanView::Read { path, offset, limit }),
{
    lemma_distinct_names();
    assert(coder_only(READ@));
    lemma_own_calls_are_planned(ctx, READ@, arguments, ulid, JsonView::Object(fields));
    lemma_coders_plans(JsonView::Object(fields), ulid);
    if let Some(n) = offset {
        text::decimals_read_as_their_number(n as int, usize::MAX as int);
    }
    if let Some(n) = limit {
        text::decimals_read_as_their_number(n as int, usize::MAX as int);
    }
}

/// A message that the model sends to the user says what the call says, with no
/// address of its own, and counts as an answer; one to another agent goes to that
/// agent and does not.
pub proof fn messages_say_what_the_call_says(
    ctx: ContextView,
    arguments: Seq<char>,
    ulid: Seq<char>,
    fields: Fields,
    said: Seq<char>,
    agent: Seq<char>,
)
    requires
        json::parsed(arguments) == Ok::<JsonView, Seq<char>>(JsonView::Object(fields)),
        json::lookup(fields, "text"@) == Some(JsonView::Text(said)),
    ensures
        plan_of(ctx, SEND_MESSAGE@, arguments, ulid) matches PlanView::Send { message, sent } && {
            &&& message.kind == "chat"@
            &&& message.content == json::encoded(
                JsonView::Object(seq![("text"@, JsonView::Text(said))]),
            )
            &&& message.routing.channel_type is None
            &&& message.routing.platform_id is None
            &&& message.routing.thread_id is None
            &&& message.in_reply_to is None
            &&& sent.produced_message
        },
        json::lookup(fields, "agent_group"@) == Some(JsonView::Text(agent)) ==> (plan_of(
            ctx,
            SEND_TO_AGENT@,
            arguments,
            ulid,
        ) matches PlanView::Send { message, sent } && {
            &&& message.kind == "chat"@
            &&& message.content == json::encoded(
                JsonView::Object(seq![("text"@, JsonView::Text(said))]),
            )
            &&& message.routing.channel_type == Some("agent"@)
            &&& message.routing.platform_id == Some(agent)
            &&& message.routing.thread_id is None
            &&& message.in_reply_to is None
            &&& !sent.produced_message
        }),
{
    lemma_distinct_names();
    lemma_own_tools_are_no_server_tools(ctx, SEND_MESSAGE@);
    lemma_own_tools_are_no_server_tools(ctx, SEND_TO_AGENT@);
    let value = content::outbound_value(content::text_content(said));
    assert(value->Object_0 =~= seq![("text"@, JsonView::Text(said))]);
}

/// A question is asked as it was put: with all its options in their order, under an
/// identifier that the model is told.
pub proof fn questions_are_asked_as_put(
    ctx: ContextView,
    arguments: Seq<char>,
    ulid: Seq<char>,
    fields: Fields,
    asked: Seq<char>,
    options: Seq<Seq<char>>,
)
    requires
        json::parsed(arguments) == Ok::<JsonView, Seq<char>>(JsonView::Object(fields)),
        json::lookup(fields, "question"@) == Some(JsonView::Text(asked)),
        json::lookup(fields, "options"@) == Some(json::texts_value(options)),
    ensures
        options.len() >= 2 ==> (plan_of(ctx, ASK_USER_QUESTION@, arguments, ulid) matches
            PlanView::Send { message, sent } && {
            let id = "q-"@ + text::lowercase(ulid);
            &&& sent.produced_message
            &&& text::within(sent.result, id)
            &&& message.kind == "chat"@
            &&& message.routing == content::open_routing()
            &&& message.content == json::encoded(
                content::outbound_value(
                    OutboundView {
                        text: Some(asked + " ("@ + text::joined(options, " / "@) + ")"@),
                        files: Seq::empty(),
                        operation: Some(
                            OperationView::AskQuestion {
                                question_id: id,
                                title: asked,
                                question: asked,
                                options,
                            },
                        ),
                        extra: Seq::empty(),
                    },
                ),
            )
        }),
        options.len() < 2 ==> (plan_of(ctx, ASK_USER_QUESTION@, arguments, ulid) matches
            PlanView::Answer(told) && !told.produced_message),
{
    lemma_distinct_names();
    lemma_own_tools_are_no_server_tools(ctx, ASK_USER_QUESTION@);
    let list = json::texts_value(options)->List_0;
    assert forall|i: int| 0 <= i < list.len() implies (#[trigger] list[i]) is Text by {}
    assert(Seq::new(list.len(), |i: int| list[i]->Text_0) =~= options);
    reveal_strlit("q");
    reveal_strlit("-");
    reveal_strlit("q-");
    let id = "q-"@ + text::lowercase(ulid);
    assert("q-"@ =~= "q"@ + "-"@);
    assert(db::id_text("q"@, ulid) =~= id);
    let told = "asked the user (question "@ + id + "); their choice will arrive as a new message"@;
    let from = "asked the user (question "@.len() as int;
    assert(told.subrange(from, from + id.len()) =~= id);
    assert(text::at(told, id, from));
}

/// A task is cancelled, paused or resumed by its own series, and by no other name
/// of a tool.
pub proof fn tasks_are_changed_by_their_series(
    ctx: ContextView,
    arguments: Seq<char>,
    ulid: Seq<char>,
    fields: Fields,
    series: Seq<char>,
)
    requires
        json::parsed(arguments) == Ok::<JsonView, Seq<char>>(JsonView::Object(fields)),
        json::lookup(fields, "series"@) == Some(JsonView::Text(series)),
    ensures
        plan_of(ctx, CANCEL_TASK@, arguments, ulid) == (PlanView::Cancel { series }),
        plan_of(ctx, PAUSE_TASK@, arguments, ulid) == (PlanView::SetPaused { series, paused: true }),
        plan_of(ctx, RESUME_TASK@, arguments, ulid) == (PlanView::SetPaused {
            series,
            paused: false,
        }),
        plan_of(ctx, LIST_TASKS@, arguments, ulid) == PlanView::ListTasks,
{
    lemma_distinct_names();
    lemma_own_tools_are_no_server_tools(ctx, CANCEL_TASK@);
    lemma_own_tools_are_no_server_tools(ctx, PAUSE_TASK@);
    lemma_own_tools_are_no_server_tools(ctx, RESUME_TASK@);
    lemma_own_tools_are_no_server_tools(ctx, LIST_TASKS@);
}

/// An admin command is run as it was called: its name and its arguments go to the
/// dispatcher unchanged.
pub proof fn admin_commands_run_as_called(
    ctx: ContextView,
    arguments: Seq<char>,
    ulid: Seq<char>,
    fields: Fields,
    command: Seq<char>,
    args: Fields,
)
    requires
        ctx.admin_enabled,
        json::parsed(arguments) == Ok::<JsonView, Seq<char>>(JsonView::Object(fields)),
        json::lookup(fields, "command"@) == Some(JsonView::Text(command)),
    ensures
        json::lookup(fields, "args"@) == Some(JsonView::Object(args)) ==> (plan_of(
            ctx,
            ADMIN@,
            arguments,
            ulid,
        ) matches PlanView::Admin(request) && request.command == command && request.args == args),
        json::lookup(fields, "args"@) is None ==> (plan_of(ctx, ADMIN@, arguments, ulid) matches
            PlanView::Admin(request) && request.command == command && request.args.len() == 0),
{
    lemma_distinct_names();
    lemma_own_tools_are_no_server_tools(ctx, ADMIN@);
}

/// A tool of the connected server is called by its own name, with the arguments as
/// they are.
pub proof fn server_tools_get_their_arguments(
    ctx: ContextView,
    server: Seq<char>,
    tool: Seq<char>,
    arguments: Seq<char>,
    ulid: Seq<char>,
)
    requires
        ctx.server == Some(server),
        !text::within(server + "_"@, "__"@),
    ensures
        json::parsed(arguments) matches Ok(value) ==> plan_of(
            ctx,
            mcp::qualified(server, tool),
            arguments,
            ulid,
        ) == (PlanView::Server { tool, arguments: value }),
        json::parsed(arguments) is Err ==> plan_of(
            ctx,
            mcp::qualified(server, tool),
            arguments,
            ulid,
        ) == (PlanView::Server { tool, arguments: JsonView::Object(Seq::empty()) }),
{
    mcp::qualified_names_read_back(server, tool);
    names_never_collide(server, tool);
}

/// Arguments that are no JSON, or lack what the tool needs, do nothing: the model is
/// told what is wrong.
pub proof fn bad_arguments_do_nothing(
    ctx: ContextView,
    name: Seq<char>,
    arguments: Seq<char>,
    ulid: Seq<char>,
)
    requires
        takes_arguments(name),
    ensures
        json::parsed(arguments) is Err ==> (plan_of(ctx, name, arguments, ulid) matches
            PlanView::Answer(told) && !told.produced_message),
        json::parsed(arguments) == Ok::<JsonView, Seq<char>>(JsonView::Object(Seq::empty())) ==> (
        plan_of(ctx, name, arguments, ulid) matches PlanView::Answer(told)
            && !told.produced_message),
{
    lemma_own_tools_are_no_server_tools(ctx, name);
    lemma_distinct_names();
}

/// A command that is held is put to the owner as it was: the card carries the command
/// and its arguments, and the model is told under which identifier.
pub proof fn held_commands_are_put_to_the_owner(
    response: ResponseView,
    fields: Fields,
    command: Seq<char>,
    args: Fields,
    ulid: Seq<char>,
)
    requires
        response.error matches Some(error) && error.code == ErrorCode::ApprovalPending,
        response.data == Some(JsonView::Object(fields)),
        json::lookup(fields, "command"@) == Some(JsonView::Text(command)),
        json::lookup(fields, "args"@) == Some(JsonView::Object(args)),
    ensures
        admin_answer(response, ulid) matches PlanView::Send { message, sent } && {
            let id = "ap-"@ + text::lowercase(ulid);
            &&& sent.produced_message
            &&& text::within(sent.result, id)
            &&& message.routing == content::open_routing()
            &&& exists|said: OutboundView|
                message.content == json::encoded(#[trigger] content::outbound_value(said)) && (
                said.operation matches Some(
                    OperationView::Approval { approval_id, command: c, args: a, summary },
                ) && approval_id == id && c == command && a == args && text::within(
                    summary,
                    command,
                ))
        },
{
    reveal_strlit("ap");
    reveal_strlit("-");
    reveal_strlit("ap-");
    let id = "ap-"@ + text::lowercase(ulid);
    assert("ap-"@ =~= "ap"@ + "-"@);
    assert(db::id_text("ap"@, ulid) =~= id);
    let told = "submitted for owner approval ("@ + id + "); the outcome will arrive as a message"@;
    let from = "submitted for owner approval ("@.len() as int;
    assert(told.subrange(from, from + id.len()) =~= id);
    assert(text::at(told, id, from));
    let summary = "run `"@ + command + "`"@ + args_summary(args);
    let there = "run `"@.len() as int;
    assert(summary.subrange(there, there + command.len()) =~= command);
    assert(text::at(summary, command, there));
    let said = OutboundView {
        text: Some("Requested owner approval to "@ + summary + "."@),
        files: Seq::empty(),
        operation: Some(OperationView::Approval { approval_id: id, command, args, summary }),
        extra: Seq::empty(),
    };
    assert(admin_answer(response, ulid)->Send_message.content == json::encoded(
        content::outbound_value(said),
    ));
}

/// A command that ran is reported: its data where it worked, its code and message
/// where it did not.
pub proof fn commands_are_reported(response: ResponseView, ulid: Seq<char>)
    requires
        !(response.error matches Some(error) && error.code == ErrorCode::ApprovalPending),
    ensures
        admin_answer(response, ulid) matches PlanView::Answer(told) && {
            &&& !told.produced_message
            &&& response.ok ==> (response.data matches Some(data) ==> told.result == "ok: "@
                + json::encoded(data))
            &&& !response.ok ==> (response.error matches Some(error) ==> told.result == "error: "@
                + error.code.text() + ": "@ + error.message)
        },
{
}

/// The list of tasks has a line for each, in their order, which names the series and
/// the prompt, and says when the task runs and whether it is paused.
pub proof fn every_task_is_listed(tasks: Seq<ScheduledTaskView>, i: int)
    requires
        0 <= i < tasks.len(),
    ensures
        ({
            let t = tasks[i];
            let line = "- "@ + t.series + " — "@ + t.prompt + " — "@ + (match t.recurrence {
                Some(expr) => "recurring ["@ + expr + "]"@,
                None => match t.process_after {
                    Some(at) => "once at "@ + at,
                    None => "as soon as possible"@,
                },
            }) + (if t.paused {
                " (paused)"@
            } else {
                Seq::empty()
            });
            &&& text::within(tasks_text(tasks), line)
            &&& tasks.len() == 1 ==> tasks_text(tasks) == line
        }),
{
    let lines = tasks.map_values(|t: ScheduledTaskView| task_line(t));
    let t = tasks[i];
    let line = "- "@ + t.series + " — "@ + t.prompt + " — "@ + (match t.recurrence {
        Some(expr) => "recurring ["@ + expr + "]"@,
        None => match t.process_after {
            Some(at) => "once at "@ + at,
            None => "as soon as possible"@,
        },
    }) + (if t.paused {
        " (paused)"@
    } else {
        Seq::empty()
    });
    assert(task_line(t) =~= line);
    assert(lines[i] == line);
    text::every_part_is_joined(lines, "\n"@, i);
}

/// One task more is one line more, behind the others.
pub proof fn a_further_task_is_listed_last(
    tasks: Seq<ScheduledTaskView>,
    task: ScheduledTaskView,
)
    requires
        tasks.len() > 0,
    ensures
        tasks_text(tasks.push(task)) == tasks_text(tasks) + "\n"@ + tasks_text(seq![task]),
{
    let lines = tasks.map_values(|t: ScheduledTaskView| task_line(t));
    assert(tasks.push(task).map_values(|t: ScheduledTaskView| task_line(t)) =~= lines.push(
        task_line(task),
    ));
    text::one_more_part_is_joined(lines, task_line(task), "\n"@);
    assert(seq![task].map_values(|t: ScheduledTaskView| task_line(t)) =~= seq![task_line(task)]);
}

/// Each argument of a tool is described under its name, with its kind and what it is
/// for, and the schema is that of an object.
pub proof fn arguments_are_described_by_name(params: Seq<ParamView>, i: int)
    requires
        0 <= i < params.len(),
        forall|k: int| i < k < params.len() ==> (#[trigger] params[k]).name != params[i].name,
    ensures
        schema_of(params) matches JsonView::Object(schema) && ({
            &&& json::lookup(schema, "type"@) == Some(JsonView::Text("object"@))
            &&& json::lookup(schema, "properties"@) matches Some(JsonView::Object(properties))
                && json::lookup(properties, params[i].name) matches Some(
                JsonView::Object(property),
            ) && ({
                let kind = json::lookup(property, "type"@);
                &&& params[i].kind == ParamKind::Text ==> kind == Some(JsonView::Text("string"@))
                &&& params[i].kind == ParamKind::Integer ==> kind == Some(
                    JsonView::Text("integer"@),
                )
                &&& params[i].kind == ParamKind::Texts ==> kind == Some(JsonView::Text("array"@))
                &&& params[i].kind == ParamKind::Object ==> kind == Some(JsonView::Text("object"@))
                &&& params[i].description is Some ==> json::lookup(property, "description"@)
                    == Some(JsonView::Text(params[i].description->0))
            })
        }),
{
    broadcast use {json::lemma_lookup_with, json::lemma_lookup_empty};

    reveal_strlit("properties");
    reveal_strlit("required");
    reveal_strlit("type");
    reveal_strlit("description");
    reveal_strlit("items");
    assert("properties"@.len() == 10 && "required"@.len() == 8 && "type"@.len() == 4
        && "description"@.len() == 11 && "items"@.len() == 5);
    lemma_property_found(params, i);
}

proof fn lemma_property_found(params: Seq<ParamView>, i: int)
    requires
        0 <= i < params.len(),
        forall|k: int| i < k < params.len() ==> (#[trigger] params[k]).name != params[i].name,
    ensures
        json::lookup(properties_of(params), params[i].name) == Some(property_of(params[i])),
    decreases params.len(),
{
    let last = params.last();
    let before = params.drop_last();
    json::putting_sets_one_key(
        properties_of(before),
        last.name,
        property_of(last),
        params[i].name,
    );
    if i < params.len() - 1 {
        assert(params[params.len() - 1].name != params[i].name);
        assert forall|k: int| i < k < before.len() implies (#[trigger] before[k]).name
            != before[i].name by {
            assert(before[k] == params[k]);
        }
        lemma_property_found(before, i);
    }
}

/// An argument is listed as required exactly where it must be given.
pub proof fn required_arguments_are_listed(params: Seq<ParamView>, name: Seq<char>)
    ensures
        required_of(params).contains(name) <==> exists|i: int|
            0 <= i < params.len() && (#[trigger] params[i]).required && params[i].name == name,
        required_of(params).len() > 0 ==> (schema_of(params) matches JsonView::Object(schema)
            && json::lookup(schema, "required"@) == Some(json::texts_value(required_of(params)))),
    decreases params.len(),
{
    broadcast use {json::lemma_lookup_with, json::lemma_lookup_empty};

    reveal_strlit("properties");
    reveal_strlit("required");
    assert("properties"@.len() == 10 && "required"@.len() == 8);
    if params.len() > 0 {
        let before = params.drop_last();
        let listed = required_of(before);
        required_arguments_are_listed(before, name);
        if params.last().required {
            assert(required_of(params)[listed.len() as int] == params.last().name);
            if listed.contains(name) {
                let k = choose|k: int| 0 <= k < listed.len() && listed[k] == name;
                assert(required_of(params)[k] == name);
            }
            if required_of(params).contains(name) && params.last().name != name {
                let k = choose|k: int|
                    0 <= k < required_of(params).len() && required_of(params)[k] == name;
                assert(listed[k] == name);
            }
            assert(params[params.len() - 1].required);
        }
        if exists|i: int|
            0 <= i < before.len() && (#[trigger] before[i]).required && before[i].name == name {
            let i = choose|i: int|
                0 <= i < before.len() && (#[trigger] before[i]).required && before[i].name == name;
            assert(params[i].required && params[i].name == name);
        }
        if exists|i: int|
            0 <= i < params.len() && (#[trigger] params[i]).required && params[i].name == name {
            let i = choose|i: int|
                0 <= i < params.len() && (#[trigger] params[i]).required && params[i].name == name;
            if i < before.len() {
                assert(before[i].required && before[i].name == name);
            }
        }
    }
}

/// A tool of a server is offered under a name that tells the server, with what the
/// server says of it.
pub proof fn server_tools_are_offered_as_listed(
    profile: ToolProfile,
    admin_enabled: bool,
    server: Seq<char>,
    tools: Seq<McpToolView>,
    i: int,
)
    requires
        0 <= i < tools.len(),
    ensures
        ({
            let own = surface(profile, admin_enabled, None);
            let all = surface(profile, admin_enabled, Some((server, tools)));
            let offered = all[own.len() + i];
            &&& all.len() == own.len() + tools.len()
            &&& offered.name == server + "__"@ + tools[i].name
            &&& offered.description == tools[i].description
            &&& tools[i].input_schema != JsonView::Null ==> offered.parameters
                == tools[i].input_schema
        }),
{
}

/// Everyone is offered the tools for messages, coding agents those for files and the
/// shell as well, and those that may run admin commands the tool for them.
pub proof fn tools_are_offered_by_profile(profile: ToolProfile, admin_enabled: bool, i: int)
    ensures
        ({
            let all = surface(profile, admin_enabled, None);
            let said = messaging_table().len();
            let coded: nat = if profile == ToolProfile::Coder {
                coder_table().len()
            } else {
                0
            };
            let ruled: nat = if admin_enabled {
                admin_table().len()
            } else {
                0
            };
            &&& all.len() == said + coded + ruled
            &&& 0 <= i < said ==> all[i].name == messaging_table()[i].name
            &&& 0 <= i < coded ==> all[said + i].name == coder_table()[i].name
            &&& 0 <= i < ruled ==> all[said + coded + i].name == admin_table()[i].name
        }),
{
}

/// The owner is shown every argument of a command that waits, with its name and its
/// value.
pub proof fn summaries_show_every_argument(args: Fields, i: int)
    requires
        0 <= i < args.len(),
    ensures
        text::within(args_summary(args), args[i].0),
        args[i].1 matches JsonView::Text(value) ==> text::within(args_summary(args), value),
        !(args[i].1 is Text) ==> text::within(args_summary(args), json::encoded(args[i].1)),
{
    let parts = args_parts(args);
    let list = text::joined(parts, ", "@);
    let whole = args_summary(args);
    let value = match args[i].1 {
        JsonView::Text(s) => s,
        other => json::encoded(other),
    };
    text::every_part_is_joined(parts, ", "@, i);
    text::parts_stand_in_the_whole(whole, " ("@, list, ")"@);
    text::what_a_part_holds_the_whole_holds(whole, list, parts[i]);
    let part = args[i].0 + "="@ + value;
    assert(parts[i] == part);
    assert(part =~= seq![] + args[i].0 + ("="@ + value));
    text::parts_stand_in_the_whole(part, seq![], args[i].0, "="@ + value);
    assert(part =~= args[i].0 + "="@ + value + seq![]);
    text::parts_stand_in_the_whole(part, args[i].0 + "="@, value, seq![]);
    text::what_a_part_holds_the_whole_holds(whole, part, args[i].0);
    text::what_a_part_holds_the_whole_holds(whole, part, value);
}

/// Arguments that are given by place mean what they mean by name.
pub proof fn arguments_may_be_given_by_place(
    fields: Fields,
    items: Seq<JsonView>,
    name: Seq<char>,
    ulid: Seq<char>,
)
    requires
        items.len() >= 2,
    ensures
        items.len() == 2 && json::lookup(fields, "command"@) == Some(items[0]) && json::lookup(
            fields,
            "args"@,
        ) == Some(items[1]) ==> admin_plan(JsonView::List(items), ulid) == admin_plan(
            JsonView::Object(fields),
            ulid,
        ),
        json::lookup(fields, "command"@) == Some(items[0]) ==> bash_plan(
            JsonView::List(items.take(1)),
        ) == bash_plan(JsonView::Object(fields)),
        json::lookup(fields, "text"@) == Some(items[0]) ==> send_plan(
            JsonView::List(items.take(1)),
        ) == send_plan(JsonView::Object(fields)),
        json::lookup(fields, "series"@) == Some(items[0]) ==> series_plan(
            name,
            JsonView::List(items.take(1)),
        ) == series_plan(name, JsonView::Object(fields)),
        items.len() == 2 && json::lookup(fields, "path"@) == Some(items[0]) && json::lookup(
            fields,
            "content"@,
        ) == Some(items[1]) ==> write_plan(JsonView::List(items)) == write_plan(
            JsonView::Object(fields),
        ),
        items.len() == 2 && json::lookup(fields, "agent_group"@) == Some(items[0]) && json::lookup(
            fields,
            "text"@,
        ) == Some(items[1]) ==> delegate_plan(JsonView::List(items)) == delegate_plan(
            JsonView::Object(fields),
        ),
        items.len() == 2 && json::lookup(fields, "question"@) == Some(items[0]) && json::lookup(
            fields,
            "options"@,
        ) == Some(items[1]) ==> ask_plan(JsonView::List(items), ulid) == ask_plan(
            JsonView::Object(fields),
            ulid,
        ),
        items.len() == 3 && json::lookup(fields, "path"@) == Some(items[0]) && json::lookup(
            fields,
            "offset"@,
        ) == Some(items[1]) && json::lookup(fields, "limit"@) == Some(items[2]) ==> read_plan(
            JsonView::List(items),
        ) == read_plan(JsonView::Object(fields)),
        items.len() == 3 && json::lookup(fields, "path"@) == Some(items[0]) && json::lookup(
            fields,
            "old_string"@,
        ) == Some(items[1]) && json::lookup(fields, "new_string"@) == Some(items[2]) ==> edit_plan(
            JsonView::List(items),
        ) == edit_plan(JsonView::Object(fields)),
        items.len() == 3 && json::lookup(fields, "prompt"@) == Some(items[0]) && json::lookup(
            fields,
            "process_after"@,
        ) == Some(items[1]) && json::lookup(fields, "recurrence"@) == Some(items[2])
            ==> schedule_plan(JsonView::List(items)) == schedule_plan(JsonView::Object(fields)),
{
    assert(items.take(1)[0] == items[0]);
}

/// Arguments that are given by place, and are more than a tool takes, are refused.
pub proof fn surplus_arguments_are_refused(
    items: Seq<JsonView>,
    name: Seq<char>,
    ulid: Seq<char>,
)
    ensures
        items.len() > 1 ==> bash_plan(JsonView::List(items)) == bad_shape() && send_plan(
            JsonView::List(items),
        ) == bad_shape() && series_plan(name, JsonView::List(items)) == bad_shape(),
        items.len() > 2 ==> write_plan(JsonView::List(items)) == bad_shape() && delegate_plan(
            JsonView::List(items),
        ) == bad_shape() && ask_plan(JsonView::List(items), ulid) == bad_shape() && admin_plan(
            JsonView::List(items),
            ulid,
        ) == bad_shape(),
        items.len() > 3 ==> read_plan(JsonView::List(items)) == bad_shape() && edit_plan(
            JsonView::List(items),
        ) == bad_shape() && schedule_plan(JsonView::List(items)) == bad_shape(),
{
}

} // verus!
