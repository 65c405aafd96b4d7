//! The command table, and the way of a request through it: lookup, gate, and
//! what is left to run.

use vstd::prelude::*;

use crate::commands::connectors;
use crate::commands::gates;
use crate::commands::resources;
use crate::commands::resources::{Outcome, OutcomeView, Work, WorkView};
use crate::commands::CallerContext;
use crate::json;
use crate::json::{Fields, Json, JsonView};
use crate::protocol::entities::CliScope;
use crate::protocol::frame::{
    error_response, ok_response, ErrorCode, FrameError, FrameErrorView, RequestFrame, RequestView,
    ResponseFrame, ResponseView,
};
use crate::text;

verus! {

broadcast use vstd::string::group_string_axioms;

/// Whether an agent may run a command directly (`Open`), needs the owner's
/// approval (`Approval`), or cannot see it (`Hidden`).
#[derive(Debug, Clone, Copy, PartialEq, Eq, Structural)]
pub enum Access {
    Open,
    Approval,
    Hidden,
}

/// What values an argument takes.
#[derive(Debug, PartialEq, Eq)]
pub enum ArgKind {
    Text,
    Bool,
    Enum(Vec<&'static str>),
}

/// The mathematical value of an [`ArgKind`].
#[verifier::ext_equal]
pub enum ArgKindView {
    Text,
    Bool,
    Enum(Seq<Seq<char>>),
}

impl ArgKind {
    pub open spec fn view(&self) -> ArgKindView {
        match self {
            ArgKind::Text => ArgKindView::Text,
            ArgKind::Bool => ArgKindView::Bool,
            ArgKind::Enum(values) => ArgKindView::Enum(values@.map_values(|s: &'static str| s@)),
        }
    }
}

/// One argument of a command, for help texts and forms.
#[derive(Debug, PartialEq, Eq)]
pub struct ArgSpec {
    pub name: &'static str,
    pub label: &'static str,
    pub kind: ArgKind,
    pub required: bool,
}

/// The mathematical value of an [`ArgSpec`].
#[verifier::ext_equal]
pub struct ArgView {
    pub name: Seq<char>,
    pub label: Seq<char>,
    pub kind: ArgKindView,
    pub required: bool,
}

impl ArgSpec {
    pub open spec fn view(&self) -> ArgView {
        ArgView {
            name: self.name@,
            label: self.label@,
            kind: self.kind@,
            required: self.required,
        }
    }
}

/// What a command does.
#[derive(Debug, Clone, Copy, PartialEq, Eq, Structural)]
pub enum Action {
    EndpointsList,
    EndpointsCreate,
    EndpointsUpdate,
    EndpointsDelete,
    GroupsList,
    GroupsGet,
    GroupsCreate,
    GroupsUpdate,
    WiringsList,
    RolesList,
    RolesGrant,
    RolesRevoke,
    ConnectorsList,
    ConnectorsCreate,
    ConnectorsUpdate,
    ConnectorsDelete,
}

/// A command of the table.
#[derive(Debug, PartialEq, Eq)]
pub struct CommandDef {
    pub name: &'static str,
    pub summary: &'static str,
    pub resource: &'static str,
    pub access: Access,
    pub args: Vec<ArgSpec>,
    pub action: Action,
}

/// The mathematical value of a [`CommandDef`].
#[verifier::ext_equal]
pub struct CommandView {
    pub name: Seq<char>,
    pub summary: Seq<char>,
    pub resource: Seq<char>,
    pub access: Access,
    pub args: Seq<ArgView>,
    pub action: Action,
}

impl CommandDef {
    pub open spec fn view(&self) -> CommandView {
        CommandView {
            name: self.name@,
            summary: self.summary@,
            resource: self.resource@,
            access: self.access,
            args: self.args@.map_values(|a: ArgSpec| a@),
            action: self.action,
        }
    }
}

/// The mathematical values of a list of commands.
pub open spec fn defs_view(defs: Seq<CommandDef>) -> Seq<CommandView> {
    defs.map_values(|d: CommandDef| d@)
}

/// An argument that takes any text.
pub open spec fn text_arg_view(name: Seq<char>, label: Seq<char>, required: bool) -> ArgView {
    ArgView { name, label, kind: ArgKindView::Text, required }
}

/// An argument that takes one of some texts.
pub open spec fn enum_arg_view(
    name: Seq<char>,
    label: Seq<char>,
    values: Seq<Seq<char>>,
    required: bool,
) -> ArgView {
    ArgView { name, label, kind: ArgKindView::Enum(values), required }
}

/// An argument that takes any text.
pub fn text_arg(name: &'static str, label: &'static str, required: bool) -> (r: ArgSpec)
    ensures
        r@ == text_arg_view(name@, label@, required),
{
    ArgSpec { name, label, kind: ArgKind::Text, required }
}

/// An argument that takes one of some texts.
pub fn enum_arg(
    name: &'static str,
    label: &'static str,
    values: Vec<&'static str>,
    required: bool,
) -> (r: ArgSpec)
    ensures
        r@ == enum_arg_view(
            name@,
            label@,
            values@.map_values(|s: &'static str| s@),
            required,
        ),
{
    ArgSpec { name, label, kind: ArgKind::Enum(values), required }
}

// ---------------------------------------------------------------------------
// Arguments and errors of handlers

/// An error about the arguments.
pub open spec fn invalid_view(message: Seq<char>) -> FrameErrorView {
    FrameErrorView { code: ErrorCode::InvalidArgs, message }
}

/// An error about something that does not exist.
pub open spec fn not_found_view(message: Seq<char>) -> FrameErrorView {
    FrameErrorView { code: ErrorCode::NotFound, message }
}

/// An error of the work itself.
pub open spec fn handler_error_view(message: Seq<char>) -> FrameErrorView {
    FrameErrorView { code: ErrorCode::HandlerError, message }
}

/// The text of an argument that must be given and not be empty.
pub open spec fn required(args: Fields, key: Seq<char>) -> Result<Seq<char>, FrameErrorView> {
    match optional(args, key) {
        Some(value) => Ok(value),
        None => Err(invalid_view("missing required argument "@ + text::quoted(key))),
    }
}

/// The text of an argument, if it is given and not empty.
pub open spec fn optional(args: Fields, key: Seq<char>) -> Option<Seq<char>> {
    match json::text_of(json::lookup(args, key)) {
        Some(value) => if value.len() > 0 {
            Some(value)
        } else {
            None
        },
        None => None,
    }
}

/// The text of an argument that must be given and not be empty.
pub fn require_str(args: &Vec<(String, Json)>, key: &str) -> (r: Result<String, FrameError>)
    ensures
        match r {
            Ok(value) => required(json::fields_view(args@), key@) == Ok::<
                Seq<char>,
                FrameErrorView,
            >(value@),
            Err(e) => required(json::fields_view(args@), key@) == Err::<Seq<char>, FrameErrorView>(
                e@,
            ),
        },
{
    match opt_str(args, key) {
        Some(value) => Ok(value),
        None => Err(
            invalid(&text::concat2("missing required argument ", &text::quote(key))),
        ),
    }
}

/// The text of an argument, if it is given and not empty.
pub fn opt_str(args: &Vec<(String, Json)>, key: &str) -> (r: Option<String>)
    ensures
        text::opt_view(r) == optional(json::fields_view(args@), key@),
{
    match json::as_text(json::field(args, key)) {
        Some(value) => {
            if value.as_str().is_empty() {
                None
            } else {
                Some(value)
            }
        },
        None => None,
    }
}

/// An error about the arguments.
pub fn invalid(message: &str) -> (r: FrameError)
    ensures
        r@ == invalid_view(message@),
{
    FrameError { code: ErrorCode::InvalidArgs, message: message.to_owned() }
}

/// An error about something that does not exist.
pub fn not_found(message: &str) -> (r: FrameError)
    ensures
        r@ == not_found_view(message@),
{
    FrameError { code: ErrorCode::NotFound, message: message.to_owned() }
}

/// An error of the work itself.
pub fn handler_error(message: &str) -> (r: FrameError)
    ensures
        r@ == handler_error_view(message@),
{
    FrameError { code: ErrorCode::HandlerError, message: message.to_owned() }
}

// ---------------------------------------------------------------------------
// The table of commands

/// The command with the given name.
pub open spec fn find(commands: Seq<CommandView>, name: Seq<char>) -> Option<CommandView>
    decreases commands.len(),
{
    if commands.len() == 0 {
        None
    } else if commands[0].name == name {
        Some(commands[0])
    } else {
        find(commands.drop_first(), name)
    }
}

/// Whether commands stand in the order of their names, each name once.
pub open spec fn ordered(commands: Seq<CommandView>) -> bool {
    forall|i: int, j: int|
        0 <= i < j < commands.len() ==> text::before(
            (#[trigger] commands[i]).name,
            (#[trigger] commands[j]).name,
        )
}

/// The table of commands.
pub struct Registry {
    commands: Vec<CommandDef>,
}

impl Registry {
    /// The commands, in the order of their names.
    pub closed spec fn view(&self) -> Seq<CommandView> {
        defs_view(self.commands@)
    }

    /// A table of every command.
    pub fn new() -> (r: Self)
        ensures
            ordered(r@),
            r@.len() == resources::table().len(),
            forall|c: CommandView| #[trigger] r@.contains(c) <==> resources::table().contains(c),
    {
        let mut left = resources::all();
        let ghost all = resources::table();
        let mut commands: Vec<CommandDef> = Vec::new();
        proof {
            assert(defs_view(commands@) =~= Seq::empty());
            assert(all.take(all.len() as int) =~= all);
            command_names_are_unique();
        }
        while left.len() > 0
            invariant
                all == resources::table(),
                left@.len() + commands@.len() == all.len(),
                defs_view(left@) == all.take(left@.len() as int),
                ordered(defs_view(commands@)),
                forall|c: CommandView| #[trigger]
                    defs_view(commands@).contains(c) <==> all.skip(left@.len() as int).contains(c),
                forall|i: int, j: int|
                    0 <= i < j < all.len() ==> (#[trigger] all[i]).name != (#[trigger] all[j]).name,
            decreases left@.len(),
        {
            let ghost n = left@.len() - 1;
            let ghost before_left = left@;
            let def = match left.pop() {
                Some(def) => def,
                None => {
                    return Registry { commands };
                },
            };
            let ghost was = defs_view(commands@);
            let ghost value = def@;
            proof {
                assert(value == all[n]) by {
                    assert(defs_view(before_left)[n] == all.take(n + 1)[n]);
                }
                assert(defs_view(left@) =~= all.take(n)) by {
                    assert forall|i: int| 0 <= i < n implies #[trigger] defs_view(left@)[i]
                        == all[i] by {
                        assert(defs_view(before_left)[i] == all.take(n + 1)[i]);
                    }
                }
                assert forall|i: int| 0 <= i < was.len() implies (#[trigger] was[i]).name
                    != value.name by {
                    assert(was.contains(was[i]));
                    let rest = all.skip(n + 1);
                    let j = choose|j: int| 0 <= j < rest.len() && rest[j] == was[i];
                    assert(all[n + 1 + j] == was[i]);
                    assert(all[n].name != all[n + 1 + j].name);
                }
            }
            insert(&mut commands, def);
            proof {
                let rest = all.skip(n + 1);
                let more = all.skip(n);
                assert forall|c: CommandView| #[trigger] defs_view(commands@).contains(c)
                    <==> more.contains(c) by {
                    assert(more[0] == value);
                    if rest.contains(c) {
                        let j = choose|j: int| 0 <= j < rest.len() && rest[j] == c;
                        assert(more[j + 1] == c);
                    }
                    if more.contains(c) && c != value {
                        let j = choose|j: int| 0 <= j < more.len() && more[j] == c;
                        assert(rest[j - 1] == c);
                    }
                }
            }
        }
        assert(all.skip(0) =~= all);
        Registry { commands }
    }

    /// The command with the given name.
    pub fn get(&self, name: &str) -> (r: Option<&CommandDef>)
        ensures
            match r {
                Some(def) => find(self@, name@) == Some(def@),
                None => find(self@, name@) is None,
            },
    {
        let ghost all = self@;
        let mut i: usize = 0;
        assert(all.skip(0) =~= all);
        while i < self.commands.len()
            invariant
                i <= self.commands@.len(),
                all == self@,
                find(all, name@) == find(all.skip(i as int), name@),
            decreases self.commands@.len() - i,
        {
            assert(all.skip(i as int)[0] == self.commands@[i as int]@);
            if text::same(self.commands[i].name, name) {
                return Some(&self.commands[i]);
            }
            assert(all.skip(i as int).drop_first() =~= all.skip(i + 1));
            i += 1;
        }
        None
    }

    /// All commands, in the order of their names.
    pub fn commands(&self) -> (r: &Vec<CommandDef>)
        ensures
            defs_view(r@) == self@,
    {
        &self.commands
    }
}

/// Puts a command where the order of names wants it.
fn insert(commands: &mut Vec<CommandDef>, def: CommandDef)
    requires
        ordered(defs_view(old(commands)@)),
        forall|i: int|
            0 <= i < old(commands)@.len() ==> (#[trigger] defs_view(old(commands)@)[i]).name
                != def@.name,
    ensures
        ordered(defs_view(final(commands)@)),
        final(commands)@.len() == old(commands)@.len() + 1,
        forall|c: CommandView| #[trigger]
            defs_view(final(commands)@).contains(c) <==> (c == def@ || defs_view(
                old(commands)@,
            ).contains(c)),
{
    let ghost was = defs_view(commands@);
    let ghost value = def@;
    let mut at: usize = 0;
    while at < commands.len() && text::comes_before(commands[at].name, def.name)
        invariant
            at <= commands@.len(),
            was == defs_view(commands@),
            value == def@,
            forall|j: int| 0 <= j < at ==> text::before((#[trigger] was[j]).name, value.name),
        decreases commands@.len() - at,
    {
        assert(was[at as int] == commands@[at as int]@);
        at += 1;
    }
    proof {
        if at < was.len() {
            assert(was[at as int] == commands@[at as int]@);
            assert(was[at as int].name != value.name);
            text::lemma_before_total(was[at as int].name, value.name);
        }
    }
    commands.insert(at, def);
    proof {
        let now = defs_view(commands@);
        assert(now =~= was.insert(at as int, value));
        assert forall|a: int, b: int| 0 <= a < b < now.len() implies text::before(
            (#[trigger] now[a]).name,
            (#[trigger] now[b]).name,
        ) by {
            if b < at {
                assert(text::before(was[a].name, was[b].name));
            } else if b == at {
                assert(text::before(was[a].name, value.name));
            } else if a == at {
                if b - 1 > at {
                    assert(text::before(was[at as int].name, was[b - 1].name));
                    text::lemma_before_transitive(value.name, was[at as int].name, was[b - 1].name);
                }
            } else if a < at {
                assert(text::before(was[a].name, was[b - 1].name));
            } else {
                assert(text::before(was[a - 1].name, was[b - 1].name));
            }
        }
        assert forall|c: CommandView| #[trigger] now.contains(c) <==> (c == value || was.contains(
            c,
        )) by {
            if was.contains(c) {
                let j = choose|j: int| 0 <= j < was.len() && was[j] == c;
                if j < at {
                    assert(now[j] == c);
                } else {
                    assert(now[j + 1] == c);
                }
            }
            assert(now[at as int] == value);
            if now.contains(c) && c != value {
                let j = choose|j: int| 0 <= j < now.len() && now[j] == c;
                if j < at {
                    assert(was[j] == c);
                } else {
                    assert(was[j - 1] == c);
                }
            }
        }
    }
}

/// No two commands share a name.
pub proof fn command_names_are_unique()
    ensures
        forall|i: int, j: int|
            0 <= i < j < resources::table().len() ==> (#[trigger] resources::table()[i]).name != (
            #[trigger] resources::table()[j]).name,
{
    reveal_strlit("endpoints-list");
    reveal_strlit("endpoints-create");
    reveal_strlit("endpoints-update");
    reveal_strlit("endpoints-delete");
    reveal_strlit("groups-list");
    reveal_strlit("groups-get");
    reveal_strlit("groups-create");
    reveal_strlit("groups-update");
    reveal_strlit("wirings-list");
    reveal_strlit("roles-list");
    reveal_strlit("roles-grant");
    reveal_strlit("roles-revoke");
    reveal_strlit("connectors-list");
    reveal_strlit("connectors-create");
    reveal_strlit("connectors-update");
    reveal_strlit("connectors-delete");
    assert("endpoints-list"@.len() == 14);
    assert("endpoints-create"@.len() == 16);
    assert("endpoints-update"@.len() == 16);
    assert("endpoints-delete"@.len() == 16);
    assert("groups-list"@.len() == 11);
    assert("groups-get"@.len() == 10);
    assert("groups-create"@.len() == 13);
    assert("groups-update"@.len() == 13);
    assert("wirings-list"@.len() == 12);
    assert("roles-list"@.len() == 10);
    assert("roles-grant"@.len() == 11);
    assert("roles-revoke"@.len() == 12);
    assert("connectors-list"@.len() == 15);
    assert("connectors-create"@.len() == 17);
    assert("connectors-update"@.len() == 17);
    assert("connectors-delete"@.len() == 17);
    assert("endpoints-create"@[10] != "endpoints-update"@[10]);
    assert("endpoints-create"@[10] != "endpoints-delete"@[10]);
    assert("endpoints-update"@[10] != "endpoints-delete"@[10]);
    assert("groups-list"@[0] != "roles-grant"@[0]);
    assert("groups-get"@[0] != "roles-list"@[0]);
    assert("groups-create"@[7] != "groups-update"@[7]);
    assert("wirings-list"@[0] != "roles-revoke"@[0]);
    assert("connectors-create"@[11] != "connectors-update"@[11]);
    assert("connectors-create"@[11] != "connectors-delete"@[11]);
    assert("connectors-update"@[11] != "connectors-delete"@[11]);
    let all = resources::table();
    assert(all =~= seq![
        resources::endpoint_table()[0],
        resources::endpoint_table()[1],
        resources::endpoint_table()[2],
        resources::endpoint_table()[3],
        resources::group_table()[0],
        resources::group_table()[1],
        resources::group_table()[2],
        resources::group_table()[3],
        resources::wiring_table()[0],
        resources::role_table()[0],
        resources::role_table()[1],
        resources::role_table()[2],
        connectors::connector_table()[0],
        connectors::connector_table()[1],
        connectors::connector_table()[2],
        connectors::connector_table()[3],
    ]);
}

// ---------------------------------------------------------------------------
// The way of a request

/// What comes of a request: an answer at once, or work for the database.
pub enum Dispatch {
    Respond(ResponseFrame),
    Run { id: String, work: Work },
}

/// The mathematical value of a [`Dispatch`].
#[verifier::ext_equal]
pub enum DispatchView {
    Respond(ResponseView),
    Run { id: Seq<char>, work: WorkView },
}

impl Dispatch {
    pub open spec fn view(&self) -> DispatchView {
        match self {
            Dispatch::Respond(response) => DispatchView::Respond(response@),
            Dispatch::Run { id, work } => DispatchView::Run { id: id@, work: work@ },
        }
    }
}

/// What the agent gate decides: run now, or hold for the owner's approval.
pub enum GateDecision {
    Proceed(Vec<(String, Json)>),
    NeedsApproval(Vec<(String, Json)>),
}

/// The mathematical value of a [`GateDecision`].
#[verifier::ext_equal]
pub enum GateView {
    Proceed(Fields),
    NeedsApproval(Fields),
}

impl GateDecision {
    pub open spec fn view(&self) -> GateView {
        match self {
            GateDecision::Proceed(args) => GateView::Proceed(json::fields_view(args@)),
            GateDecision::NeedsApproval(args) => GateView::NeedsApproval(json::fields_view(args@)),
        }
    }
}

/// The scope that the database holds for the caller's group, or why it could
/// not be read.
pub open spec fn stored_scope(scope: Result<Option<CliScope>, String>) -> Result<
    Option<CliScope>,
    Seq<char>,
> {
    match scope {
        Ok(found) => Ok(found),
        Err(message) => Err(message@),
    }
}

/// What the scope rule decides. The operator passes; an agent is held to its group's
/// scope, which is disabled for a group that is not known. Hidden commands are
/// not for agents, and commands that need approval are held.
pub open spec fn gate_of(
    command: CommandView,
    group: Option<Seq<char>>,
    scope: Result<Option<CliScope>, Seq<char>>,
    args: Fields,
) -> Result<GateView, FrameErrorView> {
    match group {
        None => Ok(GateView::Proceed(args)),
        Some(group) => if command.access == Access::Hidden {
            Err(
                FrameErrorView {
                    code: ErrorCode::Forbidden,
                    message: "command not available to agents"@,
                },
            )
        } else {
            match scope {
                Err(message) => Err(handler_error_view(message)),
                Ok(found) => {
                    let held = match found {
                        Some(s) => s,
                        None => CliScope::Disabled,
                    };
                    match gates::gated(held, command, group, args) {
                        Err(e) => Err(e),
                        Ok(out) => if command.access == Access::Approval {
                            Ok(GateView::NeedsApproval(out))
                        } else {
                            Ok(GateView::Proceed(out))
                        },
                    }
                },
            }
        },
    }
}

/// What the scope rule decides on a command.
pub fn gate_for_agent(
    def: &CommandDef,
    caller: &CallerContext,
    scope: &Result<Option<CliScope>, String>,
    args: Vec<(String, Json)>,
) -> (r: Result<GateDecision, FrameError>)
    ensures
        match r {
            Ok(decision) => gate_of(
                def@,
                caller.group(),
                stored_scope(*scope),
                json::fields_view(args@),
            ) == Ok::<GateView, FrameErrorView>(decision@),
            Err(e) => gate_of(
                def@,
                caller.group(),
                stored_scope(*scope),
                json::fields_view(args@),
            ) == Err::<GateView, FrameErrorView>(e@),
        },
{
    let group = match caller {
        CallerContext::Host => {
            return Ok(GateDecision::Proceed(args));
        },
        CallerContext::Agent { agent_group_id, .. } => agent_group_id,
    };
    if def.access == Access::Hidden {
        return Err(
            FrameError {
                code: ErrorCode::Forbidden,
                message: "command not available to agents".to_owned(),
            },
        );
    }
    let held = match scope {
        Err(message) => {
            return Err(handler_error(message));
        },
        Ok(Some(found)) => *found,
        Ok(None) => CliScope::Disabled,
    };
    let out = gates::enforce_cli_scope(held, def, group, args)?;
    if def.access == Access::Approval {
        Ok(GateDecision::NeedsApproval(out))
    } else {
        Ok(GateDecision::Proceed(out))
    }
}

/// The response to a command that is held: the command and its arguments, for
/// the approval card.
pub open spec fn held_response(id: Seq<char>, name: Seq<char>, args: Fields) -> ResponseView {
    ResponseView {
        id,
        ok: false,
        data: Some(
            JsonView::Object(
                seq![("args"@, JsonView::Object(args)), ("command"@, JsonView::Text(name))],
            ),
        ),
        error: Some(
            FrameErrorView {
                code: ErrorCode::ApprovalPending,
                message: "command "@ + text::quoted(name) + " requires owner approval"@,
            },
        ),
    }
}

/// The response to a command that is not in the table.
pub open spec fn unknown_response(id: Seq<char>, name: Seq<char>) -> ResponseView {
    error_response(id, ErrorCode::UnknownCommand, "unknown command "@ + text::quoted(name))
}

/// A response that carries an error as it is.
pub open spec fn failed_response(id: Seq<char>, e: FrameErrorView) -> ResponseView {
    ResponseView { id, ok: false, data: None, error: Some(e) }
}

/// What comes of a command that may run.
pub open spec fn run_of(id: Seq<char>, action: Action, args: Fields) -> DispatchView {
    match resources::work_of(action, args) {
        Ok(work) => DispatchView::Run { id, work },
        Err(e) => DispatchView::Respond(failed_response(id, e)),
    }
}

/// What comes of a request.
pub open spec fn dispatch_of(
    commands: Seq<CommandView>,
    request: RequestView,
    group: Option<Seq<char>>,
    scope: Result<Option<CliScope>, Seq<char>>,
) -> DispatchView {
    match find(commands, request.command) {
        None => DispatchView::Respond(unknown_response(request.id, request.command)),
        Some(command) => match gate_of(command, group, scope, request.args) {
            Err(e) => DispatchView::Respond(failed_response(request.id, e)),
            Ok(GateView::NeedsApproval(args)) => DispatchView::Respond(
                held_response(request.id, command.name, args),
            ),
            Ok(GateView::Proceed(args)) => run_of(request.id, command.action, args),
        },
    }
}

/// What comes of a command whose approval was granted: no gate, since the
/// operator's word is the authorization.
pub open spec fn approved_of(
    commands: Seq<CommandView>,
    id: Seq<char>,
    command: Seq<char>,
    args: Fields,
) -> DispatchView {
    match find(commands, command) {
        None => DispatchView::Respond(unknown_response(id, command)),
        Some(def) => run_of(id, def.action, args),
    }
}

fn unknown_frame(id: &str, name: &str) -> (r: ResponseFrame)
    ensures
        r@ == unknown_response(id@, name@),
{
    ResponseFrame::error(
        id,
        ErrorCode::UnknownCommand,
        &text::concat2("unknown command ", &text::quote(name)),
    )
}

fn failed_frame(id: &str, error: FrameError) -> (r: ResponseFrame)
    ensures
        r@ == failed_response(id@, error@),
{
    ResponseFrame { id: id.to_owned(), ok: false, data: None, error: Some(error) }
}

fn held_frame(id: &str, name: &str, args: Vec<(String, Json)>) -> (r: ResponseFrame)
    ensures
        r@ == held_response(id@, name@, json::fields_view(args@)),
{
    let mut fields: Vec<(String, Json)> = Vec::new();
    json::add_field(&mut fields, "args", json::object(args));
    json::add_field(&mut fields, "command", json::text_json(name));
    let data = json::object(fields);
    assert(data@->Object_0 =~= seq![
        ("args"@, JsonView::Object(json::fields_view(args@))),
        ("command"@, JsonView::Text(name@)),
    ]);
    ResponseFrame {
        id: id.to_owned(),
        ok: false,
        data: Some(data),
        error: Some(
            FrameError {
                code: ErrorCode::ApprovalPending,
                message: text::concat3("command ", &text::quote(name), " requires owner approval"),
            },
        ),
    }
}

fn run(id: &str, action: Action, args: &Vec<(String, Json)>) -> (r: Dispatch)
    ensures
        r@ == run_of(id@, action, json::fields_view(args@)),
{
    match resources::plan(action, args) {
        Ok(work) => Dispatch::Run { id: id.to_owned(), work },
        Err(error) => Dispatch::Respond(failed_frame(id, error)),
    }
}

impl Registry {
    /// What comes of a request. `scope` is what the database holds as the scope
    /// of the caller's group; it is not looked at for the operator.
    pub fn dispatch(
        &self,
        request: RequestFrame,
        caller: &CallerContext,
        scope: &Result<Option<CliScope>, String>,
    ) -> (r: Dispatch)
        ensures
            r@ == dispatch_of(self@, request@, caller.group(), stored_scope(*scope)),
    {
        let def = match self.get(&request.command) {
            Some(def) => def,
            None => {
                return Dispatch::Respond(unknown_frame(&request.id, &request.command));
            },
        };
        proof {
            lemma_find_name(self@, request.command@);
        }
        match gate_for_agent(def, caller, scope, request.args) {
            Ok(GateDecision::Proceed(args)) => run(&request.id, def.action, &args),
            Ok(GateDecision::NeedsApproval(args)) => Dispatch::Respond(
                held_frame(&request.id, def.name, args),
            ),
            Err(error) => Dispatch::Respond(failed_frame(&request.id, error)),
        }
    }

    /// What comes of a command whose approval was granted.
    pub fn execute_approved(&self, id: &str, command: &str, args: &Vec<(String, Json)>) -> (r:
        Dispatch)
        ensures
            r@ == approved_of(self@, id@, command@, json::fields_view(args@)),
    {
        match self.get(command) {
            Some(def) => run(id, def.action, args),
            None => Dispatch::Respond(unknown_frame(id, command)),
        }
    }
}

/// The response to a request once the database has done its work.
pub open spec fn finish_of(id: Seq<char>, work: WorkView, outcome: OutcomeView) -> ResponseView {
    match resources::answer_of(work, outcome) {
        Ok(data) => ok_response(id, data),
        Err(e) => failed_response(id, e),
    }
}

/// The response to a request once the database has done its work.
pub fn finish(id: &str, work: &Work, outcome: &Outcome) -> (r: ResponseFrame)
    ensures
        r@ == finish_of(id@, work@, outcome@),
        r@.well_formed(),
{
    match resources::answer(work, outcome) {
        Ok(data) => ResponseFrame::ok(id, data),
        Err(error) => failed_frame(id, error),
    }
}

proof fn lemma_find_name(commands: Seq<CommandView>, name: Seq<char>)
    ensures
        find(commands, name) matches Some(c) ==> c.name == name && commands.contains(c),
    decreases commands.len(),
{
    if commands.len() > 0 {
        if commands[0].name == name {
            assert(commands.contains(commands[0]));
        } else {
            let rest = commands.drop_first();
            lemma_find_name(rest, name);
            if let Some(c) = find(rest, name) {
                let i = choose|i: int| 0 <= i < rest.len() && rest[i] == c;
                assert(commands[i + 1] == c);
            }
        }
    }
}

// ---------------------------------------------------------------------------
// Laws

/// The operator is never gated: whatever the scope, a command of the table runs
/// on the arguments as they were given.
pub proof fn operator_bypasses_the_gate(
    commands: Seq<CommandView>,
    request: RequestView,
    scope: Result<Option<CliScope>, Seq<char>>,
)
    ensures
        find(commands, request.command) matches Some(command) ==> dispatch_of(
            commands,
            request,
            None,
            scope,
        ) == run_of(request.id, command.action, request.args),
{
}

/// An agent never runs a hidden command, whatever its scope.
pub proof fn hidden_commands_are_not_for_agents(
    commands: Seq<CommandView>,
    request: RequestView,
    group: Seq<char>,
    scope: Result<Option<CliScope>, Seq<char>>,
)
    ensures
        find(commands, request.command) matches Some(command) ==> command.access == Access::Hidden
            ==> (dispatch_of(commands, request, Some(group), scope) matches DispatchView::Respond(
            response,
        ) && response.error->0.code == ErrorCode::Forbidden),
{
}

/// An agent never runs a command that needs approval: it is refused or held.
pub proof fn approval_commands_are_held_not_run(
    commands: Seq<CommandView>,
    request: RequestView,
    group: Seq<char>,
    scope: Result<Option<CliScope>, Seq<char>>,
)
    ensures
        find(commands, request.command) matches Some(command) ==> command.access
            == Access::Approval ==> dispatch_of(commands, request, Some(group), scope) is Respond,
{
}

/// With a disabled scope, or none on record, an agent runs nothing.
pub proof fn disabled_agents_run_nothing(
    commands: Seq<CommandView>,
    request: RequestView,
    group: Seq<char>,
    scope: Option<CliScope>,
)
    requires
        scope is None || scope == Some(CliScope::Disabled),
    ensures
        dispatch_of(commands, request, Some(group), Ok(scope)) is Respond,
{
}

/// What was held runs, once approved, on the arguments that the card carried.
pub proof fn approved_commands_run_as_they_were_held(
    commands: Seq<CommandView>,
    request: RequestView,
    group: Seq<char>,
    scope: Result<Option<CliScope>, Seq<char>>,
    command: CommandView,
    args: Fields,
    id: Seq<char>,
)
    requires
        find(commands, request.command) == Some(command),
        gate_of(command, Some(group), scope, request.args) == Ok::<GateView, FrameErrorView>(
            GateView::NeedsApproval(args),
        ),
    ensures
        dispatch_of(commands, request, Some(group), scope) == DispatchView::Respond(
            held_response(request.id, command.name, args),
        ),
        approved_of(commands, id, command.name, args) == run_of(id, command.action, args),
{
    lemma_find_name(commands, request.command);
}

/// Every answer carries the id of its request.
pub proof fn answers_keep_the_request_id(
    commands: Seq<CommandView>,
    request: RequestView,
    group: Option<Seq<char>>,
    scope: Result<Option<CliScope>, Seq<char>>,
    outcome: OutcomeView,
)
    ensures
        match dispatch_of(commands, request, group, scope) {
            DispatchView::Respond(response) => response.id == request.id,
            DispatchView::Run { id, work } => id == request.id && finish_of(id, work, outcome).id
                == request.id,
        },
{
}

/// A command is found by its name, and nothing is found only under a name that no
/// command has.
pub proof fn commands_are_found_by_name(commands: Seq<CommandView>, name: Seq<char>)
    ensures
        find(commands, name) matches Some(command) ==> command.name == name && commands.contains(
            command,
        ),
        find(commands, name) is None <==> forall|i: int|
            0 <= i < commands.len() ==> (#[trigger] commands[i]).name != name,
    decreases commands.len(),
{
    if commands.len() > 0 {
        let rest = commands.drop_first();
        commands_are_found_by_name(rest, name);
        if commands[0].name != name {
            if find(rest, name) is Some {
                let command = find(rest, name)->0;
                let i = choose|i: int| 0 <= i < rest.len() && rest[i] == command;
                assert(commands[i + 1] == command);
            } else {
                assert forall|i: int| 0 <= i < commands.len() implies (#[trigger] commands[i]).name
                    != name by {
                    if i > 0 {
                        assert(rest[i - 1] == commands[i]);
                    }
                }
            }
        } else {
            assert(commands[0].name == name);
        }
    }
}

/// An argument is given where its key holds a text that is not empty; one that is
/// not given is missing, and its name is told.
pub proof fn arguments_are_texts(args: Fields, key: Seq<char>, value: Seq<char>)
    ensures
        json::lookup(args, key) == Some(JsonView::Text(value)) && value.len() > 0 ==> optional(
            args,
            key,
        ) == Some(value) && required(args, key) == Ok::<Seq<char>, FrameErrorView>(value),
        optional(args, key) == Some(value) ==> json::lookup(args, key) == Some(
            JsonView::Text(value),
        ) && value.len() > 0,
        required(args, key) == Ok::<Seq<char>, FrameErrorView>(value) ==> optional(args, key)
            == Some(value),
        optional(args, key) is None ==> (required(args, key) matches Err(e) && e.code
            == ErrorCode::InvalidArgs && text::within(e.message, text::quoted(key))),
{
    let name = text::quoted(key);
    let message = "missing required argument "@ + name;
    assert(message =~= "missing required argument "@ + name + seq![]);
    text::parts_stand_in_the_whole(message, "missing required argument "@, name, seq![]);
}

/// A command that is held is answered with its name and its arguments, all of them
/// as they were to be run with.
pub proof fn held_answers_tell_the_command(id: Seq<char>, name: Seq<char>, args: Fields)
    ensures
        ({
            let r = held_response(id, name, args);
            &&& r.id == id
            &&& !r.ok
            &&& r.error matches Some(e) && e.code == ErrorCode::ApprovalPending && text::within(
                e.message,
                text::quoted(name),
            )
            &&& r.data matches Some(JsonView::Object(data)) && json::lookup(data, "command"@)
                == Some(JsonView::Text(name)) && json::lookup(data, "args"@) == Some(
                JsonView::Object(args),
            )
        }),
{
    reveal_with_fuel(json::lookup, 3);
    reveal_strlit("args");
    reveal_strlit("command");
    assert("args"@.len() == 4 && "command"@.len() == 7);
    let r = held_response(id, name, args);
    let e = r.error->0;
    text::parts_stand_in_the_whole(
        e.message,
        "command "@,
        text::quoted(name),
        " requires owner approval"@,
    );
    let data = r.data->0->Object_0;
    assert(data.drop_first()[0] == ("command"@, JsonView::Text(name)));
}

/// An agent that may act everywhere runs an open command at once, with the
/// arguments that it gave; what needs approval is held with them; and what is not
/// known, or cannot be looked into, is told as such.
pub proof fn requests_run_with_their_arguments(
    commands: Seq<CommandView>,
    request: RequestView,
    group: Seq<char>,
    scope: Result<Option<CliScope>, Seq<char>>,
)
    ensures
        find(commands, request.command) matches Some(command) ==> command.access == Access::Open
            ==> scope == Ok::<Option<CliScope>, Seq<char>>(Some(CliScope::Global)) ==> dispatch_of(
            commands,
            request,
            Some(group),
            scope,
        ) == (match resources::work_of(command.action, request.args) {
            Ok(work) => DispatchView::Run { id: request.id, work },
            Err(e) => DispatchView::Respond(
                (ResponseView { id: request.id, ok: false, data: None, error: Some(e) }),
            ),
        }),
        find(commands, request.command) matches Some(command) ==> command.access
            == Access::Approval ==> scope == Ok::<Option<CliScope>, Seq<char>>(
            Some(CliScope::Global),
        ) ==> dispatch_of(commands, request, Some(group), scope) == DispatchView::Respond(
            held_response(request.id, request.command, request.args),
        ),
        find(commands, request.command) matches Some(command) ==> command.access != Access::Hidden
            ==> scope is Err ==> (dispatch_of(commands, request, Some(group), scope)
            matches DispatchView::Respond(r) && r.error is Some && r.error->0.code
            == ErrorCode::HandlerError && r.error->0.message == scope->Err_0),
        find(commands, request.command) is None ==> (dispatch_of(
            commands,
            request,
            Some(group),
            scope,
        ) matches DispatchView::Respond(r) && !r.ok && r.error is Some && r.error->0.code
            == ErrorCode::UnknownCommand && text::within(
            r.error->0.message,
            text::quoted(request.command),
        )),
{
    commands_are_found_by_name(commands, request.command);
    let name = text::quoted(request.command);
    let message = "unknown command "@ + name;
    assert(message =~= "unknown command "@ + name + seq![]);
    text::parts_stand_in_the_whole(message, "unknown command "@, name, seq![]);
}

/// An answer is a success exactly where the work came to a value, which it carries;
/// what went wrong is told as it is.
pub proof fn answers_carry_what_came_back(id: Seq<char>, work: WorkView, outcome: OutcomeView)
    ensures
        finish_of(id, work, outcome).ok <==> resources::answer_of(work, outcome) is Ok,
        resources::answer_of(work, outcome) matches Ok(data) ==> finish_of(id, work, outcome).data
            == Some(data) && finish_of(id, work, outcome).error is None,
        resources::answer_of(work, outcome) matches Err(e) ==> finish_of(id, work, outcome).data
            is None && finish_of(id, work, outcome).error == Some(e),
{
}

/// Commands stand in the order of their names.
pub proof fn commands_stand_in_order(commands: Seq<CommandView>, i: int, j: int)
    requires
        ordered(commands),
        0 <= i < j < commands.len(),
    ensures
        text::before(commands[i].name, commands[j].name),
{
}

} // verus!
