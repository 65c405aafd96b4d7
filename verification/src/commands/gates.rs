//! What an agent's scope lets it do with the admin commands.

use vstd::prelude::*;

use crate::commands::registry::{ArgView, CommandDef, CommandView};
use crate::json;
use crate::json::{Fields, Json, JsonView};
use crate::protocol::entities::CliScope;
use crate::protocol::frame::{ErrorCode, FrameError, FrameErrorView};
use crate::protocol::ids::AgentGroupId;
use crate::text;

verus! {

broadcast use vstd::string::group_string_axioms;

/// Whether a group-scoped agent may touch a resource, restricted to its own
/// group.
pub open spec fn group_scoped(resource: Seq<char>) -> bool {
    resource == "groups"@ || resource == "sessions"@ || resource == "destinations"@ || resource
        == "members"@
}

/// The arguments that name an agent group, in the order in which they are
/// checked.
pub open spec fn group_keys() -> Seq<Seq<char>> {
    seq!["id"@, "group"@, "agent_group"@]
}

/// Whether a command declares an argument.
pub open spec fn declares(args: Seq<ArgView>, name: Seq<char>) -> bool {
    exists|i: int| 0 <= i < args.len() && (#[trigger] args[i]).name == name
}

/// A refusal with the given message.
pub open spec fn forbidden_view(message: Seq<char>) -> FrameErrorView {
    FrameErrorView { code: ErrorCode::Forbidden, message }
}

/// The message for an argument that names another group.
pub open spec fn foreign_group(value: Seq<char>) -> FrameErrorView {
    forbidden_view("agents in this group may only act on their own group, not "@ + text::quoted(value))
}

/// The first of the given keys whose text is not the caller's group.
pub open spec fn foreign_value(args: Fields, group: Seq<char>, keys: Seq<Seq<char>>) -> Option<
    Seq<char>,
>
    decreases keys.len(),
{
    if keys.len() == 0 {
        None
    } else {
        match json::text_of(json::lookup(args, keys[0])) {
            Some(value) => if value != group {
                Some(value)
            } else {
                foreign_value(args, group, keys.drop_first())
            },
            None => foreign_value(args, group, keys.drop_first()),
        }
    }
}

/// Whether a group argument is forced to the caller's own group: the command
/// declares it or the caller gave it, and no text stands under it.
pub open spec fn forced(command: CommandView, args: Fields, key: Seq<char>) -> bool {
    json::text_of(json::lookup(args, key)) is None && (declares(command.args, key)
        || json::lookup(args, key) is Some)
}

/// Whether the scope rule fills a key with the caller's own group.
pub open spec fn fills(command: CommandView, args: Fields, key: Seq<char>) -> bool {
    group_keys().contains(key) && forced(command, args, key)
}

/// Whether some arguments are the given ones with the caller's own group filled
/// in where the scope rule asks for it.
pub open spec fn filled(command: CommandView, group: Seq<char>, args: Fields, out: Fields) -> bool {
    forall|key: Seq<char>| #[trigger] json::lookup(out, key) == (if fills(command, args, key) {
        Some(JsonView::Text(group))
    } else {
        json::lookup(args, key)
    })
}

/// The arguments with the caller's own group put under those of the keys that are
/// forced to it.
pub open spec fn fill(
    command: CommandView,
    group: Seq<char>,
    args: Fields,
    keys: Seq<Seq<char>>,
) -> Fields
    decreases keys.len(),
{
    if keys.len() == 0 {
        args
    } else {
        let next = if forced(command, args, keys[0]) {
            json::put(args, keys[0], JsonView::Text(group))
        } else {
            args
        };
        fill(command, group, next, keys.drop_first())
    }
}

/// What the scope rule makes of a command that an agent issues: the arguments to run
/// it with, or the error to send.
pub open spec fn gated(
    scope: CliScope,
    command: CommandView,
    group: Seq<char>,
    args: Fields,
) -> Result<Fields, FrameErrorView> {
    match refusal(scope, command, group, args) {
        Some(e) => Err(e),
        None => if scope == CliScope::Group {
            Ok(fill(command, group, args, group_keys()))
        } else {
            Ok(args)
        },
    }
}

/// Why the scope rule refuses a command, if it does.
pub open spec fn refusal(
    scope: CliScope,
    command: CommandView,
    group: Seq<char>,
    args: Fields,
) -> Option<FrameErrorView> {
    match scope {
        CliScope::Disabled => Some(forbidden_view("CLI access is disabled for this agent group"@)),
        CliScope::Global => None,
        CliScope::Group => if !group_scoped(command.resource) {
            Some(
                forbidden_view(
                    "agents in this group may not use "@ + command.resource + " commands"@,
                ),
            )
        } else if declares(command.args, "cli_scope"@) && json::lookup(args, "cli_scope"@)
            is Some {
            Some(forbidden_view("agents may not change cli_scope"@))
        } else {
            match foreign_value(args, group, group_keys()) {
                Some(value) => Some(foreign_group(value)),
                None => None,
            }
        },
    }
}

fn forbidden(message: &str) -> (r: FrameError)
    ensures
        r@ == forbidden_view(message@),
{
    FrameError { code: ErrorCode::Forbidden, message: message.to_owned() }
}

/// Whether a command declares an argument.
fn has_arg(command: &CommandDef, name: &str) -> (r: bool)
    ensures
        r == declares(command@.args, name@),
{
    let mut i: usize = 0;
    while i < command.args.len()
        invariant
            i <= command.args@.len(),
            forall|j: int| 0 <= j < i ==> (#[trigger] command.args@[j]).name@ != name@,
        decreases command.args@.len() - i,
    {
        if text::same(command.args[i].name, name) {
            assert(command@.args[i as int].name == name@);
            return true;
        }
        i += 1;
    }
    assert forall|j: int| 0 <= j < command@.args.len() implies (#[trigger] command@.args[j]).name
        != name@ by {
        assert(command.args@[j].name@ != name@);
    }
    false
}

/// Applies a group's scope to a command that an agent issues. On success the
/// arguments come back, with the caller's own group filled in where the command
/// asks for it; otherwise an error that is ready to send.
///
/// - `disabled` allows nothing.
/// - `global` allows everything, unchanged.
/// - `group` allows the group-scoped resources only, never a change of the
///   scope, and no group but the caller's own.
pub fn enforce_cli_scope(
    scope: CliScope,
    command: &CommandDef,
    caller_group: &AgentGroupId,
    args: Vec<(String, Json)>,
) -> (r: Result<Vec<(String, Json)>, FrameError>)
    ensures
        match r {
            Err(e) => gated(scope, command@, caller_group@, json::fields_view(args@)) == Err::<
                Fields,
                FrameErrorView,
            >(e@),
            Ok(out) => {
                &&& gated(scope, command@, caller_group@, json::fields_view(args@)) == Ok::<
                    Fields,
                    FrameErrorView,
                >(json::fields_view(out@))
                &&& scope == CliScope::Group ==> filled(
                    command@,
                    caller_group@,
                    json::fields_view(args@),
                    json::fields_view(out@),
                )
                &&& json::sorted(json::fields_view(args@)) ==> json::sorted(
                    json::fields_view(out@),
                )
            },
        },
{
    match scope {
        CliScope::Disabled => Err(forbidden("CLI access is disabled for this agent group")),
        CliScope::Global => Ok(args),
        CliScope::Group => {
            if !(text::same(command.resource, "groups") || text::same(command.resource, "sessions")
                || text::same(command.resource, "destinations") || text::same(
                command.resource,
                "members",
            )) {
                let mut message = "agents in this group may not use ".to_owned();
                message.append(command.resource);
                message.append(" commands");
                return Err(forbidden(&message));
            }
            if has_arg(command, "cli_scope") && json::field(&args, "cli_scope").is_some() {
                return Err(forbidden("agents may not change cli_scope"));
            }
            let ghost given = json::fields_view(args@);
            let keys: [&'static str; 3] = ["id", "group", "agent_group"];
            let ghost names = group_keys();
            let mut out = args;
            let mut i: usize = 0;
            proof {
                assert(names.skip(0) =~= names);
                lemma_keys_distinct();
            }
            while i < 3
                invariant
                    i <= 3,
                    names == group_keys(),
                    keys@.len() == 3,
                    forall|j: int| 0 <= j < 3 ==> (#[trigger] keys@[j])@ == names[j],
                    names.no_duplicates(),
                    scope == CliScope::Group,
                    group_scoped(command@.resource),
                    given == json::fields_view(args@),
                    !(declares(command@.args, "cli_scope"@) && json::lookup(given, "cli_scope"@)
                        is Some),
                    json::sorted(given) ==> json::sorted(json::fields_view(out@)),
                    foreign_value(given, caller_group@, names) == foreign_value(
                        given,
                        caller_group@,
                        names.skip(i as int),
                    ),
                    fill(command@, caller_group@, given, names) == fill(
                        command@,
                        caller_group@,
                        json::fields_view(out@),
                        names.skip(i as int),
                    ),
                    forall|key: Seq<char>| #[trigger]
                        json::lookup(json::fields_view(out@), key) == (if fills(
                            command@,
                            given,
                            key,
                        ) && !names.skip(i as int).contains(key) {
                            Some(JsonView::Text(caller_group@))
                        } else {
                            json::lookup(given, key)
                        }),
                decreases 3 - i,
            {
                let key = keys[i];
                proof {
                    assert(key@ == names[i as int]);
                    assert(names.contains(key@));
                    lemma_skip(names, i as int);
                }
                match json::as_text(json::field(&out, key)) {
                    Some(value) => {
                        if !text::same(&value, caller_group.as_str()) {
                            let mut message =
                                "agents in this group may only act on their own group, not ".to_owned();
                            message.append(&text::quote(&value));
                            return Err(forbidden(&message));
                        }
                    },
                    None => {
                        if has_arg(command, key) || json::field(&out, key).is_some() {
                            json::set_field(
                                &mut out,
                                key,
                                json::text_json(caller_group.as_str()),
                            );
                        }
                    },
                }
                i += 1;
            }
            proof {
                assert(names.skip(3).len() == 0);
                assert forall|key: Seq<char>| !names.skip(3).contains(key) by {}
            }
            Ok(out)
        },
    }
}

/// What is left of a list of distinct keys after one more of them.
proof fn lemma_skip(names: Seq<Seq<char>>, i: int)
    requires
        0 <= i < names.len(),
        names.no_duplicates(),
    ensures
        names.skip(i)[0] == names[i],
        names.skip(i).drop_first() == names.skip(i + 1),
        names.skip(i).contains(names[i]),
        !names.skip(i + 1).contains(names[i]),
        forall|other: Seq<char>| #[trigger]
            names.skip(i).contains(other) == (other == names[i] || names.skip(i + 1).contains(
                other,
            )),
{
    let from = names.skip(i);
    let rest = names.skip(i + 1);
    assert(from.drop_first() =~= rest);
    assert(from[0] == names[i]);
    assert forall|other: Seq<char>| #[trigger] from.contains(other) == (other == names[i]
        || rest.contains(other)) by {
        if from.contains(other) && other != names[i] {
            let j = choose|j: int| 0 <= j < from.len() && from[j] == other;
            assert(rest[j - 1] == other);
        }
        if rest.contains(other) {
            let j = choose|j: int| 0 <= j < rest.len() && rest[j] == other;
            assert(from[j + 1] == other);
        }
    }
    if rest.contains(names[i]) {
        let j = choose|j: int| 0 <= j < rest.len() && rest[j] == names[i];
        assert(names[i + 1 + j] == names[i]);
    }
}

proof fn lemma_keys_distinct()
    ensures
        group_keys().no_duplicates(),
{
    reveal_strlit("id");
    reveal_strlit("group");
    reveal_strlit("agent_group");
    assert("id"@.len() == 2);
    assert("group"@.len() == 5);
    assert("agent_group"@.len() == 11);
}

// ---------------------------------------------------------------------------
// Laws

/// A disabled scope blocks every command.
pub proof fn disabled_blocks_every_command(command: CommandView, group: Seq<char>, args: Fields)
    ensures
        refusal(CliScope::Disabled, command, group, args) is Some,
{
}

/// A global scope blocks none.
pub proof fn global_blocks_nothing(command: CommandView, group: Seq<char>, args: Fields)
    ensures
        refusal(CliScope::Global, command, group, args) is None,
{
}

/// What a group-scoped agent gets through the scope rule is a command on a
/// group-scoped resource, without a change of the scope. Every group argument that
/// it declares or was given names the caller's own group, and all else stays.
pub proof fn group_scope_stays_in_its_group(
    command: CommandView,
    group: Seq<char>,
    args: Fields,
    out: Fields,
    key: Seq<char>,
)
    requires
        refusal(CliScope::Group, command, group, args) is None,
        filled(command, group, args, out),
    ensures
        group_scoped(command.resource),
        declares(command.args, "cli_scope"@) ==> json::lookup(args, "cli_scope"@) is None,
        group_keys().contains(key) && (declares(command.args, key) || json::lookup(args, key)
            is Some) ==> json::lookup(out, key) == Some(JsonView::Text(group)),
        group_keys().contains(key) && !declares(command.args, key) && json::lookup(args, key)
            is None ==> json::lookup(out, key) is None,
        !group_keys().contains(key) ==> json::lookup(out, key) == json::lookup(args, key),
{
    lemma_no_foreign(args, group, group_keys());
    if group_keys().contains(key) {
        let i = choose|i: int| 0 <= i < group_keys().len() && group_keys()[i] == key;
        assert(json::text_of(json::lookup(args, group_keys()[i])) matches Some(value) ==> value
            == group);
    }
}

proof fn lemma_no_foreign(args: Fields, group: Seq<char>, keys: Seq<Seq<char>>)
    requires
        foreign_value(args, group, keys) is None,
    ensures
        forall|i: int|
            0 <= i < keys.len() ==> (json::text_of(json::lookup(args, #[trigger] keys[i]))
                matches Some(value) ==> value == group),
    decreases keys.len(),
{
    if keys.len() > 0 {
        lemma_no_foreign(args, group, keys.drop_first());
        assert forall|i: int| 0 <= i < keys.len() implies (json::text_of(
            json::lookup(args, #[trigger] keys[i]),
        ) matches Some(value) ==> value == group) by {
            if i > 0 {
                assert(keys[i] == keys.drop_first()[i - 1]);
            }
        }
    }
}

/// The keys, put one by one, hold the group where they are forced.
proof fn lemma_fill_lookup(
    command: CommandView,
    group: Seq<char>,
    args: Fields,
    keys: Seq<Seq<char>>,
    asked: Seq<char>,
)
    requires
        keys.no_duplicates(),
    ensures
        json::lookup(fill(command, group, args, keys), asked) == (if keys.contains(asked)
            && forced(command, args, asked) {
            Some(JsonView::Text(group))
        } else {
            json::lookup(args, asked)
        }),
    decreases keys.len(),
{
    if keys.len() > 0 {
        let next = if forced(command, args, keys[0]) {
            json::put(args, keys[0], JsonView::Text(group))
        } else {
            args
        };
        let rest = keys.drop_first();
        assert(keys.skip(0) =~= keys);
        lemma_skip(keys, 0);
        assert(keys.skip(1) =~= rest);
        json::putting_sets_one_key(args, keys[0], JsonView::Text(group), asked);
        lemma_fill_lookup(command, group, next, rest, asked);
    }
}

/// A foreign value under one of the keys is found.
proof fn lemma_foreign_found(
    args: Fields,
    group: Seq<char>,
    keys: Seq<Seq<char>>,
    i: int,
    value: Seq<char>,
)
    requires
        0 <= i < keys.len(),
        json::text_of(json::lookup(args, keys[i])) == Some(value),
        value != group,
    ensures
        foreign_value(args, group, keys) is Some,
    decreases i,
{
    if i > 0 {
        lemma_foreign_found(args, group, keys.drop_first(), i - 1, value);
    }
}

/// An agent that is confined to its group reaches the group's own resources alone,
/// names no group but its own, in whichever argument it names one, and leaves its
/// scope as it is.
pub proof fn confined_agents_name_no_other_group(
    command: CommandView,
    group: Seq<char>,
    args: Fields,
    value: Seq<char>,
)
    requires
        value != group,
    ensures
        json::lookup(args, "id"@) == Some(JsonView::Text(value)) || json::lookup(args, "group"@)
            == Some(JsonView::Text(value)) || json::lookup(args, "agent_group"@) == Some(
            JsonView::Text(value),
        ) ==> (gated(CliScope::Group, command, group, args) matches Err(e) && e.code
            == ErrorCode::Forbidden),
        gated(CliScope::Group, command, group, args) is Ok ==> (command.resource == "groups"@
            || command.resource == "sessions"@ || command.resource == "destinations"@
            || command.resource == "members"@),
        declares(command.args, "cli_scope"@) && json::lookup(args, "cli_scope"@) is Some ==> gated(
            CliScope::Group,
            command,
            group,
            args,
        ) is Err,
        gated(CliScope::Group, command, group, args) matches Err(e) ==> e.code
            == ErrorCode::Forbidden,
{
    let keys = group_keys();
    if json::lookup(args, "id"@) == Some(JsonView::Text(value)) {
        lemma_foreign_found(args, group, keys, 0, value);
    }
    if json::lookup(args, "group"@) == Some(JsonView::Text(value)) {
        lemma_foreign_found(args, group, keys, 1, value);
    }
    if json::lookup(args, "agent_group"@) == Some(JsonView::Text(value)) {
        lemma_foreign_found(args, group, keys, 2, value);
    }
}

/// What a confined agent leaves out is filled in for it: the arguments of the
/// command that name a group name its own, and every other argument is passed on
/// as it is.
pub proof fn confined_agents_act_on_their_own_group(
    command: CommandView,
    group: Seq<char>,
    args: Fields,
    key: Seq<char>,
)
    ensures
        gated(CliScope::Group, command, group, args) matches Ok(out) ==> {
            &&& declares(command.args, key) && (key == "id"@ || key == "group"@ || key
                == "agent_group"@) ==> json::lookup(out, key) == Some(JsonView::Text(group))
            &&& key != "id"@ && key != "group"@ && key != "agent_group"@ ==> json::lookup(out, key)
                == json::lookup(args, key)
            &&& json::lookup(args, key) is None && !declares(command.args, key) ==> json::lookup(
                out,
                key,
            ) is None
        },
{
    lemma_keys_distinct();
    let keys = group_keys();
    assert(keys[0] == "id"@ && keys[1] == "group"@ && keys[2] == "agent_group"@);
    lemma_fill_lookup(command, group, args, keys, key);
    if refusal(CliScope::Group, command, group, args) is None {
        if json::text_of(json::lookup(args, key)) is Some {
            let value = json::text_of(json::lookup(args, key))->0;
            if value != group && keys.contains(key) {
                let i = choose|i: int| 0 <= i < keys.len() && keys[i] == key;
                lemma_foreign_found(args, group, keys, i, value);
            }
        }
    }
}

/// Agents that may act everywhere pass with their arguments as they are, and those
/// that may not act pass with none.
pub proof fn other_agents_pass_or_do_not(command: CommandView, group: Seq<char>, args: Fields)
    ensures
        gated(CliScope::Global, command, group, args) == Ok::<Fields, FrameErrorView>(args),
        gated(CliScope::Disabled, command, group, args) matches Err(e) && e.code
            == ErrorCode::Forbidden,
{
}

/// A command declares the arguments that it lists and no others.
pub proof fn what_is_listed_is_declared(args: Seq<ArgView>, i: int, name: Seq<char>)
    ensures
        0 <= i < args.len() ==> declares(args, args[i].name),
        (forall|k: int| 0 <= k < args.len() ==> (#[trigger] args[k]).name != name) ==> !declares(
            args,
            name,
        ),
{
}

} // verus!
