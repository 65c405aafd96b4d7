//! What is written to pi, and what its lines report.

use vstd::prelude::*;

use crate::json;
use crate::json::{Json, JsonView};
use crate::providers::{ProviderEvent, ProviderEventView};
use crate::text;

verus! {

broadcast use vstd::string::group_string_axioms;

/// Why pi did not start.
#[derive(Debug, PartialEq, Eq)]
pub enum PiError {
    Spawn(String),
}

impl PiError {
    /// The error as one line of text.
    pub fn message(&self) -> (r: String)
        ensures
            r@ == "failed to spawn pi: "@ + (match self {
                PiError::Spawn(reason) => reason@,
            }),
    {
        match self {
            PiError::Spawn(reason) => text::concat2("failed to spawn pi: ", reason),
        }
    }
}

/// The line of a command, with a message if it takes one.
pub open spec fn line_of(kind: Seq<char>, message: Option<Seq<char>>) -> Seq<char> {
    let tail = ("type"@, JsonView::Text(kind));
    json::encoded(
        JsonView::Object(
            match message {
                Some(m) => seq![("message"@, JsonView::Text(m)), tail],
                None => seq![tail],
            },
        ),
    ) + "\n"@
}

fn message_line(kind: &str, message: &str) -> (r: String)
    ensures
        r@ == line_of(kind@, Some(message@)),
{
    let mut fields: Vec<(String, Json)> = Vec::new();
    json::add_field(&mut fields, "message", json::text_json(message));
    json::add_field(&mut fields, "type", json::text_json(kind));
    let value = json::object(fields);
    assert(value@->Object_0 =~= seq![
        ("message"@, JsonView::Text(message@)),
        ("type"@, JsonView::Text(kind@)),
    ]);
    text::concat2(&value.encode(), "\n")
}

/// The line that hands pi a prompt.
#[must_use]
pub fn prompt_line(message: &str) -> (r: String)
    ensures
        r@ == line_of("prompt"@, Some(message@)),
{
    message_line("prompt", message)
}

/// The line that hands pi a follow-up.
#[must_use]
pub fn follow_up_line(message: &str) -> (r: String)
    ensures
        r@ == line_of("follow_up"@, Some(message@)),
{
    message_line("follow_up", message)
}

/// The line that tells pi to stop.
#[must_use]
pub fn abort_line() -> (r: String)
    ensures
        r@ == line_of("abort"@, None),
{
    let mut fields: Vec<(String, Json)> = Vec::new();
    json::add_field(&mut fields, "type", json::text_json("abort"));
    let value = json::object(fields);
    assert(value@->Object_0 =~= seq![("type"@, JsonView::Text("abort"@))]);
    text::concat2(&value.encode(), "\n")
}

/// A text without white space around it; `None` where that leaves nothing.
pub open spec fn said(s: Seq<char>) -> Option<Seq<char>> {
    if text::blank(s) {
        None
    } else {
        Some(text::trimmed(s))
    }
}

fn non_empty(s: &str) -> (r: Option<String>)
    ensures
        text::opt_view(r) == said(s@),
{
    if text::is_blank(s) {
        None
    } else {
        Some(text::trim(s))
    }
}

/// Whether a value has a text under a key.
pub open spec fn says(value: JsonView, key: Seq<char>, wanted: Seq<char>) -> bool {
    json::get(value, key) == Some(JsonView::Text(wanted))
}

/// The texts of the text blocks of a message, one after another.
pub open spec fn block_texts(blocks: Seq<JsonView>) -> Seq<char>
    decreases blocks.len(),
{
    if blocks.len() == 0 {
        Seq::empty()
    } else {
        let before = block_texts(blocks.drop_last());
        let block = blocks.last();
        match json::get(block, "text"@) {
            Some(JsonView::Text(t)) => if says(block, "type"@, "text"@) {
                before + t
            } else {
                before
            },
            _ => before,
        }
    }
}

/// The text of a content, which is a text or a list of blocks.
pub open spec fn content_text(content: Option<JsonView>) -> Option<Seq<char>> {
    match content {
        Some(JsonView::Text(s)) => said(s),
        Some(JsonView::List(blocks)) => said(block_texts(blocks)),
        _ => None,
    }
}

/// The text of the last message of the assistant.
pub open spec fn last_text(messages: Seq<JsonView>) -> Option<Seq<char>>
    decreases messages.len(),
{
    if messages.len() == 0 {
        None
    } else if says(messages.last(), "role"@, "assistant"@) {
        content_text(json::get(messages.last(), "content"@))
    } else {
        last_text(messages.drop_last())
    }
}

/// What an event reports; `None` for what is not worth reporting.
pub open spec fn event_of(value: JsonView) -> Option<ProviderEventView> {
    match json::get(value, "type"@) {
        Some(JsonView::Text(kind)) => if kind == "agent_end"@ {
            Some(
                ProviderEventView::TurnEnd {
                    text: match json::get(value, "messages"@) {
                        Some(JsonView::List(messages)) => last_text(messages),
                        _ => None,
                    },
                },
            )
        } else if kind == "tool_execution_start"@ {
            Some(
                ProviderEventView::Progress {
                    message: "running "@ + (match json::get(value, "toolName"@) {
                        Some(JsonView::Text(tool)) => tool,
                        _ => "tool"@,
                    }),
                },
            )
        } else if kind == "error"@ {
            Some(
                ProviderEventView::Error {
                    message: match json::get(value, "message"@) {
                        Some(JsonView::Text(m)) => m,
                        _ => "pi reported an error"@,
                    },
                    retryable: false,
                },
            )
        } else if kind == "response"@ || kind == "queue_update"@ {
            None
        } else {
            Some(ProviderEventView::Activity)
        },
        _ => None,
    }
}

/// What a line of pi reports.
pub open spec fn report_of(line: Seq<char>) -> Option<ProviderEventView> {
    match json::parsed(line) {
        Ok(value) => event_of(value),
        Err(_) => None,
    }
}

fn says_text(value: &Json, key: &str, wanted: &str) -> (r: bool)
    ensures
        r == says(value@, key@, wanted@),
{
    match value.get(key) {
        Some(Json::Text(s)) => text::same(s, wanted),
        _ => false,
    }
}

fn join_blocks(blocks: &Vec<Json>) -> (r: String)
    ensures
        r@ == block_texts(json::items_view(blocks@)),
{
    let ghost all = json::items_view(blocks@);
    let mut out = String::new();
    let mut i: usize = 0;
    proof {
        assert(all.take(0) =~= Seq::empty());
        assert(out@ =~= Seq::empty());
    }
    while i < blocks.len()
        invariant
            i <= blocks@.len(),
            all == json::items_view(blocks@),
            out@ == block_texts(all.take(i as int)),
        decreases blocks@.len() - i,
    {
        proof {
            assert(all.take(i + 1).drop_last() =~= all.take(i as int));
            assert(all.take(i + 1).last() == blocks@[i as int]@);
        }
        match blocks[i].get("text") {
            Some(Json::Text(t)) => {
                if says_text(&blocks[i], "type", "text") {
                    out.append(t);
                }
            },
            _ => {},
        }
        i += 1;
    }
    assert(all.take(i as int) =~= all);
    out
}

fn final_assistant_text(messages: &Vec<Json>) -> (r: Option<String>)
    ensures
        text::opt_view(r) == last_text(json::items_view(messages@)),
{
    let ghost all = json::items_view(messages@);
    let mut i: usize = messages.len();
    assert(all.take(i as int) =~= all);
    while i > 0
        invariant
            i <= messages@.len(),
            all == json::items_view(messages@),
            last_text(all) == last_text(all.take(i as int)),
        decreases i,
    {
        proof {
            assert(all.take(i as int).drop_last() =~= all.take(i - 1));
            assert(all.take(i as int).last() == messages@[i - 1]@);
        }
        if says_text(&messages[i - 1], "role", "assistant") {
            return match messages[i - 1].get("content") {
                Some(Json::Text(s)) => non_empty(s),
                Some(Json::List(blocks)) => {
                    proof {
                        json::lemma_list_view(*blocks);
                    }
                    non_empty(&join_blocks(blocks))
                },
                _ => None,
            };
        }
        i -= 1;
    }
    None
}

fn text_at(value: &Json, key: &str, default: &str) -> (r: String)
    ensures
        r@ == (match json::get(value@, key@) {
            Some(JsonView::Text(s)) => s,
            _ => default@,
        }),
{
    match value.get(key) {
        Some(Json::Text(s)) => s.clone(),
        _ => default.to_owned(),
    }
}

/// What an event reports.
pub fn event(value: &Json) -> (r: Option<ProviderEvent>)
    ensures
        match r {
            Some(event) => event_of(value@) == Some(event@),
            None => event_of(value@) is None,
        },
{
    let kind = match value.get("type") {
        Some(Json::Text(kind)) => kind,
        _ => {
            return None;
        },
    };
    if text::same(kind, "agent_end") {
        let said = match value.get("messages") {
            Some(Json::List(messages)) => {
                proof {
                    json::lemma_list_view(*messages);
                }
                final_assistant_text(messages)
            },
            _ => None,
        };
        Some(ProviderEvent::TurnEnd { text: said })
    } else if text::same(kind, "tool_execution_start") {
        Some(
            ProviderEvent::Progress {
                message: text::concat2("running ", &text_at(value, "toolName", "tool")),
            },
        )
    } else if text::same(kind, "error") {
        Some(
            ProviderEvent::Error {
                message: text_at(value, "message", "pi reported an error"),
                retryable: false,
            },
        )
    } else if text::same(kind, "response") || text::same(kind, "queue_update") {
        None
    } else {
        Some(ProviderEvent::Activity)
    }
}

/// What a line of pi reports; `None` for a line that is malformed or not worth
/// reporting.
#[must_use]
pub fn translate(raw_line: &str) -> (r: Option<ProviderEvent>)
    ensures
        match r {
            Some(event) => report_of(raw_line@) == Some(event@),
            None => report_of(raw_line@) is None,
        },
{
    match Json::parse(raw_line) {
        Ok(value) => event(&value),
        Err(_) => None,
    }
}

// ---------------------------------------------------------------------------
// The end of a run

/// How many seconds pi has to end by itself once it is asked to.
pub const KILL_GRACE: u64 = 2;

/// How far the end of a run has come.
#[derive(Debug, Clone, Copy, PartialEq, Eq, Structural)]
pub enum Shutdown {
    /// Nobody asked for it: wait for pi to exit, or for an abort.
    Running,
    /// Ask pi to abort and to terminate, and wait for as long as it has.
    Asked,
    /// Kill pi, and wait for it to exit.
    Forced,
    /// Pi has exited.
    Over,
}

/// What happened to a run that may be ended.
#[derive(Debug, Clone, Copy, PartialEq, Eq, Structural)]
pub enum ShutdownEvent {
    Exited,
    Aborted,
    GraceOver,
}

/// How far the end of a run has come after an event.
pub open spec fn shutdown_after(stage: Shutdown, event: ShutdownEvent) -> Shutdown {
    match (stage, event) {
        (_, ShutdownEvent::Exited) => Shutdown::Over,
        (Shutdown::Running, ShutdownEvent::Aborted) => Shutdown::Asked,
        (Shutdown::Asked, ShutdownEvent::GraceOver) => Shutdown::Forced,
        _ => stage,
    }
}

impl Shutdown {
    /// Goes on after an event.
    pub fn advance(self, event: ShutdownEvent) -> (r: Self)
        ensures
            r == shutdown_after(self, event),
    {
        match (self, event) {
            (_, ShutdownEvent::Exited) => Shutdown::Over,
            (Shutdown::Running, ShutdownEvent::Aborted) => Shutdown::Asked,
            (Shutdown::Asked, ShutdownEvent::GraceOver) => Shutdown::Forced,
            _ => self,
        }
    }

    /// The line that pi is to read at this stage, if there is one.
    pub fn line(self) -> (r: Option<String>)
        ensures
            match r {
                Some(line) => self == Shutdown::Asked && line@ == line_of("abort"@, None),
                None => self != Shutdown::Asked,
            },
    {
        match self {
            Shutdown::Asked => Some(abort_line()),
            _ => None,
        }
    }
}

// ---------------------------------------------------------------------------
// Laws

/// Pi is killed only after it was asked to end and did not in time.
pub proof fn pi_is_asked_before_it_is_killed(stage: Shutdown, event: ShutdownEvent)
    requires
        stage != Shutdown::Forced,
        shutdown_after(stage, event) == Shutdown::Forced,
    ensures
        stage == Shutdown::Asked,
        event == ShutdownEvent::GraceOver,
{
}

/// A run that has ended stays so, and an abort always comes to an end.
pub proof fn aborts_come_to_an_end(event: ShutdownEvent)
    ensures
        shutdown_after(Shutdown::Over, event) == Shutdown::Over,
        ({
            let asked = shutdown_after(Shutdown::Running, ShutdownEvent::Aborted);
            let forced = shutdown_after(asked, ShutdownEvent::GraceOver);
            &&& shutdown_after(asked, ShutdownEvent::Exited) == Shutdown::Over
            &&& forced == Shutdown::Forced
            &&& shutdown_after(forced, ShutdownEvent::Exited) == Shutdown::Over
        }),
{
}

/// An error of pi ends the run: it is never worth a retry.
pub proof fn errors_are_never_retried(value: JsonView)
    ensures
        event_of(value) matches Some(ProviderEventView::Error { retryable, .. }) ==> !retryable,
{
}

/// A turn without a text of the assistant ends without one.
pub proof fn users_do_not_answer(messages: Seq<JsonView>)
    requires
        forall|i: int|
            0 <= i < messages.len() ==> !says(#[trigger] messages[i], "role"@, "assistant"@),
    ensures
        last_text(messages) is None,
    decreases messages.len(),
{
    if messages.len() > 0 {
        assert(!says(messages[messages.len() - 1], "role"@, "assistant"@));
        let init = messages.drop_last();
        assert forall|i: int| 0 <= i < init.len() implies !says(
            #[trigger] init[i],
            "role"@,
            "assistant"@,
        ) by {
            assert(init[i] == messages[i]);
        }
        users_do_not_answer(init);
    }
}

/// The turn ends with what the assistant said last, whatever stood before it and
/// whatever others said after it.
pub proof fn the_last_word_of_the_assistant_counts(messages: Seq<JsonView>, i: int)
    requires
        0 <= i < messages.len(),
        json::get(messages[i], "role"@) == Some(JsonView::Text("assistant"@)),
        forall|j: int|
            i < j < messages.len() ==> json::get(#[trigger] messages[j], "role"@) != Some(
                JsonView::Text("assistant"@),
            ),
    ensures
        last_text(messages) == content_text(json::get(messages[i], "content"@)),
        forall|fields: json::Fields|
            {
                &&& json::lookup(fields, "type"@) == Some(JsonView::Text("agent_end"@))
                &&& json::lookup(fields, "messages"@) == Some(JsonView::List(messages))
            } ==> #[trigger] event_of(JsonView::Object(fields)) == Some(
                ProviderEventView::TurnEnd {
                    text: content_text(json::get(messages[i], "content"@)),
                },
            ),
    decreases messages.len(),
{
    if i < messages.len() - 1 {
        assert(!says(messages[messages.len() - 1], "role"@, "assistant"@));
        let init = messages.drop_last();
        assert forall|j: int| i < j < init.len() implies json::get(#[trigger] init[j], "role"@)
            != Some(JsonView::Text("assistant"@)) by {
            assert(init[j] == messages[j]);
        }
        the_last_word_of_the_assistant_counts(init, i);
    }
}

/// What stands before what the assistant said last does not matter.
pub proof fn earlier_messages_do_not_matter(
    a: Seq<JsonView>,
    b: Seq<JsonView>,
    rest: Seq<JsonView>,
    i: int,
)
    requires
        0 <= i < rest.len(),
        json::get(rest[i], "role"@) == Some(JsonView::Text("assistant"@)),
    ensures
        last_text(a + rest) == last_text(b + rest),
    decreases rest.len(),
{
    let init = rest.drop_last();
    assert((a + rest).drop_last() =~= a + init);
    assert((b + rest).drop_last() =~= b + init);
    if i < rest.len() - 1 {
        assert(init[i] == rest[i]);
        earlier_messages_do_not_matter(a, b, init, i);
    }
}

/// A content that is a text is said as it is, without the white space around it;
/// one that is blank says nothing.
pub proof fn texts_are_said_trimmed(said: Seq<char>)
    ensures
        text::blank(said) ==> content_text(Some(JsonView::Text(said))) is None,
        !text::blank(said) ==> content_text(Some(JsonView::Text(said))) == Some(
            text::trimmed(said),
        ),
        content_text(None) is None,
{
}

/// A further text block is said behind the others, and a block of any other type
/// is not said at all.
pub proof fn text_blocks_are_said_in_order(blocks: Seq<JsonView>, block: JsonView)
    ensures
        block_texts(Seq::empty()).len() == 0,
        json::get(block, "type"@) == Some(JsonView::Text("text"@)) ==> (json::get(
            block,
            "text"@,
        ) matches Some(JsonView::Text(t)) ==> block_texts(blocks.push(block)) == block_texts(blocks)
            + t),
        json::get(block, "type"@) != Some(JsonView::Text("text"@)) ==> block_texts(
            blocks.push(block),
        ) == block_texts(blocks),
        !(json::get(block, "text"@) matches Some(JsonView::Text(_))) ==> block_texts(
            blocks.push(block),
        ) == block_texts(blocks),
        content_text(Some(JsonView::List(blocks))) == content_text(
            Some(JsonView::Text(block_texts(blocks))),
        ),
{
    assert(blocks.push(block).drop_last() =~= blocks);
}

/// What pi reports is told by its type: a tool that starts is progress that names the
/// tool, an error carries its message, answers to commands are no events, and
/// anything else is a sign of life.
pub proof fn events_are_told_by_their_type(fields: json::Fields, kind: Seq<char>)
    requires
        json::lookup(fields, "type"@) == Some(JsonView::Text(kind)),
    ensures
        ({
            let event = event_of(JsonView::Object(fields));
            &&& kind == "agent_end"@ ==> (event matches Some(ProviderEventView::TurnEnd { .. }))
            &&& kind == "tool_execution_start"@ ==> (json::lookup(fields, "toolName"@) matches Some(
                JsonView::Text(tool),
            ) ==> event == Some(ProviderEventView::Progress { message: "running "@ + tool }))
            &&& kind == "error"@ ==> (json::lookup(fields, "message"@) matches Some(
                JsonView::Text(m),
            ) ==> (event matches Some(ProviderEventView::Error { message, retryable }) && message
                == m && !retryable))
            &&& kind == "response"@ || kind == "queue_update"@ ==> event is None
            &&& !(kind == "agent_end"@ || kind == "tool_execution_start"@ || kind == "error"@ || kind
                == "response"@ || kind == "queue_update"@) ==> event == Some(
                ProviderEventView::Activity,
            )
        }),
{
    reveal_strlit("agent_end");
    reveal_strlit("tool_execution_start");
    reveal_strlit("error");
    reveal_strlit("response");
    reveal_strlit("queue_update");
    assert("agent_end"@.len() == 9);
    assert("tool_execution_start"@.len() == 20);
    assert("error"@.len() == 5);
    assert("response"@.len() == 8);
    assert("queue_update"@.len() == 12);
}

/// Each command that pi is given is a line of its own that holds its type, and its
/// message where it takes one.
pub fn lines_carry_their_message(message: &str) -> (r: (String, String, String))
    ensures
        r.0@ == json::encoded(
            JsonView::Object(
                seq![("message"@, JsonView::Text(message@)), ("type"@, JsonView::Text("prompt"@))],
            ),
        ) + "\n"@,
        r.1@ == json::encoded(
            JsonView::Object(
                seq![
                    ("message"@, JsonView::Text(message@)),
                    ("type"@, JsonView::Text("follow_up"@)),
                ],
            ),
        ) + "\n"@,
        r.2@ == json::encoded(JsonView::Object(seq![("type"@, JsonView::Text("abort"@))])) + "\n"@,
{
    (prompt_line(message), follow_up_line(message), abort_line())
}

} // verus!
