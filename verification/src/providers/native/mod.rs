//! The conversational agent that runs inside the daemon: one turn of it.

pub mod client;
pub mod context;
pub mod exec;
pub mod files;
pub mod tools;

use vstd::prelude::*;

use crate::mcp;
use crate::protocol::content;
use crate::protocol::content::{OutboundContent, Routing};
use crate::providers::{ProviderEvent, ProviderEventView};
use crate::session::{NewOutboundMessage, NewOutboundMessageView};
use crate::text;

use client::{
    ChatMessage, ChatMessageView, ClientError, Completion, ToolCall, ToolCallView,
};
use tools::ToolOutcome;

verus! {

broadcast use vstd::string::group_string_axioms;

/// Tokens of a conversation that a model is shown.
pub const CONTEXT_TOKEN_BUDGET: usize = 12000;

/// Entries of a conversation that are read.
pub const TRANSCRIPT_LIMIT: i64 = 400;

/// How often a model may call tools in one turn.
pub const MAX_TOOL_ROUNDS: usize = 6;

/// What an agent is seen to do when it calls a tool.
pub open spec fn action_of(name: Seq<char>) -> Seq<char> {
    if name == tools::BASH@ {
        "running a command"@
    } else if name == tools::READ@ {
        "reading a file"@
    } else if name == tools::WRITE@ {
        "writing a file"@
    } else if name == tools::EDIT@ {
        "editing a file"@
    } else if name == tools::SEND_MESSAGE@ {
        "writing a reply"@
    } else if name == tools::SCHEDULE_TASK@ {
        "scheduling a task"@
    } else if name == tools::LIST_TASKS@ || tools::names_a_task(name) {
        "managing tasks"@
    } else if name == tools::SEND_TO_AGENT@ {
        "messaging another agent"@
    } else if name == tools::ASK_USER_QUESTION@ {
        "asking a question"@
    } else if name == tools::ADMIN@ {
        "running an admin command"@
    } else {
        match text::cut(name, "__"@) {
            Some((_, tool)) => if tool == "search"@ {
                "searching the web"@
            } else if tool == "fetch"@ {
                "fetching a page"@
            } else if tool == "screenshot"@ {
                "taking a screenshot"@
            } else if tool == "interact"@ {
                "browsing"@
            } else {
                "calling "@ + tool
            },
            None => "calling "@ + name,
        }
    }
}

/// What an agent is seen to do when it calls a tool.
pub fn tool_action(name: &str) -> (r: String)
    ensures
        r@ == action_of(name@),
{
    let phrase = if text::same(name, tools::BASH) {
        "running a command"
    } else if text::same(name, tools::READ) {
        "reading a file"
    } else if text::same(name, tools::WRITE) {
        "writing a file"
    } else if text::same(name, tools::EDIT) {
        "editing a file"
    } else if text::same(name, tools::SEND_MESSAGE) {
        "writing a reply"
    } else if text::same(name, tools::SCHEDULE_TASK) {
        "scheduling a task"
    } else if text::same(name, tools::LIST_TASKS) || text::same(name, tools::CANCEL_TASK)
        || text::same(name, tools::PAUSE_TASK) || text::same(name, tools::RESUME_TASK) {
        "managing tasks"
    } else if text::same(name, tools::SEND_TO_AGENT) {
        "messaging another agent"
    } else if text::same(name, tools::ASK_USER_QUESTION) {
        "asking a question"
    } else if text::same(name, tools::ADMIN) {
        "running an admin command"
    } else {
        return match mcp::dequalify(name) {
            Some((_, tool)) => {
                if text::same(tool, "search") {
                    "searching the web".to_owned()
                } else if text::same(tool, "fetch") {
                    "fetching a page".to_owned()
                } else if text::same(tool, "screenshot") {
                    "taking a screenshot".to_owned()
                } else if text::same(tool, "interact") {
                    "browsing".to_owned()
                } else {
                    text::concat2("calling ", tool)
                }
            },
            None => text::concat2("calling ", name),
        };
    };
    phrase.to_owned()
}

/// The instructions of an agent, if its file holds any.
pub open spec fn instructions_of(content: Option<Seq<char>>) -> Option<Seq<char>> {
    match content {
        Some(s) => if text::blank(s) {
            None
        } else {
            Some(text::trimmed(s))
        },
        None => None,
    }
}

/// The instructions of an agent; `content` is what its file holds, if it could be
/// read.
pub fn read_agent_md(content: Option<&str>) -> (r: Option<String>)
    ensures
        text::opt_view(r) == instructions_of(text::opt_str_view(content)),
{
    match content {
        Some(s) => {
            if text::is_blank(s) {
                None
            } else {
                Some(text::trim(s))
            }
        },
        None => None,
    }
}

// ---------------------------------------------------------------------------
// A turn

/// Why a turn failed.
#[derive(Debug, PartialEq, Eq)]
pub struct TurnError {
    pub message: String,
    pub retryable: bool,
}

/// The failure that an error of the endpoint is.
pub fn turn_error(error: &ClientError) -> (r: TurnError)
    ensures
        r.message@ == client::error_text(error@),
        r.retryable == client::retryable(error@),
{
    TurnError { message: error.message(), retryable: error.is_retryable() }
}

/// A failure that a retry does not mend.
pub fn fatal(message: &str) -> (r: TurnError)
    ensures
        r.message@ == message@,
        !r.retryable,
{
    TurnError { message: message.to_owned(), retryable: false }
}

/// What a turn reports at its end: the agent has sent its messages itself, so
/// there is no text left to send.
pub fn turn_event(result: Result<(), TurnError>) -> (r: ProviderEvent)
    ensures
        r@ == (match result {
            Ok(_) => ProviderEventView::TurnEnd { text: None },
            Err(e) => ProviderEventView::Error { message: e.message@, retryable: e.retryable },
        }),
{
    match result {
        Ok(_) => ProviderEvent::TurnEnd { text: None },
        Err(e) => ProviderEvent::Error { message: e.message, retryable: e.retryable },
    }
}

/// What a turn does next.
pub enum TurnStep {
    /// Ask the model for a completion.
    Ask,
    /// Run these calls, in order, and hand back what came of each.
    Call(Vec<ToolCall>),
    /// Send this as the reply; the turn is over.
    Reply(NewOutboundMessage),
    /// The turn is over.
    Done,
}

/// The mathematical value of a [`TurnStep`].
pub enum StepView {
    Ask,
    Call(Seq<ToolCallView>),
    Reply(NewOutboundMessageView),
    Done,
}

impl TurnStep {
    pub open spec fn view(&self) -> StepView {
        match self {
            TurnStep::Ask => StepView::Ask,
            TurnStep::Call(calls) => StepView::Call(client::calls_view(calls@)),
            TurnStep::Reply(message) => StepView::Reply(message@),
            TurnStep::Done => StepView::Done,
        }
    }
}

/// The reply that a plain text of a model is: none where it says nothing, and none
/// where the agent has answered by a tool before.
pub open spec fn fallback(content: Option<Seq<char>>, produced: bool) -> StepView {
    match content {
        Some(said) => if produced || text::blank(said) {
            StepView::Done
        } else {
            StepView::Reply(
                tools::chat_message(
                    content::text_content(text::trimmed(said)),
                    content::open_routing(),
                ),
            )
        },
        None => StepView::Done,
    }
}

/// A turn of an agent under way.
pub struct Turn {
    messages: Vec<ChatMessage>,
    produced_message: bool,
    rounds: usize,
}

impl Turn {
    /// The conversation so far.
    pub closed spec fn conversation(&self) -> Seq<ChatMessageView> {
        client::messages_view(self.messages@)
    }

    /// Whether the agent has answered the user.
    pub closed spec fn produced(&self) -> bool {
        self.produced_message
    }

    /// How often the model has been asked.
    pub closed spec fn asked(&self) -> nat {
        self.rounds as nat
    }

    /// Begins a turn with what the model is shown.
    pub fn new(messages: Vec<ChatMessage>) -> (r: Self)
        ensures
            r.conversation() == client::messages_view(messages@),
            !r.produced(),
            r.asked() == 0,
    {
        Turn { messages, produced_message: false, rounds: 0 }
    }

    /// The conversation so far.
    pub fn messages(&self) -> (r: &Vec<ChatMessage>)
        ensures
            client::messages_view(r@) == self.conversation(),
    {
        &self.messages
    }

    /// What the turn does at the start of a round: it asks the model, until the
    /// rounds are used up.
    pub fn begin_round(&mut self) -> (r: TurnStep)
        ensures
            final(self).conversation() == old(self).conversation(),
            final(self).produced() == old(self).produced(),
            r@ == (if old(self).asked() < MAX_TOOL_ROUNDS {
                StepView::Ask
            } else {
                StepView::Done
            }),
            final(self).asked() == (if old(self).asked() < MAX_TOOL_ROUNDS {
                old(self).asked() + 1
            } else {
                old(self).asked()
            }),
    {
        if self.rounds < MAX_TOOL_ROUNDS {
            self.rounds = self.rounds + 1;
            TurnStep::Ask
        } else {
            TurnStep::Done
        }
    }

    /// What the turn does with a completion: it runs the calls, or, where there are
    /// none, takes the text for the reply.
    pub fn completed(&mut self, completion: Completion) -> (r: TurnStep)
        ensures
            final(self).produced() == old(self).produced(),
            final(self).asked() == old(self).asked(),
            ({
                let got = completion@;
                if got.tool_calls.len() == 0 {
                    &&& final(self).conversation() == old(self).conversation()
                    &&& r@ == fallback(got.content, old(self).produced())
                } else {
                    &&& r@ == StepView::Call(got.tool_calls)
                    &&& final(self).conversation() == old(self).conversation().push(
                        ChatMessageView {
                            role: client::Role::Assistant,
                            content: None,
                            tool_calls: got.tool_calls,
                            tool_call_id: None,
                        },
                    )
                }
            }),
    {
        assert(completion.tool_calls@.len() == completion@.tool_calls.len());
        if completion.tool_calls.len() == 0 {
            return finish_with_fallback(completion.content, self.produced_message);
        }
        let ghost was = self.conversation();
        let calls = client::clone_calls(&completion.tool_calls);
        let message = ChatMessage::assistant_tool_calls(completion.tool_calls);
        self.messages.push(message);
        assert(client::messages_view(self.messages@) =~= was.push(message@));
        TurnStep::Call(calls)
    }

    /// Hands the model what came of a call.
    pub fn called(&mut self, call: &ToolCall, outcome: ToolOutcome)
        ensures
            final(self).asked() == old(self).asked(),
            final(self).produced() == (old(self).produced() || outcome@.produced_message),
            final(self).conversation() == old(self).conversation().push(
                ChatMessageView {
                    role: client::Role::Tool,
                    content: Some(outcome@.result),
                    tool_calls: Seq::empty(),
                    tool_call_id: Some(call@.id),
                },
            ),
    {
        let ghost was = self.conversation();
        self.produced_message = self.produced_message || outcome.produced_message;
        let message = ChatMessage::tool_result(call.id.clone(), outcome.result);
        self.messages.push(message);
        assert(client::messages_view(self.messages@) =~= was.push(message@));
    }
}

fn finish_with_fallback(content: Option<String>, produced_message: bool) -> (r: TurnStep)
    ensures
        r@ == fallback(text::opt_view(content), produced_message),
{
    match content {
        Some(said) => {
            if produced_message || text::is_blank(&said) {
                return TurnStep::Done;
            }
            TurnStep::Reply(reply(&text::trim(&said)))
        },
        None => TurnStep::Done,
    }
}

/// The message that a plain text is sent as.
pub fn reply(said: &str) -> (r: NewOutboundMessage)
    ensures
        r@ == tools::chat_message(content::text_content(said@), content::open_routing()),
{
    let routing = Routing { channel_type: None, platform_id: None, thread_id: None };
    NewOutboundMessage::chat(OutboundContent::from_text(said).to_text(), routing)
}

// ---------------------------------------------------------------------------
// Laws

/// An agent that has answered by a tool does not answer a second time.
pub proof fn nobody_answers_twice(content: Option<Seq<char>>)
    ensures
        fallback(content, true) == StepView::Done,
{
}

/// Once a tool has answered the user, the turn sends no reply of its own, whatever
/// the model says after it.
pub fn a_turn_answers_once(
    turn: &mut Turn,
    call: &ToolCall,
    outcome: ToolOutcome,
    later: Completion,
) -> (r: TurnStep)
    requires
        outcome@.produced_message,
    ensures
        !(r@ is Reply),
        final(turn).produced(),
        final(turn).asked() == old(turn).asked(),
{
    turn.called(call, outcome);
    turn.completed(later)
}

/// A model that says nothing sends nothing.
pub proof fn silence_is_not_sent(content: Option<Seq<char>>, produced: bool)
    requires
        content matches Some(said) ==> text::blank(said),
    ensures
        fallback(content, produced) == StepView::Done,
{
}

/// What a model says at the end of its turn is sent, without the white space around
/// it, unless an answer was sent before.
pub proof fn last_words_are_sent(said: Seq<char>)
    requires
        !text::blank(said),
    ensures
        fallback(Some(said), false) matches StepView::Reply(message) && {
            &&& message.kind == "chat"@
            &&& message.content == crate::json::encoded(
                crate::json::JsonView::Object(
                    seq![("text"@, crate::json::JsonView::Text(text::trimmed(said)))],
                ),
            )
            &&& message.routing.channel_type is None
            &&& message.routing.platform_id is None
            &&& message.routing.thread_id is None
            &&& message.in_reply_to is None
        },
{
    let value = content::outbound_value(content::text_content(text::trimmed(said)));
    assert(value->Object_0 =~= seq![
        ("text"@, crate::json::JsonView::Text(text::trimmed(said))),
    ]);
}

/// The instructions of an agent are those of its file, without the white space around
/// them; a blank file gives none.
pub proof fn instructions_are_those_of_the_file(content: Seq<char>)
    ensures
        text::blank(content) ==> instructions_of(Some(content)) is None,
        !text::blank(content) ==> instructions_of(Some(content)) == Some(text::trimmed(content)),
        instructions_of(None) is None,
{
}

/// A model that calls a tool finds its call and the outcome at the end of the
/// conversation when it is asked again: first the calls, then the outcome under the
/// call's own identifier.
pub fn calls_and_outcomes_are_remembered(
    turn: &mut Turn,
    completion: Completion,
    call: &ToolCall,
    outcome: ToolOutcome,
) -> (r: TurnStep)
    requires
        completion@.tool_calls.len() > 0,
    ensures
        r@ == StepView::Call(completion@.tool_calls),
        ({
            let was = old(turn).conversation();
            let now = final(turn).conversation();
            &&& now.len() == was.len() + 2
            &&& now.take(was.len() as int) == was
            &&& now[was.len() as int].role == client::Role::Assistant
            &&& now[was.len() as int].tool_calls == completion@.tool_calls
            &&& now[was.len() as int].content is None
            &&& now.last().role == client::Role::Tool
            &&& now.last().content == Some(outcome@.result)
            &&& now.last().tool_call_id == Some(call@.id)
            &&& now.last().tool_calls.len() == 0
        }),
        final(turn).produced() == (old(turn).produced() || outcome@.produced_message),
        final(turn).asked() == old(turn).asked(),
{
    let ghost was = turn.conversation();
    let r = turn.completed(completion);
    turn.called(call, outcome);
    assert(turn.conversation().take(was.len() as int) =~= was);
    r
}

/// A turn asks the model at most six times.
pub fn turns_come_to_an_end(messages: Vec<ChatMessage>) -> (r: Vec<TurnStep>)
    ensures
        r@.len() == 7,
        forall|i: int| 0 <= i < 6 ==> (#[trigger] r@[i])@ == StepView::Ask,
        r@[6]@ == StepView::Done,
{
    let mut turn = Turn::new(messages);
    let mut steps: Vec<TurnStep> = Vec::new();
    let mut i: usize = 0;
    while i < 7
        invariant
            i <= 7,
            steps@.len() == i,
            turn.asked() == (if i < 6 {
                i as nat
            } else {
                6
            }),
            forall|j: int| 0 <= j < i && j < 6 ==> (#[trigger] steps@[j])@ == StepView::Ask,
            i == 7 ==> steps@[6]@ == StepView::Done,
        decreases 7 - i,
    {
        steps.push(turn.begin_round());
        i += 1;
    }
    steps
}

/// A turn that fails is reported with its message, and whether it is worth a retry; a
/// turn that ends is reported as ended.
pub fn failures_are_reported(error: &ClientError) -> (r: (ProviderEvent, ProviderEvent))
    ensures
        r.0@ == (ProviderEventView::TurnEnd { text: None }),
        r.1@ matches ProviderEventView::Error { message, retryable } && message
            == client::error_text(error@) && retryable == client::retryable(error@),
{
    (turn_event(Ok(())), turn_event(Err(turn_error(error))))
}

} // verus!
