//! What is asked of a chat-completion endpoint, and what its replies mean.

use vstd::prelude::*;

use crate::json;
use crate::json::{Json, JsonView};
use crate::protocol::ParseEnumError;
use crate::providers::resolution::ResolvedInference;
use crate::text;

verus! {

broadcast use vstd::string::group_string_axioms;

/// Seconds that a completion may take.
pub const COMPLETION_TIMEOUT: u64 = 300;

/// Bytes of a refusal that are kept.
pub const KEPT_BODY: usize = 500;

/// Who a message of a chat is from.
#[derive(Debug, Clone, Copy, PartialEq, Eq, Hash, Structural)]
pub enum Role {
    System,
    User,
    Assistant,
    Tool,
}

impl Role {
    /// The text by which the value is stored and shown.
    pub open spec fn text(self) -> Seq<char> {
        match self {
            Role::System => "system"@,
            Role::User => "user"@,
            Role::Assistant => "assistant"@,
            Role::Tool => "tool"@,
        }
    }

    /// No two values share a text.
    pub proof fn texts_differ(a: Role, b: Role)
        ensures
            a.text() == b.text() ==> a == b,
    {
        reveal_strlit("system");
        reveal_strlit("user");
        reveal_strlit("assistant");
        reveal_strlit("tool");
        if a != b && a.text() == b.text() {
            assert(a.text().len() == b.text().len());
            assert(a.text()[0] == b.text()[0]);
        }
    }

    /// Every value, in order of declaration.
    pub fn all() -> (r: Vec<Role>)
        ensures
            r@ == seq![Role::System, Role::User, Role::Assistant, Role::Tool],
            forall|v: Role| #[trigger] r@.contains(v),
    {
        let r = vec![Role::System, Role::User, Role::Assistant, Role::Tool];
        proof {
            assert(r@[0] == Role::System);
            assert(r@[1] == Role::User);
            assert(r@[2] == Role::Assistant);
            assert(r@[3] == Role::Tool);
        }
        r
    }

    /// The text by which the value is stored and shown.
    pub fn as_str(self) -> (r: &'static str)
        ensures
            r@ == self.text(),
    {
        match self {
            Role::System => "system",
            Role::User => "user",
            Role::Assistant => "assistant",
            Role::Tool => "tool",
        }
    }

    /// The value with the given text; any other text is refused.
    pub fn parse(value: &str) -> (r: Result<Role, ParseEnumError>)
        ensures
            forall|v: Role| #[trigger] v.text() == value@ ==> r == Ok::<Role, ParseEnumError>(v),
            match r {
                Ok(v) => v.text() == value@,
                Err(e) => e.type_label@ == "Role"@ && e.value@ == value@,
            },
    {
        let r = if text::same(value, "system") {
            Ok(Role::System)
        } else if text::same(value, "user") {
            Ok(Role::User)
        } else if text::same(value, "assistant") {
            Ok(Role::Assistant)
        } else if text::same(value, "tool") {
            Ok(Role::Tool)
        } else {
            Err(ParseEnumError { type_label: "Role", value: value.to_owned() })
        };
        proof {
            assert forall|v: Role| #[trigger] v.text() == value@ implies r == Ok::<Role, ParseEnumError>(v) by {
                if r is Ok {
                    Role::texts_differ(v, r->Ok_0);
                }
            }
        }
        r
    }
}

impl std::str::FromStr for Role {
    type Err = ParseEnumError;

    fn from_str(value: &str) -> Result<Self, ParseEnumError> {
        Role::parse(value)
    }
}

/// The function that a model calls, and its arguments as JSON text.
#[derive(Debug, PartialEq, Eq)]
pub struct FunctionCall {
    pub name: String,
    pub arguments: String,
}

/// The mathematical value of a [`FunctionCall`].
#[verifier::ext_equal]
pub struct FunctionCallView {
    pub name: Seq<char>,
    pub arguments: Seq<char>,
}

impl FunctionCall {
    pub open spec fn view(&self) -> FunctionCallView {
        FunctionCallView {
            name: self.name@,
            arguments: self.arguments@,
        }
    }
}

impl Clone for FunctionCall {
    fn clone(&self) -> (r: Self)
        ensures
            r == *self,
    {
        FunctionCall {
            name: self.name.clone(),
            arguments: self.arguments.clone(),
        }
    }
}

/// A call of a tool by a model.
#[derive(Debug, PartialEq, Eq)]
pub struct ToolCall {
    pub id: String,
    pub call_type: String,
    pub function: FunctionCall,
}

/// The mathematical value of a [`ToolCall`].
#[verifier::ext_equal]
pub struct ToolCallView {
    pub id: Seq<char>,
    pub call_type: Seq<char>,
    pub function: FunctionCallView,
}

impl ToolCall {
    pub open spec fn view(&self) -> ToolCallView {
        ToolCallView {
            id: self.id@,
            call_type: self.call_type@,
            function: self.function@,
        }
    }
}

impl Clone for ToolCall {
    fn clone(&self) -> (r: Self)
        ensures
            r == *self,
    {
        ToolCall {
            id: self.id.clone(),
            call_type: self.call_type.clone(),
            function: self.function.clone(),
        }
    }
}


/// The mathematical values of some calls.
pub open spec fn calls_view(list: Seq<ToolCall>) -> Seq<ToolCallView> {
    list.map_values(|c: ToolCall| c@)
}

/// A copy of some calls.
pub fn clone_calls(list: &Vec<ToolCall>) -> (r: Vec<ToolCall>)
    ensures
        r@ == list@,
{
    let mut out: Vec<ToolCall> = Vec::new();
    let mut i: usize = 0;
    while i < list.len()
        invariant
            i <= list@.len(),
            out@ == list@.take(i as int),
        decreases list@.len() - i,
    {
        out.push(list[i].clone());
        assert(out@ =~= list@.take(i + 1));
        i += 1;
    }
    assert(list@.take(i as int) =~= list@);
    out
}

/// A message of a chat with a model.
#[derive(Debug, PartialEq, Eq)]
pub struct ChatMessage {
    pub role: Role,
    pub content: Option<String>,
    /// The tools that the model calls with this message.
    pub tool_calls: Vec<ToolCall>,
    /// The call that this message is the result of.
    pub tool_call_id: Option<String>,
}

/// The mathematical value of a [`ChatMessage`].
#[verifier::ext_equal]
pub struct ChatMessageView {
    pub role: Role,
    pub content: Option<Seq<char>>,
    pub tool_calls: Seq<ToolCallView>,
    pub tool_call_id: Option<Seq<char>>,
}

/// A message that is a text.
pub open spec fn plain_message(role: Role, content: Seq<char>) -> ChatMessageView {
    ChatMessageView {
        role,
        content: Some(content),
        tool_calls: Seq::empty(),
        tool_call_id: None,
    }
}

/// The mathematical values of some messages.
pub open spec fn messages_view(list: Seq<ChatMessage>) -> Seq<ChatMessageView> {
    list.map_values(|m: ChatMessage| m@)
}

impl ChatMessage {
    pub open spec fn view(&self) -> ChatMessageView {
        ChatMessageView {
            role: self.role,
            content: text::opt_view(self.content),
            tool_calls: calls_view(self.tool_calls@),
            tool_call_id: text::opt_view(self.tool_call_id),
        }
    }

    /// A message that is a text.
    #[must_use]
    pub fn new(role: Role, content: &str) -> (r: Self)
        ensures
            r@ == plain_message(role, content@),
    {
        let r = ChatMessage {
            role,
            content: Some(content.to_owned()),
            tool_calls: Vec::new(),
            tool_call_id: None,
        };
        assert(r@.tool_calls =~= Seq::empty());
        r
    }

    /// The message by which a model calls tools.
    pub fn assistant_tool_calls(calls: Vec<ToolCall>) -> (r: Self)
        ensures
            r@ == (ChatMessageView {
                role: Role::Assistant,
                content: None,
                tool_calls: calls_view(calls@),
                tool_call_id: None,
            }),
    {
        ChatMessage { role: Role::Assistant, content: None, tool_calls: calls, tool_call_id: None }
    }

    /// The message that hands a model the result of a call.
    pub fn tool_result(call_id: String, result: String) -> (r: Self)
        ensures
            r@ == (ChatMessageView {
                role: Role::Tool,
                content: Some(result@),
                tool_calls: Seq::empty(),
                tool_call_id: Some(call_id@),
            }),
    {
        let r = ChatMessage {
            role: Role::Tool,
            content: Some(result),
            tool_calls: Vec::new(),
            tool_call_id: Some(call_id),
        };
        assert(r@.tool_calls =~= Seq::empty());
        r
    }
}

/// What a tool takes: its name, what it is for, and the schema of its arguments.
#[derive(Debug, PartialEq, Eq)]
pub struct FunctionSpec {
    pub name: String,
    pub description: String,
    pub parameters: Json,
}

/// A tool as it is offered to a model.
#[derive(Debug, PartialEq, Eq)]
pub struct ToolDefinition {
    pub function: FunctionSpec,
}

/// The mathematical value of a [`ToolDefinition`].
#[verifier::ext_equal]
pub struct ToolDefinitionView {
    pub name: Seq<char>,
    pub description: Seq<char>,
    pub parameters: JsonView,
}

/// The mathematical values of some tools.
pub open spec fn definitions_view(list: Seq<ToolDefinition>) -> Seq<ToolDefinitionView> {
    list.map_values(|d: ToolDefinition| d@)
}

impl ToolDefinition {
    pub open spec fn view(&self) -> ToolDefinitionView {
        ToolDefinitionView {
            name: self.function.name@,
            description: self.function.description@,
            parameters: self.function.parameters@,
        }
    }

    /// A tool that is a function.
    pub fn function(name: &str, description: &str, parameters: Json) -> (r: Self)
        ensures
            r@ == (ToolDefinitionView {
                name: name@,
                description: description@,
                parameters: parameters@,
            }),
    {
        ToolDefinition {
            function: FunctionSpec {
                name: name.to_owned(),
                description: description.to_owned(),
                parameters,
            },
        }
    }
}

// ---------------------------------------------------------------------------
// Errors

/// Why there is no completion.
#[derive(Debug, PartialEq, Eq)]
pub enum ClientError {
    Transport(String),
    Api { status: u16, body: String },
    Malformed(String),
}

/// The mathematical value of a [`ClientError`].
#[verifier::ext_equal]
pub enum ClientErrorView {
    Transport(Seq<char>),
    Api { status: u16, body: Seq<char> },
    Malformed(Seq<char>),
}

/// Whether trying again may help: after a failure of the network or of the server
/// it may, after a refusal it does not.
pub open spec fn retryable(e: ClientErrorView) -> bool {
    match e {
        ClientErrorView::Transport(_) => true,
        ClientErrorView::Api { status, .. } => status >= 500,
        ClientErrorView::Malformed(_) => false,
    }
}

/// An error as one line of text.
pub open spec fn error_text(e: ClientErrorView) -> Seq<char> {
    match e {
        ClientErrorView::Transport(reason) => "request failed: "@ + reason,
        ClientErrorView::Api { status, body } => "api returned "@ + text::decimal(status as int)
            + ": "@ + body,
        ClientErrorView::Malformed(reason) => "malformed completion response: "@ + reason,
    }
}

impl ClientError {
    pub open spec fn view(&self) -> ClientErrorView {
        match self {
            ClientError::Transport(reason) => ClientErrorView::Transport(reason@),
            ClientError::Api { status, body } => ClientErrorView::Api {
                status: *status,
                body: body@,
            },
            ClientError::Malformed(reason) => ClientErrorView::Malformed(reason@),
        }
    }

    /// Whether trying again may help.
    #[must_use]
    pub fn is_retryable(&self) -> (r: bool)
        ensures
            r == retryable(self@),
    {
        match self {
            ClientError::Transport(_) => true,
            ClientError::Api { status, .. } => *status >= 500,
            ClientError::Malformed(_) => false,
        }
    }

    /// The error as one line of text.
    pub fn message(&self) -> (r: String)
        ensures
            r@ == error_text(self@),
    {
        match self {
            ClientError::Transport(reason) => text::concat2("request failed: ", reason),
            ClientError::Api { status, body } => {
                let mut out = text::concat3(
                    "api returned ",
                    &text::decimal_u64(*status as u64),
                    ": ",
                );
                out.append(body);
                out
            },
            ClientError::Malformed(reason) => text::concat2(
                "malformed completion response: ",
                reason,
            ),
        }
    }
}

/// The beginning of a text that is too long: the characters that begin within the
/// first `max` bytes, and an ellipsis.
pub open spec fn shortened(s: Seq<char>, max: int) -> Seq<char> {
    if text::bytes(s) <= max {
        s
    } else {
        s.take(text::chars_reaching(s, max)) + "…"@
    }
}

/// The beginning of a text that is too long.
pub fn truncate(s: &str, max: usize) -> (r: String)
    ensures
        r@ == shortened(s@, max as int),
{
    if text::byte_len(s) <= max {
        return s.to_owned();
    }
    let k: usize = text::count_reaching(s, max);
    let letters = text::chars(s);
    let head = text::slice(&letters, 0, k);
    assert(head@ =~= s@.take(k as int));
    text::concat2(&head, "…")
}

// ---------------------------------------------------------------------------
// Requests

/// A call as it is sent.
pub open spec fn call_value(c: ToolCallView) -> JsonView {
    JsonView::Object(
        seq![
            ("id"@, JsonView::Text(c.id)),
            ("type"@, JsonView::Text(c.call_type)),
            (
                "function"@,
                JsonView::Object(
                    seq![
                        ("name"@, JsonView::Text(c.function.name)),
                        ("arguments"@, JsonView::Text(c.function.arguments)),
                    ],
                ),
            ),
        ],
    )
}

/// A text as a value, if there is one.
pub open spec fn maybe(s: Option<Seq<char>>) -> Option<JsonView> {
    match s {
        Some(t) => Some(JsonView::Text(t)),
        None => None,
    }
}

/// A message as it is sent; what it lacks is left out.
pub open spec fn message_value(m: ChatMessageView) -> JsonView {
    let f1 = seq![("role"@, JsonView::Text(m.role.text()))];
    let f2 = json::with(f1, "content"@, maybe(m.content));
    let f3 = json::with(
        f2,
        "tool_calls"@,
        if m.tool_calls.len() == 0 {
            None
        } else {
            Some(JsonView::List(m.tool_calls.map_values(|c: ToolCallView| call_value(c))))
        },
    );
    JsonView::Object(json::with(f3, "tool_call_id"@, maybe(m.tool_call_id)))
}

/// A tool as it is sent.
pub open spec fn definition_value(d: ToolDefinitionView) -> JsonView {
    JsonView::Object(
        seq![
            ("type"@, JsonView::Text("function"@)),
            (
                "function"@,
                JsonView::Object(
                    seq![
                        ("name"@, JsonView::Text(d.name)),
                        ("description"@, JsonView::Text(d.description)),
                        ("parameters"@, d.parameters),
                    ],
                ),
            ),
        ],
    )
}

/// The body of a request.
pub open spec fn body_value(
    model: Seq<char>,
    messages: Seq<ChatMessageView>,
    tools: Seq<ToolDefinitionView>,
) -> JsonView {
    let head = seq![
        ("model"@, JsonView::Text(model)),
        ("messages"@, JsonView::List(messages.map_values(|m: ChatMessageView| message_value(m)))),
    ];
    JsonView::Object(
        json::with(
            head,
            "tools"@,
            if tools.len() == 0 {
                None
            } else {
                Some(JsonView::List(tools.map_values(|d: ToolDefinitionView| definition_value(d))))
            },
        ),
    )
}

fn call_json(call: &ToolCall) -> (r: Json)
    ensures
        r@ == call_value(call@),
{
    let mut function: Vec<(String, Json)> = Vec::new();
    json::add_field(&mut function, "name", json::text_json(&call.function.name));
    json::add_field(&mut function, "arguments", json::text_json(&call.function.arguments));
    let inner = json::object(function);
    assert(inner@->Object_0 =~= call_value(call@)->Object_0[2].1->Object_0);
    let mut fields: Vec<(String, Json)> = Vec::new();
    json::add_field(&mut fields, "id", json::text_json(&call.id));
    json::add_field(&mut fields, "type", json::text_json(&call.call_type));
    json::add_field(&mut fields, "function", inner);
    let value = json::object(fields);
    assert(value@->Object_0 =~= call_value(call@)->Object_0);
    value
}

fn calls_json(calls: &Vec<ToolCall>) -> (r: Json)
    ensures
        r@ == JsonView::List(calls_view(calls@).map_values(|c: ToolCallView| call_value(c))),
{
    let mut items: Vec<Json> = Vec::new();
    let mut i: usize = 0;
    while i < calls.len()
        invariant
            i <= calls@.len(),
            items@.len() == i,
            forall|j: int| 0 <= j < i ==> (#[trigger] items@[j])@ == call_value(calls@[j]@),
        decreases calls@.len() - i,
    {
        items.push(call_json(&calls[i]));
        i += 1;
    }
    proof {
        json::lemma_list_view(items);
        assert(json::items_view(items@) =~= calls_view(calls@).map_values(
            |c: ToolCallView| call_value(c),
        ));
    }
    Json::List(items)
}

fn maybe_json(s: &Option<String>) -> (r: Option<Json>)
    ensures
        maybe(text::opt_view(*s)) == (match r {
            Some(v) => Some(v@),
            None => None,
        }),
{
    match s {
        Some(t) => Some(json::text_json(t)),
        None => None,
    }
}

impl ChatMessage {
    /// The message as a JSON value.
    pub fn to_value(&self) -> (r: Json)
        ensures
            r@ == message_value(self@),
    {
        let mut fields: Vec<(String, Json)> = Vec::new();
        json::add_field(&mut fields, "role", json::text_json(self.role.as_str()));
        assert(json::fields_view(fields@) =~= seq![("role"@, JsonView::Text(self@.role.text()))]);
        json::add_optional(&mut fields, "content", maybe_json(&self.content));
        if self.tool_calls.len() == 0 {
            json::add_optional(&mut fields, "tool_calls", None);
        } else {
            json::add_optional(&mut fields, "tool_calls", Some(calls_json(&self.tool_calls)));
        }
        json::add_optional(&mut fields, "tool_call_id", maybe_json(&self.tool_call_id));
        json::object(fields)
    }
}

impl ToolDefinition {
    /// The tool as a JSON value.
    pub fn to_value(&self) -> (r: Json)
        ensures
            r@ == definition_value(self@),
    {
        let mut function: Vec<(String, Json)> = Vec::new();
        json::add_field(&mut function, "name", json::text_json(&self.function.name));
        json::add_field(&mut function, "description", json::text_json(&self.function.description));
        json::add_field(&mut function, "parameters", self.function.parameters.copy());
        let inner = json::object(function);
        assert(inner@->Object_0 =~= definition_value(self@)->Object_0[1].1->Object_0);
        let mut fields: Vec<(String, Json)> = Vec::new();
        json::add_field(&mut fields, "type", json::text_json("function"));
        json::add_field(&mut fields, "function", inner);
        let value = json::object(fields);
        assert(value@->Object_0 =~= definition_value(self@)->Object_0);
        value
    }
}

fn messages_json(messages: &Vec<ChatMessage>) -> (r: Json)
    ensures
        r@ == JsonView::List(
            messages_view(messages@).map_values(|m: ChatMessageView| message_value(m)),
        ),
{
    let mut items: Vec<Json> = Vec::new();
    let mut i: usize = 0;
    while i < messages.len()
        invariant
            i <= messages@.len(),
            items@.len() == i,
            forall|j: int| 0 <= j < i ==> (#[trigger] items@[j])@ == message_value(messages@[j]@),
        decreases messages@.len() - i,
    {
        items.push(messages[i].to_value());
        i += 1;
    }
    proof {
        json::lemma_list_view(items);
        assert(json::items_view(items@) =~= messages_view(messages@).map_values(
            |m: ChatMessageView| message_value(m),
        ));
    }
    Json::List(items)
}

fn tools_json(tools: &Vec<ToolDefinition>) -> (r: Json)
    ensures
        r@ == JsonView::List(
            definitions_view(tools@).map_values(|d: ToolDefinitionView| definition_value(d)),
        ),
{
    let mut items: Vec<Json> = Vec::new();
    let mut i: usize = 0;
    while i < tools.len()
        invariant
            i <= tools@.len(),
            items@.len() == i,
            forall|j: int| 0 <= j < i ==> (#[trigger] items@[j])@ == definition_value(tools@[j]@),
        decreases tools@.len() - i,
    {
        items.push(tools[i].to_value());
        i += 1;
    }
    proof {
        json::lemma_list_view(items);
        assert(json::items_view(items@) =~= definitions_view(tools@).map_values(
            |d: ToolDefinitionView| definition_value(d),
        ));
    }
    Json::List(items)
}

// ---------------------------------------------------------------------------
// Replies

/// What a model answered: a text, calls of tools, or both.
#[derive(Debug, PartialEq, Eq)]
pub struct Completion {
    pub content: Option<String>,
    pub tool_calls: Vec<ToolCall>,
}

/// The mathematical value of a [`Completion`].
#[verifier::ext_equal]
pub struct CompletionView {
    pub content: Option<Seq<char>>,
    pub tool_calls: Seq<ToolCallView>,
}

impl Completion {
    pub open spec fn view(&self) -> CompletionView {
        CompletionView {
            content: text::opt_view(self.content),
            tool_calls: calls_view(self.tool_calls@),
        }
    }
}

/// The call that a value is; a call without a type is one of a function.
pub open spec fn call_of(value: JsonView) -> Option<ToolCallView> {
    let id = json::text_of(json::part(value, 0, "id"@));
    let call_type = match json::part(value, 1, "type"@) {
        None => Some("function"@),
        given => json::text_of(given),
    };
    let function = json::part(value, 2, "function"@);
    match function {
        None => None,
        Some(f) => {
            let name = json::text_of(json::part(f, 0, "name"@));
            let arguments = json::text_of(json::part(f, 1, "arguments"@));
            if json::is_record(value, 3) && json::is_record(f, 2) && id is Some && call_type is Some
                && name is Some && arguments is Some {
                Some(
                    ToolCallView {
                        id: id->0,
                        call_type: call_type->0,
                        function: FunctionCallView { name: name->0, arguments: arguments->0 },
                    },
                )
            } else {
                None
            }
        },
    }
}

/// The calls of a message: none where it has no list; `None` where one of them is
/// malformed.
pub open spec fn calls_of(value: Option<JsonView>) -> Option<Seq<ToolCallView>> {
    match value {
        None => Some(Seq::empty()),
        Some(JsonView::Null) => Some(Seq::empty()),
        Some(JsonView::List(items)) => if forall|i: int|
            0 <= i < items.len() ==> call_of(#[trigger] items[i]) is Some {
            Some(items.map_values(|item: JsonView| call_of(item)->0))
        } else {
            None
        },
        Some(_) => None,
    }
}

/// The answer that a choice is.
pub open spec fn choice_of(value: JsonView) -> Option<CompletionView> {
    match json::part(value, 0, "message"@) {
        None => None,
        Some(message) => {
            let content = json::optional_text(json::part(message, 0, "content"@));
            let calls = calls_of(json::part(message, 1, "tool_calls"@));
            if json::is_record(value, 1) && json::is_record(message, 2) && content is Some && calls
                is Some {
                Some(CompletionView { content: content->0, tool_calls: calls->0 })
            } else {
                None
            }
        },
    }
}

/// The answer of a reply, which is its first choice, or what is wrong with it.
pub open spec fn completion_of(value: JsonView) -> Result<CompletionView, Seq<char>> {
    match json::part(value, 0, "choices"@) {
        Some(JsonView::List(items)) => if !json::is_record(value, 1) || exists|i: int|
            0 <= i < items.len() && choice_of(#[trigger] items[i]) is None {
            Err("unexpected shape"@)
        } else if items.len() == 0 {
            Err("response has no choices"@)
        } else {
            Ok(choice_of(items[0])->0)
        },
        _ => Err("unexpected shape"@),
    }
}

/// What a reply comes to: a status without success is a refusal, with the
/// beginning of its body.
pub open spec fn reply_of(status: u16, body: Seq<char>) -> Result<CompletionView, ClientErrorView> {
    if !(200 <= status < 300) {
        Err(ClientErrorView::Api { status, body: shortened(body, KEPT_BODY as int) })
    } else {
        match json::parsed(body) {
            Err(reason) => Err(ClientErrorView::Malformed(reason)),
            Ok(value) => match completion_of(value) {
                Ok(completion) => Ok(completion),
                Err(reason) => Err(ClientErrorView::Malformed(reason)),
            },
        }
    }
}

fn decode_call(value: &Json) -> (r: Option<ToolCall>)
    ensures
        match r {
            Some(call) => call_of(value@) == Some(call@),
            None => call_of(value@) is None,
        },
{
    if !value.is_record(3) {
        return None;
    }
    let id = json::as_text(value.part(0, "id"))?;
    let call_type = match value.part(1, "type") {
        None => "function".to_owned(),
        given => json::as_text(given)?,
    };
    let function = value.part(2, "function")?;
    if !function.is_record(2) {
        return None;
    }
    let name = json::as_text(function.part(0, "name"))?;
    let arguments = json::as_text(function.part(1, "arguments"))?;
    Some(ToolCall { id, call_type, function: FunctionCall { name, arguments } })
}

fn decode_calls(value: Option<&Json>) -> (r: Option<Vec<ToolCall>>)
    ensures
        match r {
            Some(list) => calls_of(json::opt_value(value)) == Some(calls_view(list@)),
            None => calls_of(json::opt_value(value)) is None,
        },
{
    let mut out: Vec<ToolCall> = Vec::new();
    assert(calls_view(out@) =~= Seq::empty());
    let items = match value {
        None => {
            return Some(out);
        },
        Some(Json::Null) => {
            return Some(out);
        },
        Some(Json::List(items)) => items,
        Some(_) => {
            return None;
        },
    };
    let ghost all = json::items_view(items@);
    proof {
        json::lemma_list_view(*items);
    }
    let mut i: usize = 0;
    while i < items.len()
        invariant
            i <= items@.len(),
            all == json::items_view(items@),
            json::opt_value(value) == Some(JsonView::List(all)),
            out@.len() == i,
            forall|j: int| 0 <= j < i ==> call_of(#[trigger] all[j]) == Some(out@[j]@),
        decreases items@.len() - i,
    {
        assert(all[i as int] == items@[i as int]@);
        match decode_call(&items[i]) {
            Some(call) => {
                out.push(call);
            },
            None => {
                return None;
            },
        }
        i += 1;
    }
    assert(calls_view(out@) =~= all.map_values(|item: JsonView| call_of(item)->0));
    Some(out)
}

fn decode_choice(value: &Json) -> (r: Option<Completion>)
    ensures
        match r {
            Some(c) => choice_of(value@) == Some(c@),
            None => choice_of(value@) is None,
        },
{
    let message = value.part(0, "message")?;
    if !value.is_record(1) || !message.is_record(2) {
        return None;
    }
    let content = json::as_optional_text(message.part(0, "content"))?;
    let tool_calls = decode_calls(message.part(1, "tool_calls"))?;
    Some(Completion { content, tool_calls })
}

/// The answer of a reply.
pub fn decode_completion(value: &Json) -> (r: Result<Completion, String>)
    ensures
        match r {
            Ok(c) => completion_of(value@) == Ok::<CompletionView, Seq<char>>(c@),
            Err(reason) => completion_of(value@) == Err::<CompletionView, Seq<char>>(reason@),
        },
{
    if !value.is_record(1) {
        return Err("unexpected shape".to_owned());
    }
    let items = match value.part(0, "choices") {
        Some(Json::List(items)) => items,
        _ => {
            return Err("unexpected shape".to_owned());
        },
    };
    let ghost all = json::items_view(items@);
    proof {
        json::lemma_list_view(*items);
    }
    let mut first: Option<Completion> = None;
    let mut i: usize = 0;
    while i < items.len()
        invariant
            i <= items@.len(),
            json::is_record(value@, 1),
            all == json::items_view(items@),
            json::part(value@, 0, "choices"@) == Some(JsonView::List(all)),
            forall|j: int| 0 <= j < i ==> choice_of(#[trigger] all[j]) is Some,
            i == 0 ==> first is None,
            i > 0 ==> (first matches Some(c) && choice_of(all[0]) == Some(c@)),
        decreases items@.len() - i,
    {
        assert(all[i as int] == items@[i as int]@);
        match decode_choice(&items[i]) {
            Some(choice) => {
                if i == 0 {
                    first = Some(choice);
                }
            },
            None => {
                return Err("unexpected shape".to_owned());
            },
        }
        i += 1;
    }
    match first {
        Some(c) => Ok(c),
        None => Err("response has no choices".to_owned()),
    }
}

/// How an endpoint is asked for completions.
pub struct ChatClient {
    pub completions_url: String,
    pub api_key: Option<String>,
    pub model: String,
}

impl ChatClient {
    /// The client of an endpoint.
    pub fn new(inference: &ResolvedInference) -> (r: Self)
        ensures
            r.completions_url@ == text::strip_end(inference@.base_url, '/') + "/chat/completions"@,
            text::opt_view(r.api_key) == inference@.api_key,
            r.model@ == inference@.model,
    {
        ChatClient {
            completions_url: text::concat2(
                &text::trim_end_char(&inference.base_url, '/'),
                "/chat/completions",
            ),
            api_key: text::clone_opt(&inference.api_key),
            model: inference.model.clone(),
        }
    }

    /// The body of a request.
    pub fn request_body(&self, messages: &Vec<ChatMessage>, tools: &Vec<ToolDefinition>) -> (r: String)
        ensures
            r@ == json::encoded(
                body_value(self.model@, messages_view(messages@), definitions_view(tools@)),
            ),
    {
        let mut fields: Vec<(String, Json)> = Vec::new();
        json::add_field(&mut fields, "model", json::text_json(&self.model));
        json::add_field(&mut fields, "messages", messages_json(messages));
        assert(json::fields_view(fields@) =~= seq![
            ("model"@, JsonView::Text(self.model@)),
            (
                "messages"@,
                JsonView::List(
                    messages_view(messages@).map_values(|m: ChatMessageView| message_value(m)),
                ),
            ),
        ]);
        if tools.len() == 0 {
            json::add_optional(&mut fields, "tools", None);
        } else {
            json::add_optional(&mut fields, "tools", Some(tools_json(tools)));
        }
        json::object(fields).encode()
    }

    /// What a reply comes to.
    pub fn read(status: u16, body: &str) -> (r: Result<Completion, ClientError>)
        ensures
            match r {
                Ok(c) => reply_of(status, body@) == Ok::<CompletionView, ClientErrorView>(c@),
                Err(e) => reply_of(status, body@) == Err::<CompletionView, ClientErrorView>(e@),
            },
    {
        if !(200 <= status && status < 300) {
            return Err(ClientError::Api { status, body: truncate(body, KEPT_BODY) });
        }
        match Json::parse(body) {
            Err(reason) => Err(ClientError::Malformed(reason)),
            Ok(value) => match decode_completion(&value) {
                Ok(completion) => Ok(completion),
                Err(reason) => Err(ClientError::Malformed(reason)),
            },
        }
    }
}

// ---------------------------------------------------------------------------
// Laws

/// A refusal by the server's fault is worth a retry, one by the client's is not.
pub proof fn refusals_are_told_apart(status: u16, body: Seq<char>)
    requires
        !(200 <= status < 300),
    ensures
        reply_of(status, body) matches Err(e) && (retryable(e) <==> status >= 500),
{
}

/// A reply that is read as malformed is not asked for again.
pub proof fn malformed_replies_are_final(status: u16, body: Seq<char>)
    requires
        200 <= status < 300,
    ensures
        reply_of(status, body) matches Err(e) ==> !retryable(e),
{
}

/// What is kept of a long text is its beginning.
pub proof fn shortening_keeps_the_beginning(s: Seq<char>, max: int)
    requires
        text::bytes(s) > max,
    ensures
        shortened(s, max).drop_last() == s.take(text::chars_reaching(s, max)),
{
    reveal_strlit("…");
    assert(shortened(s, max).drop_last() =~= s.take(text::chars_reaching(s, max)));
}

/// A request names the model and carries every message and every tool, in their order.
pub proof fn requests_carry_everything(
    model: Seq<char>,
    messages: Seq<ChatMessageView>,
    tools: Seq<ToolDefinitionView>,
    i: int,
    j: int,
)
    requires
        0 <= i < messages.len(),
        0 <= j < tools.len(),
    ensures
        ({
            let body = body_value(model, messages, tools);
            &&& json::get(body, "model"@) == Some(JsonView::Text(model))
            &&& json::get(body, "messages"@) matches Some(JsonView::List(list)) && list.len()
                == messages.len() && list[i] == message_value(messages[i])
            &&& json::get(body, "tools"@) matches Some(JsonView::List(list)) && list.len()
                == tools.len() && list[j] == definition_value(tools[j])
        }),
{
    broadcast use {json::lemma_lookup_with, json::lemma_lookup_empty};

    reveal_with_fuel(json::lookup, 4);
    reveal_strlit("model");
    reveal_strlit("messages");
    reveal_strlit("tools");
    assert("model"@.len() == 5 && "messages"@.len() == 8 && "tools"@.len() == 5);
    assert("model"@[0] != "tools"@[0]);
}

/// A message is sent with its role and what it says; calls and the call that it
/// answers are sent where it has them.
pub proof fn messages_are_sent_as_they_are(m: ChatMessageView)
    ensures
        ({
            let value = message_value(m);
            &&& json::get(value, "role"@) == Some(
                JsonView::Text(
                    match m.role {
                        Role::System => "system"@,
                        Role::User => "user"@,
                        Role::Assistant => "assistant"@,
                        Role::Tool => "tool"@,
                    },
                ),
            )
            &&& m.content matches Some(said) ==> json::get(value, "content"@) == Some(
                JsonView::Text(said),
            )
            &&& m.tool_call_id matches Some(id) ==> json::get(value, "tool_call_id"@) == Some(
                JsonView::Text(id),
            )
            &&& m.tool_calls.len() > 0 ==> (json::get(value, "tool_calls"@) matches Some(
                JsonView::List(list),
            ) && list.len() == m.tool_calls.len() && forall|i: int|
                0 <= i < list.len() ==> call_of(#[trigger] list[i]) == Some(m.tool_calls[i]))
        }),
{
    broadcast use {json::lemma_lookup_with, json::lemma_lookup_empty};

    reveal_with_fuel(json::lookup, 4);
    reveal_strlit("role");
    reveal_strlit("content");
    reveal_strlit("tool_calls");
    reveal_strlit("tool_call_id");
    assert("role"@.len() == 4 && "content"@.len() == 7 && "tool_calls"@.len() == 10
        && "tool_call_id"@.len() == 12);
    if m.tool_calls.len() > 0 {
        let list = m.tool_calls.map_values(|c: ToolCallView| call_value(c));
        assert forall|i: int| 0 <= i < list.len() implies call_of(#[trigger] list[i]) == Some(
            m.tool_calls[i],
        ) by {
            calls_read_back(m.tool_calls[i]);
        }
    }
}

/// A call that is sent is read back as it was: its identifier, its tool and its
/// arguments.
pub proof fn calls_read_back(c: ToolCallView)
    ensures
        call_of(call_value(c)) == Some(c),
{
    reveal_with_fuel(json::lookup, 4);
    reveal_strlit("id");
    reveal_strlit("type");
    reveal_strlit("function");
    reveal_strlit("name");
    reveal_strlit("arguments");
    assert("id"@.len() == 2 && "type"@.len() == 4 && "function"@.len() == 8);
    assert("name"@.len() == 4 && "arguments"@.len() == 9);
}

/// A tool is offered under its name, with its description and its parameters.
pub proof fn tools_are_offered_as_defined(d: ToolDefinitionView)
    ensures
        ({
            let value = definition_value(d);
            &&& json::get(value, "type"@) == Some(JsonView::Text("function"@))
            &&& json::get(value, "function"@) matches Some(f) && {
                &&& json::get(f, "name"@) == Some(JsonView::Text(d.name))
                &&& json::get(f, "description"@) == Some(JsonView::Text(d.description))
                &&& json::get(f, "parameters"@) == Some(d.parameters)
            }
        }),
{
    reveal_with_fuel(json::lookup, 4);
    reveal_strlit("type");
    reveal_strlit("function");
    reveal_strlit("name");
    reveal_strlit("description");
    reveal_strlit("parameters");
    assert("type"@.len() == 4 && "function"@.len() == 8);
    assert("name"@.len() == 4 && "description"@.len() == 11 && "parameters"@.len() == 10);
}

/// A reply is its first choice: what that says, and the calls that it makes, in
/// their order.
pub proof fn the_first_choice_is_the_answer(
    status: u16,
    body: Seq<char>,
    fields: json::Fields,
    choices: Seq<JsonView>,
    choice: json::Fields,
    message: json::Fields,
)
    requires
        200 <= status < 300,
        json::parsed(body) == Ok::<JsonView, Seq<char>>(JsonView::Object(fields)),
        json::lookup(fields, "choices"@) == Some(JsonView::List(choices)),
        choices.len() > 0,
        choices[0] == JsonView::Object(choice),
        json::lookup(choice, "message"@) == Some(JsonView::Object(message)),
        forall|i: int| 0 <= i < choices.len() ==> choice_of(#[trigger] choices[i]) is Some,
    ensures
        reply_of(status, body) matches Ok(completion) && {
            &&& json::lookup(message, "content"@) matches Some(JsonView::Text(said))
                ==> completion.content == Some(said)
            &&& json::lookup(message, "content"@) is None ==> completion.content is None
            &&& json::lookup(message, "tool_calls"@) matches Some(JsonView::List(calls)) ==> {
                &&& completion.tool_calls.len() == calls.len()
                &&& forall|i: int|
                    0 <= i < calls.len() ==> call_of(#[trigger] calls[i]) == Some(
                        completion.tool_calls[i],
                    )
            }
            &&& json::lookup(message, "tool_calls"@) is None ==> completion.tool_calls.len() == 0
        },
{
    assert(choice_of(choices[0]) is Some);
}

/// A reply without a choice is malformed, and so is one that is no JSON.
pub proof fn empty_replies_are_malformed(status: u16, body: Seq<char>, fields: json::Fields)
    requires
        200 <= status < 300,
    ensures
        json::parsed(body) is Err ==> (reply_of(status, body) matches Err(
            ClientErrorView::Malformed(_),
        )),
        json::parsed(body) == Ok::<JsonView, Seq<char>>(JsonView::Object(fields)) && json::lookup(
            fields,
            "choices"@,
        ) == Some(JsonView::List(Seq::empty())) ==> (reply_of(status, body) matches Err(
            ClientErrorView::Malformed(_),
        )),
{
}

/// What is worth a retry: a request that did not get through, and a fault of the
/// server; never a refusal or a malformed reply.
pub proof fn only_faults_are_retried(reason: Seq<char>, status: u16, body: Seq<char>)
    ensures
        retryable(ClientErrorView::Transport(reason)),
        !retryable(ClientErrorView::Malformed(reason)),
        status >= 500 ==> retryable(ClientErrorView::Api { status, body }),
        400 <= status < 500 ==> !retryable(ClientErrorView::Api { status, body }),
{
}

/// A refusal tells its status and the beginning of what the server said.
pub proof fn refusals_tell_their_status(status: u16, body: Seq<char>)
    requires
        !(200 <= status < 300),
        text::bytes(body) <= 500,
    ensures
        reply_of(status, body) == Err::<CompletionView, ClientErrorView>(
            ClientErrorView::Api { status, body },
        ),
        error_text(ClientErrorView::Api { status, body }) == "api returned "@ + text::decimal(
            status as int,
        ) + ": "@ + body,
{
}

/// A call has its number, its function's name and its arguments, each read from the
/// field of its name; without a type it is one of a function.
pub proof fn calls_are_read_field_by_field(value: JsonView)
    ensures
        call_of(value) matches Some(c) ==> {
            &&& json::is_record(value, 3)
            &&& json::part(value, 0, "id"@) == Some(JsonView::Text(c.id))
            &&& json::part(value, 1, "type"@) is Some ==> json::part(value, 1, "type"@) == Some(
                JsonView::Text(c.call_type),
            )
            &&& json::part(value, 1, "type"@) is None ==> c.call_type == "function"@
            &&& json::part(value, 2, "function"@) matches Some(f) && json::is_record(f, 2)
                && json::part(f, 0, "name"@) == Some(JsonView::Text(c.function.name))
                && json::part(f, 1, "arguments"@) == Some(JsonView::Text(c.function.arguments))
        },
{
}

/// A choice is the message that it holds: what it says, where it says something, and
/// all the calls that it makes, in order.
pub proof fn choices_are_read_field_by_field(value: JsonView)
    ensures
        choice_of(value) matches Some(c) ==> {
            &&& json::is_record(value, 1)
            &&& json::part(value, 0, "message"@) matches Some(message) && json::is_record(
                message,
                2,
            ) && (c.content is Some ==> json::part(message, 0, "content"@) == Some(
                JsonView::Text(c.content->0),
            )) && (json::part(message, 0, "content"@) is Some && c.content is None ==> json::part(
                message,
                0,
                "content"@,
            ) == Some(JsonView::Null)) && (json::part(message, 1, "tool_calls"@) is None
                ==> c.tool_calls.len() == 0) && (json::part(message, 1, "tool_calls"@) matches Some(
                JsonView::List(items),
            ) ==> items.len() == c.tool_calls.len() && forall|i: int|
                0 <= i < items.len() ==> call_of(#[trigger] items[i]) == Some(c.tool_calls[i]))
        },
{
}

} // verus!
