//! Message contents: what a stored message of each kind holds.

use vstd::prelude::*;

use crate::json;
use crate::json::{Fields, Json, JsonView};
use crate::protocol::frame::copy_fields;
use crate::protocol::ids::UserId;
use crate::protocol::message::{MessageKind, MessageSeq};
use crate::text;

verus! {

broadcast use vstd::string::group_string_axioms;

/// Why a stored content was refused.
#[derive(Debug, PartialEq, Eq)]
pub enum ContentError {
    Malformed { kind: String, reason: String },
}

impl ContentError {
    /// The kind of message whose content was refused.
    pub open spec fn kind_text(&self) -> Seq<char> {
        match self {
            ContentError::Malformed { kind, .. } => kind@,
        }
    }

    /// What is wrong with the content.
    pub open spec fn reason_text(&self) -> Seq<char> {
        match self {
            ContentError::Malformed { reason, .. } => reason@,
        }
    }

    /// The error as one line of text.
    pub fn message(&self) -> (r: String)
        ensures
            r@ == "malformed "@ + self.kind_text() + " content: "@ + self.reason_text(),
    {
        match self {
            ContentError::Malformed { kind, reason } => {
                let mut out = "malformed ".to_owned();
                out.append(kind);
                out.append(" content: ");
                out.append(reason);
                out
            },
        }
    }
}

// ---------------------------------------------------------------------------
// Inbound contents

/// A file that came with a chat message.
#[derive(Debug, PartialEq, Eq)]
pub struct Attachment {
    pub name: String,
    pub url: Option<String>,
    pub path: Option<String>,
}

/// The mathematical value of an [`Attachment`].
#[verifier::ext_equal]
pub struct AttachmentView {
    pub name: Seq<char>,
    pub url: Option<Seq<char>>,
    pub path: Option<Seq<char>>,
}

impl Attachment {
    pub open spec fn view(&self) -> AttachmentView {
        AttachmentView {
            name: self.name@,
            url: text::opt_view(self.url),
            path: text::opt_view(self.path),
        }
    }
}

/// The mathematical values of a list of attachments.
pub open spec fn attachments_view(list: Seq<Attachment>) -> Seq<AttachmentView> {
    list.map_values(|a: Attachment| a@)
}

/// A message that a chat message quotes.
#[derive(Debug, PartialEq, Eq)]
pub struct QuotedMessage {
    pub sender: String,
    pub text: String,
}

/// The mathematical value of a [`QuotedMessage`].
#[verifier::ext_equal]
pub struct QuotedView {
    pub sender: Seq<char>,
    pub text: Seq<char>,
}

impl QuotedMessage {
    pub open spec fn view(&self) -> QuotedView {
        QuotedView { sender: self.sender@, text: self.text@ }
    }
}

/// A chat message.
#[derive(Debug, PartialEq, Eq)]
pub struct ChatContent {
    pub sender: String,
    pub sender_id: Option<UserId>,
    pub text: String,
    pub attachments: Vec<Attachment>,
    pub is_from_me: bool,
    pub quoted: Option<QuotedMessage>,
}

/// The mathematical value of a [`ChatContent`].
#[verifier::ext_equal]
pub struct ChatView {
    pub sender: Seq<char>,
    pub sender_id: Option<Seq<char>>,
    pub text: Seq<char>,
    pub attachments: Seq<AttachmentView>,
    pub is_from_me: bool,
    pub quoted: Option<QuotedView>,
}

impl ChatContent {
    pub open spec fn view(&self) -> ChatView {
        ChatView {
            sender: self.sender@,
            sender_id: match self.sender_id {
                Some(id) => Some(id@),
                None => None,
            },
            text: self.text@,
            attachments: attachments_view(self.attachments@),
            is_from_me: self.is_from_me,
            quoted: match self.quoted {
                Some(quoted) => Some(quoted@),
                None => None,
            },
        }
    }
}

/// A scheduled task.
#[derive(Debug, PartialEq, Eq)]
pub struct TaskContent {
    pub prompt: String,
    pub script: Option<String>,
    pub wake_agent: bool,
}

/// The mathematical value of a [`TaskContent`].
#[verifier::ext_equal]
pub struct TaskView {
    pub prompt: Seq<char>,
    pub script: Option<Seq<char>>,
    pub wake_agent: bool,
}

impl TaskContent {
    pub open spec fn view(&self) -> TaskView {
        TaskView {
            prompt: self.prompt@,
            script: text::opt_view(self.script),
            wake_agent: self.wake_agent,
        }
    }
}

/// An event of an outside service.
#[derive(Debug, PartialEq, Eq)]
pub struct WebhookContent {
    pub source: String,
    pub event: String,
    pub payload: Json,
}

/// The mathematical value of a [`WebhookContent`].
#[verifier::ext_equal]
pub struct WebhookView {
    pub source: Seq<char>,
    pub event: Seq<char>,
    pub payload: JsonView,
}

impl WebhookContent {
    pub open spec fn view(&self) -> WebhookView {
        WebhookView { source: self.source@, event: self.event@, payload: self.payload@ }
    }
}

/// The outcome of an action of the daemon.
#[derive(Debug, PartialEq, Eq)]
pub struct SystemResult {
    pub action: String,
    pub status: String,
    pub result: Json,
}

/// The mathematical value of a [`SystemResult`].
#[verifier::ext_equal]
pub struct SystemView {
    pub action: Seq<char>,
    pub status: Seq<char>,
    pub result: JsonView,
}

impl SystemResult {
    pub open spec fn view(&self) -> SystemView {
        SystemView { action: self.action@, status: self.status@, result: self.result@ }
    }
}

/// The content of an inbound message.
#[derive(Debug, PartialEq, Eq)]
pub enum InboundContent {
    Chat(ChatContent),
    Task(TaskContent),
    Webhook(WebhookContent),
    System(SystemResult),
    Raw(Json),
}

/// The mathematical value of an [`InboundContent`].
#[verifier::ext_equal]
pub enum InboundView {
    Chat(ChatView),
    Task(TaskView),
    Webhook(WebhookView),
    System(SystemView),
    Raw(JsonView),
}

impl InboundContent {
    pub open spec fn view(&self) -> InboundView {
        match self {
            InboundContent::Chat(c) => InboundView::Chat(c@),
            InboundContent::Task(c) => InboundView::Task(c@),
            InboundContent::Webhook(c) => InboundView::Webhook(c@),
            InboundContent::System(c) => InboundView::System(c@),
            InboundContent::Raw(v) => InboundView::Raw(v@),
        }
    }
}

/// The attachment that a value is.
pub open spec fn attachment_of(value: JsonView) -> Option<AttachmentView> {
    let name = json::text_of(json::part(value, 0, "name"@));
    let url = json::optional_text(json::part(value, 1, "url"@));
    let path = json::optional_text(json::part(value, 2, "path"@));
    if json::is_record(value, 3) && name is Some && url is Some && path is Some {
        Some(AttachmentView { name: name->0, url: url->0, path: path->0 })
    } else {
        None
    }
}

/// The attachments that a field is: none where it is absent.
pub open spec fn attachments_of(value: Option<JsonView>) -> Option<Seq<AttachmentView>> {
    match value {
        None => Some(Seq::empty()),
        Some(JsonView::List(items)) => if forall|i: int|
            0 <= i < items.len() ==> attachment_of(#[trigger] items[i]) is Some {
            Some(Seq::new(items.len(), |i: int| attachment_of(items[i])->0))
        } else {
            None
        },
        _ => None,
    }
}

/// The quoted message that a field is: none where it is absent or null.
pub open spec fn quoted_of(value: Option<JsonView>) -> Option<Option<QuotedView>> {
    match value {
        None => Some(None),
        Some(JsonView::Null) => Some(None),
        Some(given) => {
            let sender = json::text_of(json::part(given, 0, "sender"@));
            let text = json::text_of(json::part(given, 1, "text"@));
            if json::is_record(given, 2) && sender is Some && text is Some {
                Some(Some(QuotedView { sender: sender->0, text: text->0 }))
            } else {
                None
            }
        },
    }
}

/// The chat message that a value is.
pub open spec fn chat_of(value: JsonView) -> Option<ChatView> {
    let sender = json::text_of(json::part(value, 0, "sender"@));
    let sender_id = json::optional_text(json::part(value, 1, "sender_id"@));
    let text = json::text_of(json::part(value, 2, "text"@));
    let attachments = attachments_of(json::part(value, 3, "attachments"@));
    let is_from_me = json::flag(json::part(value, 4, "is_from_me"@), false);
    let quoted = quoted_of(json::part(value, 5, "quoted"@));
    if json::is_record(value, 6) && sender is Some && sender_id is Some && text is Some
        && attachments is Some && is_from_me is Some && quoted is Some {
        Some(
            ChatView {
                sender: sender->0,
                sender_id: sender_id->0,
                text: text->0,
                attachments: attachments->0,
                is_from_me: is_from_me->0,
                quoted: quoted->0,
            },
        )
    } else {
        None
    }
}

/// The task that a value is. A task wakes its agent unless it says otherwise.
pub open spec fn task_of(value: JsonView) -> Option<TaskView> {
    let prompt = json::text_of(json::part(value, 0, "prompt"@));
    let script = json::optional_text(json::part(value, 1, "script"@));
    let wake_agent = json::flag(json::part(value, 2, "wake_agent"@), true);
    if json::is_record(value, 3) && prompt is Some && script is Some && wake_agent is Some {
        Some(TaskView { prompt: prompt->0, script: script->0, wake_agent: wake_agent->0 })
    } else {
        None
    }
}

/// The webhook event that a value is.
pub open spec fn webhook_of(value: JsonView) -> Option<WebhookView> {
    let source = json::text_of(json::part(value, 0, "source"@));
    let event = json::text_of(json::part(value, 1, "event"@));
    let payload = json::part(value, 2, "payload"@);
    if json::is_record(value, 3) && source is Some && event is Some && payload is Some {
        Some(WebhookView { source: source->0, event: event->0, payload: payload->0 })
    } else {
        None
    }
}

/// The outcome that a value is. An absent result is null.
pub open spec fn system_of(value: JsonView) -> Option<SystemView> {
    let action = json::text_of(json::part(value, 0, "action"@));
    let status = json::text_of(json::part(value, 1, "status"@));
    let result = match json::part(value, 2, "result"@) {
        Some(given) => given,
        None => JsonView::Null,
    };
    if json::is_record(value, 3) && action is Some && status is Some {
        Some(SystemView { action: action->0, status: status->0, result })
    } else {
        None
    }
}

/// The kind of message with the given text.
pub open spec fn kind_of(text: Seq<char>) -> Option<MessageKind> {
    if exists|kind: MessageKind| #[trigger] kind.text() == text {
        Some(choose|kind: MessageKind| #[trigger] kind.text() == text)
    } else {
        None
    }
}

/// The content that a value is for a message of the given kind. A kind that is
/// not known takes any value as it is.
pub open spec fn inbound_of(kind: Seq<char>, value: JsonView) -> Option<InboundView> {
    match kind_of(kind) {
        Some(MessageKind::Chat) => match chat_of(value) {
            Some(c) => Some(InboundView::Chat(c)),
            None => None,
        },
        Some(MessageKind::Task) => match task_of(value) {
            Some(c) => Some(InboundView::Task(c)),
            None => None,
        },
        Some(MessageKind::Webhook) => match webhook_of(value) {
            Some(c) => Some(InboundView::Webhook(c)),
            None => None,
        },
        Some(MessageKind::System) => match system_of(value) {
            Some(c) => Some(InboundView::System(c)),
            None => None,
        },
        None => Some(InboundView::Raw(value)),
    }
}

/// The content that a JSON text is, or why it is refused.
pub open spec fn inbound_meaning(kind: Seq<char>, text: Seq<char>) -> Result<
    InboundView,
    Seq<char>,
> {
    match json::parsed(text) {
        Err(reason) => Err(reason),
        Ok(value) => match inbound_of(kind, value) {
            Some(content) => Ok(content),
            None => Err("unexpected shape"@),
        },
    }
}

/// The kind of message with the given text.
pub fn parse_kind(kind: &str) -> (r: Option<MessageKind>)
    ensures
        r == kind_of(kind@),
{
    match MessageKind::parse(kind) {
        Ok(k) => {
            proof {
                assert(k.text() == kind@);
                MessageKind::texts_differ(k, kind_of(kind@)->0);
            }
            Some(k)
        },
        Err(_) => None,
    }
}

impl Attachment {
    /// The attachment that a value is.
    pub fn decode(value: &Json) -> (r: Option<Attachment>)
        ensures
            match r {
                Some(a) => attachment_of(value@) == Some(a@),
                None => attachment_of(value@) is None,
            },
    {
        if !value.is_record(3) {
            return None;
        }
        let name = json::as_text(value.part(0, "name"))?;
        let url = json::as_optional_text(value.part(1, "url"))?;
        let path = json::as_optional_text(value.part(2, "path"))?;
        Some(Attachment { name, url, path })
    }
}

fn decode_attachments(value: Option<&Json>) -> (r: Option<Vec<Attachment>>)
    ensures
        match r {
            Some(list) => attachments_of(json::opt_value(value)) == Some(attachments_view(list@)),
            None => attachments_of(json::opt_value(value)) is None,
        },
{
    match value {
        None => {
            let none: Vec<Attachment> = Vec::new();
            assert(attachments_view(none@) =~= Seq::empty());
            Some(none)
        },
        Some(Json::List(items)) => {
            proof {
                json::lemma_list_view(*items);
            }
            let ghost shown = json::items_view(items@);
            let mut out: Vec<Attachment> = Vec::new();
            let mut i: usize = 0;
            while i < items.len()
                invariant
                    i <= items@.len(),
                    out@.len() == i,
                    shown == json::items_view(items@),
                    json::opt_value(value) == Some(JsonView::List(shown)),
                    forall|j: int|
                        0 <= j < i ==> attachment_of(#[trigger] shown[j]) == Some(out@[j]@),
                decreases items@.len() - i,
            {
                assert(shown[i as int] == items@[i as int]@);
                match Attachment::decode(&items[i]) {
                    Some(a) => {
                        out.push(a);
                    },
                    None => {
                        assert(attachment_of(shown[i as int]) is None);
                        return None;
                    },
                }
                i += 1;
            }
            assert(Seq::new(shown.len(), |i: int| attachment_of(shown[i])->0) =~= attachments_view(
                out@,
            ));
            Some(out)
        },
        _ => None,
    }
}

fn decode_quoted(value: Option<&Json>) -> (r: Option<Option<QuotedMessage>>)
    ensures
        match r {
            Some(Some(q)) => quoted_of(json::opt_value(value)) == Some(Some(q@)),
            Some(None) => quoted_of(json::opt_value(value)) == Some(None::<QuotedView>),
            None => quoted_of(json::opt_value(value)) is None,
        },
{
    match value {
        None => Some(None),
        Some(Json::Null) => Some(None),
        Some(given) => {
            if !given.is_record(2) {
                return None;
            }
            let sender = json::as_text(given.part(0, "sender"))?;
            let text = json::as_text(given.part(1, "text"))?;
            Some(Some(QuotedMessage { sender, text }))
        },
    }
}

impl ChatContent {
    /// The chat message that a value is.
    pub fn decode(value: &Json) -> (r: Option<ChatContent>)
        ensures
            match r {
                Some(c) => chat_of(value@) == Some(c@),
                None => chat_of(value@) is None,
            },
    {
        if !value.is_record(6) {
            return None;
        }
        let sender = json::as_text(value.part(0, "sender"))?;
        let sender_id = match json::as_optional_text(value.part(1, "sender_id"))? {
            Some(id) => Some(UserId::new(&id)),
            None => None,
        };
        let text = json::as_text(value.part(2, "text"))?;
        let attachments = decode_attachments(value.part(3, "attachments"))?;
        let is_from_me = json::as_flag(value.part(4, "is_from_me"), false)?;
        let quoted = decode_quoted(value.part(5, "quoted"))?;
        Some(ChatContent { sender, sender_id, text, attachments, is_from_me, quoted })
    }
}

impl TaskContent {
    /// The task that a value is.
    pub fn decode(value: &Json) -> (r: Option<TaskContent>)
        ensures
            match r {
                Some(c) => task_of(value@) == Some(c@),
                None => task_of(value@) is None,
            },
    {
        if !value.is_record(3) {
            return None;
        }
        let prompt = json::as_text(value.part(0, "prompt"))?;
        let script = json::as_optional_text(value.part(1, "script"))?;
        let wake_agent = json::as_flag(value.part(2, "wake_agent"), true)?;
        Some(TaskContent { prompt, script, wake_agent })
    }
}

impl WebhookContent {
    /// The webhook event that a value is.
    pub fn decode(value: &Json) -> (r: Option<WebhookContent>)
        ensures
            match r {
                Some(c) => webhook_of(value@) == Some(c@),
                None => webhook_of(value@) is None,
            },
    {
        if !value.is_record(3) {
            return None;
        }
        let source = json::as_text(value.part(0, "source"))?;
        let event = json::as_text(value.part(1, "event"))?;
        let payload = match value.part(2, "payload") {
            Some(given) => given.copy(),
            None => {
                return None;
            },
        };
        Some(WebhookContent { source, event, payload })
    }
}

impl SystemResult {
    /// The outcome that a value is.
    pub fn decode(value: &Json) -> (r: Option<SystemResult>)
        ensures
            match r {
                Some(c) => system_of(value@) == Some(c@),
                None => system_of(value@) is None,
            },
    {
        if !value.is_record(3) {
            return None;
        }
        let action = json::as_text(value.part(0, "action"))?;
        let status = json::as_text(value.part(1, "status"))?;
        let result = match value.part(2, "result") {
            Some(given) => given.copy(),
            None => Json::Null,
        };
        Some(SystemResult { action, status, result })
    }
}

impl InboundContent {
    /// The content that a value is for a message of the given kind.
    pub fn decode(kind: &str, value: &Json) -> (r: Option<InboundContent>)
        ensures
            match r {
                Some(c) => inbound_of(kind@, value@) == Some(c@),
                None => inbound_of(kind@, value@) is None,
            },
    {
        match parse_kind(kind) {
            Some(MessageKind::Chat) => Some(InboundContent::Chat(ChatContent::decode(value)?)),
            Some(MessageKind::Task) => Some(InboundContent::Task(TaskContent::decode(value)?)),
            Some(MessageKind::Webhook) => Some(
                InboundContent::Webhook(WebhookContent::decode(value)?),
            ),
            Some(MessageKind::System) => Some(InboundContent::System(SystemResult::decode(value)?)),
            None => Some(InboundContent::Raw(value.copy())),
        }
    }

    /// Reads the stored content of a message of the given kind.
    pub fn parse(kind: &str, json: &str) -> (r: Result<Self, ContentError>)
        ensures
            match r {
                Ok(c) => inbound_meaning(kind@, json@) == Ok::<InboundView, Seq<char>>(c@),
                Err(e) => e.kind_text() == kind@ && inbound_meaning(kind@, json@) == Err::<
                    InboundView,
                    Seq<char>,
                >(e.reason_text()),
            },
    {
        match Json::parse(json) {
            Err(reason) => Err(ContentError::Malformed { kind: kind.to_owned(), reason }),
            Ok(value) => match Self::decode(kind, &value) {
                Some(content) => Ok(content),
                None => Err(
                    ContentError::Malformed {
                        kind: kind.to_owned(),
                        reason: "unexpected shape".to_owned(),
                    },
                ),
            },
        }
    }
}

// ---------------------------------------------------------------------------
// Writing inbound contents

/// An optional text as an optional value.
pub open spec fn maybe_text(s: Option<Seq<char>>) -> Option<JsonView> {
    match s {
        Some(t) => Some(JsonView::Text(t)),
        None => None,
    }
}

/// The value that an attachment is stored as; absent parts are left out.
pub open spec fn attachment_value(a: AttachmentView) -> JsonView {
    let named = json::with(Seq::empty(), "name"@, Some(JsonView::Text(a.name)));
    let located = json::with(named, "url"@, maybe_text(a.url));
    JsonView::Object(json::with(located, "path"@, maybe_text(a.path)))
}

/// The value that a quoted message is stored as.
pub open spec fn quoted_value(q: QuotedView) -> JsonView {
    let sender = json::with(Seq::empty(), "sender"@, Some(JsonView::Text(q.sender)));
    JsonView::Object(json::with(sender, "text"@, Some(JsonView::Text(q.text))))
}

/// The value that a chat message is stored as; absent parts are left out.
pub open spec fn chat_value(c: ChatView) -> JsonView {
    let f1 = json::with(Seq::empty(), "sender"@, Some(JsonView::Text(c.sender)));
    let f2 = json::with(f1, "sender_id"@, maybe_text(c.sender_id));
    let f3 = json::with(f2, "text"@, Some(JsonView::Text(c.text)));
    let f4 = json::with(
        f3,
        "attachments"@,
        if c.attachments.len() == 0 {
            None
        } else {
            Some(JsonView::List(c.attachments.map_values(|a: AttachmentView| attachment_value(a))))
        },
    );
    let f5 = json::with(f4, "is_from_me"@, Some(JsonView::Bool(c.is_from_me)));
    JsonView::Object(
        json::with(
            f5,
            "quoted"@,
            match c.quoted {
                Some(q) => Some(quoted_value(q)),
                None => None,
            },
        ),
    )
}

/// The value that a task is stored as; an absent script is left out.
pub open spec fn task_value(t: TaskView) -> JsonView {
    let f1 = json::with(Seq::empty(), "prompt"@, Some(JsonView::Text(t.prompt)));
    let f2 = json::with(f1, "script"@, maybe_text(t.script));
    JsonView::Object(json::with(f2, "wake_agent"@, Some(JsonView::Bool(t.wake_agent))))
}

fn maybe_text_json(s: &Option<String>) -> (r: Option<Json>)
    ensures
        maybe_text(text::opt_view(*s)) == (match r {
            Some(v) => Some(v@),
            None => None,
        }),
{
    match s {
        Some(t) => Some(json::text_json(t)),
        None => None,
    }
}

/// No fields yet.
fn no_fields() -> (r: Vec<(String, Json)>)
    ensures
        json::fields_view(r@) == Seq::<(Seq<char>, JsonView)>::empty(),
{
    let none: Vec<(String, Json)> = Vec::new();
    assert(json::fields_view(none@) =~= Seq::empty());
    none
}

impl Attachment {
    /// The attachment as a JSON value.
    pub fn to_value(&self) -> (r: Json)
        ensures
            r@ == attachment_value(self@),
    {
        let mut fields = no_fields();
        json::add_optional(&mut fields, "name", Some(json::text_json(&self.name)));
        json::add_optional(&mut fields, "url", maybe_text_json(&self.url));
        json::add_optional(&mut fields, "path", maybe_text_json(&self.path));
        json::object(fields)
    }
}

fn attachments_json(list: &Vec<Attachment>) -> (r: Option<Json>)
    ensures
        match r {
            Some(v) => list@.len() > 0 && v@ == JsonView::List(
                attachments_view(list@).map_values(|a: AttachmentView| attachment_value(a)),
            ),
            None => list@.len() == 0,
        },
{
    if list.len() == 0 {
        return None;
    }
    let mut items: Vec<Json> = Vec::new();
    let mut i: usize = 0;
    while i < list.len()
        invariant
            i <= list@.len(),
            items@.len() == i,
            forall|j: int| 0 <= j < i ==> (#[trigger] items@[j])@ == attachment_value(list@[j]@),
        decreases list@.len() - i,
    {
        items.push(list[i].to_value());
        i += 1;
    }
    proof {
        json::lemma_list_view(items);
        assert(json::items_view(items@) =~= attachments_view(list@).map_values(
            |a: AttachmentView| attachment_value(a),
        ));
    }
    Some(Json::List(items))
}

impl ChatContent {
    /// The chat message as a JSON value.
    pub fn to_value(&self) -> (r: Json)
        ensures
            r@ == chat_value(self@),
    {
        let mut fields = no_fields();
        json::add_optional(&mut fields, "sender", Some(json::text_json(&self.sender)));
        let sender_id = match &self.sender_id {
            Some(id) => Some(json::text_json(id.as_str())),
            None => None,
        };
        json::add_optional(&mut fields, "sender_id", sender_id);
        json::add_optional(&mut fields, "text", Some(json::text_json(&self.text)));
        json::add_optional(&mut fields, "attachments", attachments_json(&self.attachments));
        json::add_optional(&mut fields, "is_from_me", Some(Json::Bool(self.is_from_me)));
        let quoted = match &self.quoted {
            Some(q) => {
                let mut parts = no_fields();
                json::add_optional(&mut parts, "sender", Some(json::text_json(&q.sender)));
                json::add_optional(&mut parts, "text", Some(json::text_json(&q.text)));
                Some(json::object(parts))
            },
            None => None,
        };
        json::add_optional(&mut fields, "quoted", quoted);
        json::object(fields)
    }
}

impl TaskContent {
    /// The task as a JSON value.
    pub fn to_value(&self) -> (r: Json)
        ensures
            r@ == task_value(self@),
    {
        let mut fields = no_fields();
        json::add_optional(&mut fields, "prompt", Some(json::text_json(&self.prompt)));
        json::add_optional(&mut fields, "script", maybe_text_json(&self.script));
        json::add_optional(&mut fields, "wake_agent", Some(Json::Bool(self.wake_agent)));
        json::object(fields)
    }
}

/// Reading the value that an attachment is stored as gives the attachment back.
pub proof fn attachment_round_trips(a: AttachmentView)
    ensures
        attachment_of(attachment_value(a)) == Some(a),
{
    broadcast use {json::lemma_lookup_with, json::lemma_lookup_empty};

    reveal_strlit("name");
    reveal_strlit("url");
    reveal_strlit("path");
    assert("name"@.len() != "url"@.len());
    assert("name"@[0] != "path"@[0]);
    assert("url"@.len() != "path"@.len());
}

/// Reading the value that a chat message is stored as gives the message back.
pub proof fn chat_round_trips(c: ChatView)
    ensures
        chat_of(chat_value(c)) == Some(c),
{
    broadcast use {json::lemma_lookup_with, json::lemma_lookup_empty};

    reveal_strlit("sender");
    reveal_strlit("sender_id");
    reveal_strlit("text");
    reveal_strlit("attachments");
    reveal_strlit("is_from_me");
    reveal_strlit("quoted");
    assert("sender"@.len() == 6);
    assert("sender_id"@.len() == 9);
    assert("text"@.len() == 4);
    assert("attachments"@.len() == 11);
    assert("is_from_me"@.len() == 10);
    assert("quoted"@.len() == 6);
    assert("sender"@[0] != "quoted"@[0]);
    let v = chat_value(c);
    assert(json::get(v, "sender"@) == Some(JsonView::Text(c.sender)));
    assert(json::get(v, "sender_id"@) == maybe_text(c.sender_id));
    assert(json::get(v, "text"@) == Some(JsonView::Text(c.text)));
    assert(json::get(v, "is_from_me"@) == Some(JsonView::Bool(c.is_from_me)));
    let listed = json::get(v, "attachments"@);
    if c.attachments.len() == 0 {
        assert(attachments_of(listed)->0 =~= c.attachments);
    } else {
        let items = c.attachments.map_values(|a: AttachmentView| attachment_value(a));
        assert(listed == Some(JsonView::List(items)));
        assert forall|i: int| 0 <= i < items.len() implies attachment_of(#[trigger] items[i])
            == Some(c.attachments[i]) by {
            attachment_round_trips(c.attachments[i]);
        }
        assert(attachments_of(listed)->0 =~= c.attachments);
    }
    if let Some(q) = c.quoted {
        assert(json::get(v, "quoted"@) == Some(quoted_value(q)));
        assert(json::get(quoted_value(q), "sender"@) == Some(JsonView::Text(q.sender)));
        assert(json::get(quoted_value(q), "text"@) == Some(JsonView::Text(q.text)));
        assert(quoted_of(Some(quoted_value(q))) == Some(Some(q)));
    } else {
        assert(json::get(v, "quoted"@) is None);
    }
}

/// Reading the value that a task is stored as gives the task back.
pub proof fn task_round_trips(t: TaskView)
    ensures
        task_of(task_value(t)) == Some(t),
{
    broadcast use {json::lemma_lookup_with, json::lemma_lookup_empty};

    reveal_strlit("prompt");
    reveal_strlit("script");
    reveal_strlit("wake_agent");
    assert("prompt"@[0] != "script"@[0]);
    assert("prompt"@.len() != "wake_agent"@.len());
    assert("script"@.len() != "wake_agent"@.len());
}

// ---------------------------------------------------------------------------
// Outbound contents

/// Something that an outbound message asks the channel to do.
#[derive(Debug, PartialEq, Eq)]
pub enum Operation {
    AskQuestion {
        question_id: String,
        title: String,
        question: String,
        options: Vec<String>,
    },
    Approval {
        approval_id: String,
        command: String,
        args: Vec<(String, Json)>,
        summary: String,
    },
    Edit { message_id: MessageSeq, text: String },
    Reaction { message_id: MessageSeq, emoji: String },
}

/// The mathematical value of an [`Operation`].
#[verifier::ext_equal]
pub enum OperationView {
    AskQuestion {
        question_id: Seq<char>,
        title: Seq<char>,
        question: Seq<char>,
        options: Seq<Seq<char>>,
    },
    Approval { approval_id: Seq<char>, command: Seq<char>, args: Fields, summary: Seq<char> },
    Edit { message_id: int, text: Seq<char> },
    Reaction { message_id: int, emoji: Seq<char> },
}

impl Operation {
    pub open spec fn view(&self) -> OperationView {
        match self {
            Operation::AskQuestion { question_id, title, question, options } =>
                OperationView::AskQuestion {
                question_id: question_id@,
                title: title@,
                question: question@,
                options: text::views(options@),
            },
            Operation::Approval { approval_id, command, args, summary } =>
                OperationView::Approval {
                approval_id: approval_id@,
                command: command@,
                args: json::fields_view(args@),
                summary: summary@,
            },
            Operation::Edit { message_id, text } => OperationView::Edit {
                message_id: message_id@,
                text: text@,
            },
            Operation::Reaction { message_id, emoji } => OperationView::Reaction {
                message_id: message_id@,
                emoji: emoji@,
            },
        }
    }
}

/// The content of an outbound message. `extra` holds the fields that are not
/// known here, as they came.
#[derive(Debug, PartialEq, Eq)]
pub struct OutboundContent {
    pub text: Option<String>,
    pub files: Vec<String>,
    pub operation: Option<Operation>,
    pub extra: Vec<(String, Json)>,
}

/// The mathematical value of an [`OutboundContent`].
#[verifier::ext_equal]
pub struct OutboundView {
    pub text: Option<Seq<char>>,
    pub files: Seq<Seq<char>>,
    pub operation: Option<OperationView>,
    pub extra: Fields,
}

impl OutboundContent {
    pub open spec fn view(&self) -> OutboundView {
        OutboundView {
            text: text::opt_view(self.text),
            files: text::views(self.files@),
            operation: match self.operation {
                Some(op) => Some(op@),
                None => None,
            },
            extra: json::fields_view(self.extra@),
        }
    }
}

/// Whether a field is one that an outbound content gives a meaning to.
pub open spec fn known_key(key: Seq<char>) -> bool {
    key == "text"@ || key == "files"@ || key == "operation"@
}

/// The fields that are not known, in their order.
pub open spec fn unknown_fields(fields: Fields) -> Fields
    decreases fields.len(),
{
    if fields.len() == 0 {
        Seq::empty()
    } else {
        let rest = unknown_fields(fields.drop_last());
        if known_key(fields.last().0) {
            rest
        } else {
            rest.push(fields.last())
        }
    }
}

/// The operation that a value is, by its `type`, which a list begins with.
pub open spec fn operation_of(value: JsonView) -> Option<OperationView> {
    match json::text_of(json::part(value, 0, "type"@)) {
        None => None,
        Some(tag) => if tag == "ask_question"@ {
            let question_id = json::text_of(json::part(value, 1, "question_id"@));
            let title = json::text_of(json::part(value, 2, "title"@));
            let question = json::text_of(json::part(value, 3, "question"@));
            let options = match json::part(value, 4, "options"@) {
                Some(list) => json::texts_of(list),
                None => None,
            };
            if json::is_record(value, 5) && question_id is Some && title is Some && question is Some
                && options is Some {
                Some(
                    OperationView::AskQuestion {
                        question_id: question_id->0,
                        title: title->0,
                        question: question->0,
                        options: options->0,
                    },
                )
            } else {
                None
            }
        } else if tag == "approval"@ {
            let approval_id = json::text_of(json::part(value, 1, "approval_id"@));
            let command = json::text_of(json::part(value, 2, "command"@));
            let args = match json::part(value, 3, "args"@) {
                Some(JsonView::Object(fields)) => Some(fields),
                _ => None,
            };
            let summary = json::text_of(json::part(value, 4, "summary"@));
            if json::is_record(value, 5) && approval_id is Some && command is Some && args is Some
                && summary is Some {
                Some(
                    OperationView::Approval {
                        approval_id: approval_id->0,
                        command: command->0,
                        args: args->0,
                        summary: summary->0,
                    },
                )
            } else {
                None
            }
        } else if tag == "edit"@ {
            let message_id = json::integer_of(json::part(value, 1, "message_id"@));
            let text = json::text_of(json::part(value, 2, "text"@));
            if json::is_record(value, 3) && message_id is Some && text is Some {
                Some(OperationView::Edit { message_id: message_id->0, text: text->0 })
            } else {
                None
            }
        } else if tag == "reaction"@ {
            let message_id = json::integer_of(json::part(value, 1, "message_id"@));
            let emoji = json::text_of(json::part(value, 2, "emoji"@));
            if json::is_record(value, 3) && message_id is Some && emoji is Some {
                Some(OperationView::Reaction { message_id: message_id->0, emoji: emoji->0 })
            } else {
                None
            }
        } else {
            None
        },
    }
}

/// The outbound content that a value is.
pub open spec fn outbound_of(value: JsonView) -> Option<OutboundView> {
    match value {
        JsonView::Object(fields) => {
            let text = json::optional_text(json::lookup(fields, "text"@));
            let files = match json::lookup(fields, "files"@) {
                None => Some(Seq::empty()),
                Some(list) => json::texts_of(list),
            };
            let operation = match json::lookup(fields, "operation"@) {
                None => Some(None),
                Some(JsonView::Null) => Some(None),
                Some(given) => match operation_of(given) {
                    Some(op) => Some(Some(op)),
                    None => None,
                },
            };
            if text is Some && files is Some && operation is Some {
                Some(
                    OutboundView {
                        text: text->0,
                        files: files->0,
                        operation: operation->0,
                        extra: unknown_fields(fields),
                    },
                )
            } else {
                None
            }
        },
        _ => None,
    }
}

/// The outbound content that a JSON text is, or why it is refused.
pub open spec fn outbound_meaning(text: Seq<char>) -> Result<OutboundView, Seq<char>> {
    match json::parsed(text) {
        Err(reason) => Err(reason),
        Ok(value) => match outbound_of(value) {
            Some(content) => Ok(content),
            None => Err("unexpected shape"@),
        },
    }
}

/// The content that is nothing but a text.
pub open spec fn text_content(text: Seq<char>) -> OutboundView {
    OutboundView { text: Some(text), files: Seq::empty(), operation: None, extra: Seq::empty() }
}

/// The value that an operation is stored as.
pub open spec fn operation_value(op: OperationView) -> JsonView {
    match op {
        OperationView::AskQuestion { question_id, title, question, options } => {
            let f1 = json::with(Seq::empty(), "type"@, Some(JsonView::Text("ask_question"@)));
            let f2 = json::with(f1, "question_id"@, Some(JsonView::Text(question_id)));
            let f3 = json::with(f2, "title"@, Some(JsonView::Text(title)));
            let f4 = json::with(f3, "question"@, Some(JsonView::Text(question)));
            JsonView::Object(json::with(f4, "options"@, Some(json::texts_value(options))))
        },
        OperationView::Approval { approval_id, command, args, summary } => {
            let f1 = json::with(Seq::empty(), "type"@, Some(JsonView::Text("approval"@)));
            let f2 = json::with(f1, "approval_id"@, Some(JsonView::Text(approval_id)));
            let f3 = json::with(f2, "command"@, Some(JsonView::Text(command)));
            let f4 = json::with(f3, "args"@, Some(JsonView::Object(args)));
            JsonView::Object(json::with(f4, "summary"@, Some(JsonView::Text(summary))))
        },
        OperationView::Edit { message_id, text } => {
            let f1 = json::with(Seq::empty(), "type"@, Some(JsonView::Text("edit"@)));
            let f2 = json::with(
                f1,
                "message_id"@,
                Some(JsonView::Number(text::decimal(message_id))),
            );
            JsonView::Object(json::with(f2, "text"@, Some(JsonView::Text(text))))
        },
        OperationView::Reaction { message_id, emoji } => {
            let f1 = json::with(Seq::empty(), "type"@, Some(JsonView::Text("reaction"@)));
            let f2 = json::with(
                f1,
                "message_id"@,
                Some(JsonView::Number(text::decimal(message_id))),
            );
            JsonView::Object(json::with(f2, "emoji"@, Some(JsonView::Text(emoji))))
        },
    }
}

/// The value that an outbound content is stored as; absent parts are left out.
pub open spec fn outbound_value(c: OutboundView) -> JsonView {
    let f1 = json::with(Seq::empty(), "text"@, maybe_text(c.text));
    let f2 = json::with(
        f1,
        "files"@,
        if c.files.len() == 0 {
            None
        } else {
            Some(json::texts_value(c.files))
        },
    );
    let f3 = json::with(
        f2,
        "operation"@,
        match c.operation {
            Some(op) => Some(operation_value(op)),
            None => None,
        },
    );
    JsonView::Object(f3 + c.extra)
}

/// Whether a field is one that an outbound content gives a meaning to.
fn is_known_key(key: &str) -> (r: bool)
    ensures
        r == known_key(key@),
{
    text::same(key, "text") || text::same(key, "files") || text::same(key, "operation")
}

fn copy_unknown(fields: &Vec<(String, Json)>) -> (r: Vec<(String, Json)>)
    ensures
        json::fields_view(r@) == unknown_fields(json::fields_view(fields@)),
{
    let ghost all = json::fields_view(fields@);
    let mut out = no_fields();
    let mut i: usize = 0;
    assert(all.take(0).len() == 0);
    while i < fields.len()
        invariant
            i <= fields@.len(),
            all == json::fields_view(fields@),
            json::fields_view(out@) == unknown_fields(all.take(i as int)),
        decreases fields@.len() - i,
    {
        proof {
            let now = all.take(i + 1);
            assert(now.drop_last() == all.take(i as int));
            assert(now.last() == (fields@[i as int].0@, fields@[i as int].1@));
        }
        if !is_known_key(&fields[i].0) {
            json::add_field(&mut out, &fields[i].0, fields[i].1.copy());
        }
        i += 1;
    }
    assert(all.take(i as int) == all);
    out
}

impl Operation {
    /// The operation that a value is.
    pub fn decode(value: &Json) -> (r: Option<Operation>)
        ensures
            match r {
                Some(op) => operation_of(value@) == Some(op@),
                None => operation_of(value@) is None,
            },
    {
        let tag = json::as_text(value.part(0, "type"))?;
        if text::same(&tag, "ask_question") {
            if !value.is_record(5) {
                return None;
            }
            let question_id = json::as_text(value.part(1, "question_id"))?;
            let title = json::as_text(value.part(2, "title"))?;
            let question = json::as_text(value.part(3, "question"))?;
            let options = match value.part(4, "options") {
                Some(list) => json::as_texts(list)?,
                None => {
                    return None;
                },
            };
            Some(Operation::AskQuestion { question_id, title, question, options })
        } else if text::same(&tag, "approval") {
            if !value.is_record(5) {
                return None;
            }
            let approval_id = json::as_text(value.part(1, "approval_id"))?;
            let command = json::as_text(value.part(2, "command"))?;
            let args = match value.part(3, "args") {
                Some(Json::Object(fields)) => {
                    proof {
                        json::lemma_object_view(*fields);
                    }
                    copy_fields(fields)
                },
                _ => {
                    return None;
                },
            };
            let summary = json::as_text(value.part(4, "summary"))?;
            Some(Operation::Approval { approval_id, command, args, summary })
        } else if text::same(&tag, "edit") {
            if !value.is_record(3) {
                return None;
            }
            let message_id = MessageSeq::new(json::as_integer(value.part(1, "message_id"))?);
            let text = json::as_text(value.part(2, "text"))?;
            Some(Operation::Edit { message_id, text })
        } else if text::same(&tag, "reaction") {
            if !value.is_record(3) {
                return None;
            }
            let message_id = MessageSeq::new(json::as_integer(value.part(1, "message_id"))?);
            let emoji = json::as_text(value.part(2, "emoji"))?;
            Some(Operation::Reaction { message_id, emoji })
        } else {
            None
        }
    }

    /// The operation as a JSON value.
    pub fn to_value(&self) -> (r: Json)
        ensures
            r@ == operation_value(self@),
    {
        let mut fields = no_fields();
        match self {
            Operation::AskQuestion { question_id, title, question, options } => {
                json::add_optional(&mut fields, "type", Some(json::text_json("ask_question")));
                json::add_optional(&mut fields, "question_id", Some(json::text_json(question_id)));
                json::add_optional(&mut fields, "title", Some(json::text_json(title)));
                json::add_optional(&mut fields, "question", Some(json::text_json(question)));
                json::add_optional(&mut fields, "options", Some(json::from_texts(options)));
            },
            Operation::Approval { approval_id, command, args, summary } => {
                json::add_optional(&mut fields, "type", Some(json::text_json("approval")));
                json::add_optional(&mut fields, "approval_id", Some(json::text_json(approval_id)));
                json::add_optional(&mut fields, "command", Some(json::text_json(command)));
                json::add_optional(&mut fields, "args", Some(json::object(copy_fields(args))));
                json::add_optional(&mut fields, "summary", Some(json::text_json(summary)));
            },
            Operation::Edit { message_id, text } => {
                json::add_optional(&mut fields, "type", Some(json::text_json("edit")));
                json::add_optional(
                    &mut fields,
                    "message_id",
                    Some(Json::Number(message_id.to_text())),
                );
                json::add_optional(&mut fields, "text", Some(json::text_json(text)));
            },
            Operation::Reaction { message_id, emoji } => {
                json::add_optional(&mut fields, "type", Some(json::text_json("reaction")));
                json::add_optional(
                    &mut fields,
                    "message_id",
                    Some(Json::Number(message_id.to_text())),
                );
                json::add_optional(&mut fields, "emoji", Some(json::text_json(emoji)));
            },
        }
        json::object(fields)
    }
}

impl OutboundContent {
    /// The content that is nothing but a text.
    pub fn from_text(text: &str) -> (r: Self)
        ensures
            r@ == text_content(text@),
    {
        let r = OutboundContent {
            text: Some(text.to_owned()),
            files: Vec::new(),
            operation: None,
            extra: no_fields(),
        };
        assert(r@.files =~= Seq::empty());
        r
    }

    /// The outbound content that a value is.
    pub fn decode(value: &Json) -> (r: Option<Self>)
        ensures
            match r {
                Some(c) => outbound_of(value@) == Some(c@),
                None => outbound_of(value@) is None,
            },
    {
        match value {
            Json::Object(fields) => {
                proof {
                    json::lemma_object_view(*fields);
                }
                let text = json::as_optional_text(json::field(fields, "text"))?;
                let files = match json::field(fields, "files") {
                    None => {
                        let none: Vec<String> = Vec::new();
                        assert(text::views(none@) =~= Seq::empty());
                        none
                    },
                    Some(list) => json::as_texts(list)?,
                };
                let operation = match json::field(fields, "operation") {
                    None => None,
                    Some(Json::Null) => None,
                    Some(given) => Some(Operation::decode(given)?),
                };
                let extra = copy_unknown(fields);
                Some(OutboundContent { text, files, operation, extra })
            },
            _ => None,
        }
    }

    /// Reads a stored outbound content.
    pub fn parse(json: &str) -> (r: Result<Self, ContentError>)
        ensures
            match r {
                Ok(c) => outbound_meaning(json@) == Ok::<OutboundView, Seq<char>>(c@),
                Err(e) => e.kind_text() == "outbound"@ && outbound_meaning(json@) == Err::<
                    OutboundView,
                    Seq<char>,
                >(e.reason_text()),
            },
    {
        match Json::parse(json) {
            Err(reason) => Err(ContentError::Malformed { kind: "outbound".to_owned(), reason }),
            Ok(value) => match Self::decode(&value) {
                Some(content) => Ok(content),
                None => Err(
                    ContentError::Malformed {
                        kind: "outbound".to_owned(),
                        reason: "unexpected shape".to_owned(),
                    },
                ),
            },
        }
    }

    /// The content as a JSON value.
    pub fn to_value(&self) -> (r: Json)
        ensures
            r@ == outbound_value(self@),
    {
        let mut fields = no_fields();
        json::add_optional(&mut fields, "text", maybe_text_json(&self.text));
        let files = if self.files.len() == 0 {
            None
        } else {
            Some(json::from_texts(&self.files))
        };
        json::add_optional(&mut fields, "files", files);
        let operation = match &self.operation {
            Some(op) => Some(op.to_value()),
            None => None,
        };
        json::add_optional(&mut fields, "operation", operation);
        let ghost known = json::fields_view(fields@);
        let mut i: usize = 0;
        let ghost extra = json::fields_view(self.extra@);
        assert(known + extra.take(0) =~= known);
        while i < self.extra.len()
            invariant
                i <= self.extra@.len(),
                extra == json::fields_view(self.extra@),
                json::fields_view(fields@) == known + extra.take(i as int),
            decreases self.extra@.len() - i,
        {
            json::add_field(&mut fields, &self.extra[i].0, self.extra[i].1.copy());
            assert((known + extra.take(i as int)).push(extra[i as int]) =~= known + extra.take(
                i + 1,
            ));
            i += 1;
        }
        assert(extra.take(i as int) =~= extra);
        json::object(fields)
    }

    /// The content as JSON text.
    pub fn to_text(&self) -> (r: String)
        ensures
            r@ == json::encoded(outbound_value(self@)),
    {
        self.to_value().encode()
    }
}

/// Reading the value that an operation is stored as gives the operation back.
pub proof fn operation_round_trips(op: OperationView)
    requires
        op matches OperationView::Edit { message_id, .. } ==> i64::MIN <= message_id <= i64::MAX,
        op matches OperationView::Reaction { message_id, .. } ==> i64::MIN <= message_id
            <= i64::MAX,
    ensures
        operation_of(operation_value(op)) == Some(op),
{
    broadcast use {json::lemma_lookup_with, json::lemma_lookup_empty};

    reveal_strlit("type");
    reveal_strlit("ask_question");
    reveal_strlit("approval");
    reveal_strlit("edit");
    reveal_strlit("reaction");
    reveal_strlit("question_id");
    reveal_strlit("title");
    reveal_strlit("question");
    reveal_strlit("options");
    reveal_strlit("approval_id");
    reveal_strlit("command");
    reveal_strlit("args");
    reveal_strlit("summary");
    reveal_strlit("message_id");
    reveal_strlit("text");
    reveal_strlit("emoji");
    assert("type"@.len() == 4);
    assert("ask_question"@.len() == 12);
    assert("approval"@.len() == 8);
    assert("edit"@.len() == 4);
    assert("reaction"@.len() == 8);
    assert("question_id"@.len() == 11);
    assert("title"@.len() == 5);
    assert("question"@.len() == 8);
    assert("options"@.len() == 7);
    assert("approval_id"@.len() == 11);
    assert("command"@.len() == 7);
    assert("args"@.len() == 4);
    assert("summary"@.len() == 7);
    assert("message_id"@.len() == 10);
    assert("text"@.len() == 4);
    assert("emoji"@.len() == 5);
    assert("type"@[0] != "edit"@[0]);
    assert("type"@[0] != "args"@[0]);
    assert("type"@[1] != "text"@[1]);
    assert("approval"@[0] != "reaction"@[0]);
    assert("approval"@[0] != "question"@[0]);
    assert("edit"@[0] != "args"@[0]);
    assert("edit"@[0] != "text"@[0]);
    assert("reaction"@[0] != "question"@[0]);
    assert("question_id"@[0] != "approval_id"@[0]);
    assert("title"@[0] != "emoji"@[0]);
    assert("options"@[0] != "command"@[0]);
    assert("options"@[0] != "summary"@[0]);
    assert("command"@[0] != "summary"@[0]);
    assert("args"@[0] != "text"@[0]);
    let v = operation_value(op);
    match op {
        OperationView::AskQuestion { question_id, title, question, options } => {
            assert(json::get(v, "type"@) == Some(JsonView::Text("ask_question"@)));
            assert(json::get(v, "question_id"@) == Some(JsonView::Text(question_id)));
            assert(json::get(v, "title"@) == Some(JsonView::Text(title)));
            assert(json::get(v, "question"@) == Some(JsonView::Text(question)));
            assert(json::get(v, "options"@) == Some(json::texts_value(options)));
            lemma_texts_round_trip(options);
        },
        OperationView::Approval { approval_id, command, args, summary } => {
            assert(json::get(v, "type"@) == Some(JsonView::Text("approval"@)));
            assert(json::get(v, "approval_id"@) == Some(JsonView::Text(approval_id)));
            assert(json::get(v, "command"@) == Some(JsonView::Text(command)));
            assert(json::get(v, "args"@) == Some(JsonView::Object(args)));
            assert(json::get(v, "summary"@) == Some(JsonView::Text(summary)));
        },
        OperationView::Edit { message_id, text } => {
            assert(json::get(v, "type"@) == Some(JsonView::Text("edit"@)));
            assert(json::get(v, "message_id"@) == Some(
                JsonView::Number(text::decimal(message_id)),
            ));
            assert(json::get(v, "text"@) == Some(JsonView::Text(text)));
            text::lemma_decimal_read_back(message_id);
        },
        OperationView::Reaction { message_id, emoji } => {
            assert(json::get(v, "type"@) == Some(JsonView::Text("reaction"@)));
            assert(json::get(v, "message_id"@) == Some(
                JsonView::Number(text::decimal(message_id)),
            ));
            assert(json::get(v, "emoji"@) == Some(JsonView::Text(emoji)));
            text::lemma_decimal_read_back(message_id);
        },
    }
}

proof fn lemma_texts_round_trip(list: Seq<Seq<char>>)
    ensures
        json::texts_of(json::texts_value(list)) == Some(list),
{
    let items = json::texts_value(list)->List_0;
    assert forall|i: int| 0 <= i < items.len() implies (#[trigger] items[i]) is Text by {}
    assert(Seq::new(items.len(), |i: int| items[i]->Text_0) =~= list);
}

/// Reading the value that an outbound content is stored as gives the content
/// back, unknown fields included, as long as these are none of the known ones.
pub proof fn outbound_round_trips(c: OutboundView)
    requires
        forall|i: int| 0 <= i < c.extra.len() ==> !known_key((#[trigger] c.extra[i]).0),
        c.operation matches Some(OperationView::Edit { message_id, .. }) ==> i64::MIN <= message_id
            <= i64::MAX,
        c.operation matches Some(OperationView::Reaction { message_id, .. }) ==> i64::MIN
            <= message_id <= i64::MAX,
    ensures
        outbound_of(outbound_value(c)) == Some(c),
{
    broadcast use {json::lemma_lookup_with, json::lemma_lookup_empty};

    reveal_strlit("text");
    reveal_strlit("files");
    reveal_strlit("operation");
    assert("text"@.len() != "files"@.len());
    assert("text"@.len() != "operation"@.len());
    assert("files"@.len() != "operation"@.len());
    let f1 = json::with(Seq::empty(), "text"@, maybe_text(c.text));
    let f2 = json::with(
        f1,
        "files"@,
        if c.files.len() == 0 {
            None
        } else {
            Some(json::texts_value(c.files))
        },
    );
    let f3 = json::with(
        f2,
        "operation"@,
        match c.operation {
            Some(op) => Some(operation_value(op)),
            None => None,
        },
    );
    let fields = f3 + c.extra;
    assert(outbound_value(c) == JsonView::Object(fields));
    lemma_extra_hides_nothing(f3, c.extra, "text"@);
    lemma_extra_hides_nothing(f3, c.extra, "files"@);
    lemma_extra_hides_nothing(f3, c.extra, "operation"@);
    if c.files.len() == 0 {
        assert(c.files =~= Seq::empty());
    } else {
        lemma_texts_round_trip(c.files);
    }
    if let Some(op) = c.operation {
        operation_round_trips(op);
    }
    lemma_unknown_of_known(f3);
    lemma_unknown_split(f3, c.extra);
}

proof fn lemma_extra_hides_nothing(known: Fields, extra: Fields, key: Seq<char>)
    requires
        known_key(key),
        forall|i: int| 0 <= i < extra.len() ==> !known_key((#[trigger] extra[i]).0),
    ensures
        json::lookup(known + extra, key) == json::lookup(known, key),
    decreases extra.len(),
{
    if extra.len() > 0 {
        let shorter = extra.drop_last();
        assert forall|i: int| 0 <= i < shorter.len() implies !known_key(
            (#[trigger] shorter[i]).0,
        ) by {
            assert(shorter[i] == extra[i]);
        }
        lemma_extra_hides_nothing(known, shorter, key);
        json::lemma_lookup_push(known + shorter, extra.last().0, extra.last().1, key);
        assert((known + shorter).push((extra.last().0, extra.last().1)) =~= known + extra);
        assert(!known_key(extra[extra.len() - 1].0));
    } else {
        assert(known + extra =~= known);
    }
}

proof fn lemma_unknown_of_known(fields: Fields)
    requires
        forall|i: int| 0 <= i < fields.len() ==> known_key((#[trigger] fields[i]).0),
    ensures
        unknown_fields(fields) == Seq::<(Seq<char>, JsonView)>::empty(),
    decreases fields.len(),
{
    if fields.len() > 0 {
        let shorter = fields.drop_last();
        assert forall|i: int| 0 <= i < shorter.len() implies known_key(
            (#[trigger] shorter[i]).0,
        ) by {
            assert(shorter[i] == fields[i]);
        }
        lemma_unknown_of_known(shorter);
        assert(known_key(fields[fields.len() - 1].0));
    }
}

proof fn lemma_unknown_split(known: Fields, extra: Fields)
    requires
        unknown_fields(known) == Seq::<(Seq<char>, JsonView)>::empty(),
        forall|i: int| 0 <= i < extra.len() ==> !known_key((#[trigger] extra[i]).0),
    ensures
        unknown_fields(known + extra) == extra,
    decreases extra.len(),
{
    if extra.len() > 0 {
        let shorter = extra.drop_last();
        assert forall|i: int| 0 <= i < shorter.len() implies !known_key(
            (#[trigger] shorter[i]).0,
        ) by {
            assert(shorter[i] == extra[i]);
        }
        lemma_unknown_split(known, shorter);
        let whole = known + extra;
        assert(whole.drop_last() =~= known + shorter);
        assert(whole.last() == extra.last());
        assert(!known_key(extra[extra.len() - 1].0));
        assert(shorter.push(extra.last()) =~= extra);
    } else {
        assert(known + extra =~= known);
        assert(extra =~= Seq::empty());
    }
}

/// A known field never ends up among the unknown ones.
pub proof fn known_fields_do_not_leak(value: JsonView)
    ensures
        outbound_of(value) matches Some(c) ==> forall|i: int|
            0 <= i < c.extra.len() ==> !known_key((#[trigger] c.extra[i]).0),
{
    if let JsonView::Object(fields) = value {
        lemma_unknown_are_unknown(fields);
    }
}

proof fn lemma_unknown_are_unknown(fields: Fields)
    ensures
        forall|i: int|
            0 <= i < unknown_fields(fields).len() ==> !known_key(
                (#[trigger] unknown_fields(fields)[i]).0,
            ),
    decreases fields.len(),
{
    if fields.len() > 0 {
        lemma_unknown_are_unknown(fields.drop_last());
        let rest = unknown_fields(fields.drop_last());
        assert forall|i: int| 0 <= i < unknown_fields(fields).len() implies !known_key(
            (#[trigger] unknown_fields(fields)[i]).0,
        ) by {
            if i < rest.len() {
                assert(unknown_fields(fields)[i] == rest[i]);
            }
        }
    }
}

// ---------------------------------------------------------------------------
// Routing

/// Where a message came from or goes to; each part may be open.
#[derive(Debug, PartialEq, Eq)]
pub struct Routing {
    pub channel_type: Option<String>,
    pub platform_id: Option<String>,
    pub thread_id: Option<String>,
}

/// The mathematical value of a [`Routing`].
#[verifier::ext_equal]
pub struct RoutingView {
    pub channel_type: Option<Seq<char>>,
    pub platform_id: Option<Seq<char>>,
    pub thread_id: Option<Seq<char>>,
}

/// A routing with every part open.
pub open spec fn open_routing() -> RoutingView {
    RoutingView { channel_type: None, platform_id: None, thread_id: None }
}

impl Routing {
    pub open spec fn view(&self) -> RoutingView {
        RoutingView {
            channel_type: text::opt_view(self.channel_type),
            platform_id: text::opt_view(self.platform_id),
            thread_id: text::opt_view(self.thread_id),
        }
    }
}

impl Default for Routing {
    fn default() -> (r: Self)
        ensures
            r@ == open_routing(),
    {
        Routing { channel_type: None, platform_id: None, thread_id: None }
    }
}

impl Clone for Routing {
    fn clone(&self) -> (r: Self)
        ensures
            r == *self,
    {
        Routing {
            channel_type: text::clone_opt(&self.channel_type),
            platform_id: text::clone_opt(&self.platform_id),
            thread_id: text::clone_opt(&self.thread_id),
        }
    }
}

// ---------------------------------------------------------------------------
// What the fields of a content mean

/// A chat message has its sender and its text; each of its fields is read from the
/// field of its name, and what may be left out is absent, none or not from oneself.
pub proof fn chats_are_read_field_by_field(value: JsonView)
    ensures
        chat_of(value) matches Some(c) ==> {
            &&& json::is_record(value, 6)
            &&& json::part(value, 0, "sender"@) == Some(JsonView::Text(c.sender))
            &&& json::part(value, 2, "text"@) == Some(JsonView::Text(c.text))
            &&& c.sender_id is Some ==> json::part(value, 1, "sender_id"@) == Some(
                JsonView::Text(c.sender_id->0),
            )
            &&& json::part(value, 1, "sender_id"@) is Some && c.sender_id is None ==> json::part(
                value,
                1,
                "sender_id"@,
            ) == Some(JsonView::Null)
            &&& c.is_from_me <==> json::part(value, 4, "is_from_me"@) == Some(JsonView::Bool(true))
            &&& json::part(value, 3, "attachments"@) is None ==> c.attachments.len() == 0
            &&& json::part(value, 3, "attachments"@) is Some ==> (json::part(
                value,
                3,
                "attachments"@,
            ) matches Some(JsonView::List(items)) && items.len() == c.attachments.len() && forall|
                i: int,
            |
                0 <= i < items.len() ==> attachment_of(#[trigger] items[i]) == Some(
                    c.attachments[i],
                ))
            &&& c.quoted matches Some(q) ==> (json::part(value, 5, "quoted"@) matches Some(given)
                && json::part(given, 0, "sender"@) == Some(JsonView::Text(q.sender)) && json::part(
                given,
                1,
                "text"@,
            ) == Some(JsonView::Text(q.text)))
            &&& c.quoted is None ==> json::part(value, 5, "quoted"@) is None || json::part(
                value,
                5,
                "quoted"@,
            ) == Some(JsonView::Null)
        },
        !(json::part(value, 0, "sender"@) matches Some(JsonView::Text(_))) ==> chat_of(value)
            is None,
        !(json::part(value, 2, "text"@) matches Some(JsonView::Text(_))) ==> chat_of(value) is None,
{
}

/// An attachment has a name, and an address and a path where they are given.
pub proof fn attachments_are_read_field_by_field(value: JsonView)
    ensures
        attachment_of(value) matches Some(a) ==> {
            &&& json::part(value, 0, "name"@) == Some(JsonView::Text(a.name))
            &&& a.url is Some ==> json::part(value, 1, "url"@) == Some(JsonView::Text(a.url->0))
            &&& a.path is Some ==> json::part(value, 2, "path"@) == Some(JsonView::Text(a.path->0))
            &&& json::part(value, 1, "url"@) matches Some(JsonView::Text(_)) ==> a.url is Some
            &&& json::part(value, 2, "path"@) matches Some(JsonView::Text(_)) ==> a.path is Some
        },
{
}

/// A task has a prompt, a script where one is given, and wakes the agent unless it
/// says that it does not.
pub proof fn tasks_are_read_field_by_field(value: JsonView)
    ensures
        task_of(value) matches Some(t) ==> {
            &&& json::part(value, 0, "prompt"@) == Some(JsonView::Text(t.prompt))
            &&& t.script is Some ==> json::part(value, 1, "script"@) == Some(
                JsonView::Text(t.script->0),
            )
            &&& json::part(value, 1, "script"@) matches Some(JsonView::Text(_)) ==> t.script
                is Some
            &&& !t.wake_agent <==> json::part(value, 2, "wake_agent"@) == Some(
                JsonView::Bool(false),
            )
        },
        !(json::part(value, 0, "prompt"@) matches Some(JsonView::Text(_))) ==> task_of(value)
            is None,
{
}

/// A webhook has its source, its event and its payload, whatever that is; an answer
/// of the system has its action, its status and its result, which is null where none
/// is given.
pub proof fn other_contents_are_read_field_by_field(value: JsonView)
    ensures
        webhook_of(value) matches Some(w) ==> {
            &&& json::part(value, 0, "source"@) == Some(JsonView::Text(w.source))
            &&& json::part(value, 1, "event"@) == Some(JsonView::Text(w.event))
            &&& json::part(value, 2, "payload"@) == Some(w.payload)
        },
        json::is_record(value, 3) && json::text_of(json::part(value, 0, "source"@)) is Some
            && json::text_of(json::part(value, 1, "event"@)) is Some && json::part(
            value,
            2,
            "payload"@,
        ) is Some ==> webhook_of(value) is Some,
        system_of(value) matches Some(s) ==> {
            &&& json::part(value, 0, "action"@) == Some(JsonView::Text(s.action))
            &&& json::part(value, 1, "status"@) == Some(JsonView::Text(s.status))
            &&& json::part(value, 2, "result"@) is Some ==> json::part(value, 2, "result"@) == Some(
                s.result,
            )
            &&& json::part(value, 2, "result"@) is None ==> s.result == JsonView::Null
        },
{
}

/// A message is read as what its kind says, and a kind that is not known is read as
/// it is.
pub proof fn contents_are_read_by_their_kind(kind: Seq<char>, value: JsonView)
    ensures
        inbound_of("chat"@, value) is Some <==> chat_of(value) is Some,
        inbound_of("chat"@, value) matches Some(c) ==> c == InboundView::Chat(chat_of(value)->0),
        inbound_of("task"@, value) is Some <==> task_of(value) is Some,
        inbound_of("task"@, value) matches Some(c) ==> c == InboundView::Task(task_of(value)->0),
        inbound_of("webhook"@, value) is Some <==> webhook_of(value) is Some,
        inbound_of("webhook"@, value) matches Some(c) ==> c == InboundView::Webhook(
            webhook_of(value)->0,
        ),
        inbound_of("system"@, value) is Some <==> system_of(value) is Some,
        inbound_of("system"@, value) matches Some(c) ==> c == InboundView::System(
            system_of(value)->0,
        ),
        kind != "chat"@ && kind != "task"@ && kind != "webhook"@ && kind != "system"@
            ==> inbound_of(kind, value) == Some(InboundView::Raw(value)),
{
    lemma_kind_read(MessageKind::Chat);
    lemma_kind_read(MessageKind::Task);
    lemma_kind_read(MessageKind::Webhook);
    lemma_kind_read(MessageKind::System);
    if kind_of(kind) is Some {
        let known = kind_of(kind)->0;
        assert(known.text() == kind);
    }
}

proof fn lemma_kind_read(kind: MessageKind)
    ensures
        kind_of(kind.text()) == Some(kind),
{
    assert(exists|other: MessageKind| #[trigger] other.text() == kind.text());
    let found = kind_of(kind.text())->0;
    MessageKind::texts_differ(found, kind);
}

/// An operation says by its type what it is, and its parts are read from the fields
/// of their names.
pub proof fn operations_are_read_field_by_field(value: JsonView)
    ensures
        operation_of(value) matches Some(OperationView::AskQuestion {
            question_id,
            title,
            question,
            options,
        }) ==> {
            &&& json::part(value, 0, "type"@) == Some(JsonView::Text("ask_question"@))
            &&& json::part(value, 1, "question_id"@) == Some(JsonView::Text(question_id))
            &&& json::part(value, 2, "title"@) == Some(JsonView::Text(title))
            &&& json::part(value, 3, "question"@) == Some(JsonView::Text(question))
            &&& json::part(value, 4, "options"@) is Some && json::texts_of(
                json::part(value, 4, "options"@)->0,
            ) == Some(options)
        },
        operation_of(value) matches Some(OperationView::Approval {
            approval_id,
            command,
            args,
            summary,
        }) ==> {
            &&& json::part(value, 0, "type"@) == Some(JsonView::Text("approval"@))
            &&& json::part(value, 1, "approval_id"@) == Some(JsonView::Text(approval_id))
            &&& json::part(value, 2, "command"@) == Some(JsonView::Text(command))
            &&& json::part(value, 3, "args"@) == Some(JsonView::Object(args))
            &&& json::part(value, 4, "summary"@) == Some(JsonView::Text(summary))
        },
        operation_of(value) matches Some(OperationView::Edit { message_id, text }) ==> {
            &&& json::part(value, 0, "type"@) == Some(JsonView::Text("edit"@))
            &&& json::integer_of(json::part(value, 1, "message_id"@)) == Some(message_id)
            &&& json::part(value, 2, "text"@) == Some(JsonView::Text(text))
        },
        operation_of(value) matches Some(OperationView::Reaction { message_id, emoji }) ==> {
            &&& json::part(value, 0, "type"@) == Some(JsonView::Text("reaction"@))
            &&& json::integer_of(json::part(value, 1, "message_id"@)) == Some(message_id)
            &&& json::part(value, 2, "emoji"@) == Some(JsonView::Text(emoji))
        },
{
    reveal_strlit("ask_question");
    reveal_strlit("approval");
    reveal_strlit("edit");
    reveal_strlit("reaction");
    assert("ask_question"@.len() == 12 && "approval"@.len() == 8 && "edit"@.len() == 4
        && "reaction"@.len() == 8);
    assert("approval"@[0] == 'a' && "reaction"@[0] == 'r');
}

/// What goes out is read from an object: its text, its files and its operation from
/// the fields of these names, and every other field is kept as it is.
pub proof fn outbound_contents_are_read_field_by_field(fields: Fields, i: int)
    ensures
        outbound_of(JsonView::Object(fields)) matches Some(c) ==> {
            &&& c.text is Some ==> json::lookup(fields, "text"@) == Some(JsonView::Text(c.text->0))
            &&& json::lookup(fields, "text"@) matches Some(JsonView::Text(_)) ==> c.text is Some
            &&& json::lookup(fields, "files"@) is None ==> c.files.len() == 0
            &&& json::lookup(fields, "files"@) matches Some(list) ==> json::texts_of(list) == Some(
                c.files,
            )
            &&& c.operation is Some ==> json::lookup(fields, "operation"@) is Some && operation_of(
                json::lookup(fields, "operation"@)->0,
            ) == c.operation
            &&& c.operation is None ==> json::lookup(fields, "operation"@) is None || json::lookup(
                fields,
                "operation"@,
            ) == Some(JsonView::Null)
            &&& 0 <= i < fields.len() && fields[i].0 != "text"@ && fields[i].0 != "files"@
                && fields[i].0 != "operation"@ ==> c.extra.contains(fields[i])
        },
{
    if 0 <= i < fields.len() && !known_key(fields[i].0) {
        lemma_unknown_kept(fields, i);
    }
}

proof fn lemma_unknown_kept(fields: Fields, i: int)
    requires
        0 <= i < fields.len(),
        !known_key(fields[i].0),
    ensures
        unknown_fields(fields).contains(fields[i]),
    decreases fields.len(),
{
    let rest = unknown_fields(fields.drop_last());
    if i == fields.len() - 1 {
        assert(unknown_fields(fields)[rest.len() as int] == fields[i]);
    } else {
        lemma_unknown_kept(fields.drop_last(), i);
        let k = choose|k: int| 0 <= k < rest.len() && rest[k] == fields[i];
        assert(unknown_fields(fields)[k] == fields[i]);
    }
}

/// A reply of text alone holds the text and nothing else.
pub proof fn replies_hold_their_text(said: Seq<char>)
    ensures
        text_content(said).text == Some(said),
        text_content(said).files.len() == 0,
        text_content(said).operation is None,
        text_content(said).extra.len() == 0,
{
}

} // verus!
