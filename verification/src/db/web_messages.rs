//! The transcript that the web channel shows.

use vstd::prelude::*;

use crate::db::questions;
use crate::protocol::ids::{MessageOutId, MessagingGroupId};
use crate::protocol::ParseEnumError;
use crate::text;

verus! {

broadcast use vstd::string::group_string_axioms;

/// Which way a message went.
#[derive(Debug, Clone, Copy, PartialEq, Eq, Hash, Structural)]
pub enum Direction {
    In,
    Out,
}

impl Direction {
    /// The text by which the value is stored and shown.
    pub open spec fn text(self) -> Seq<char> {
        match self {
            Direction::In => "in"@,
            Direction::Out => "out"@,
        }
    }

    /// No two values share a text.
    pub proof fn texts_differ(a: Direction, b: Direction)
        ensures
            a.text() == b.text() ==> a == b,
    {
        reveal_strlit("in");
        reveal_strlit("out");
        if a != b && a.text() == b.text() {
            assert(a.text().len() == b.text().len());
        }
    }

    /// Every value, in order of declaration.
    pub fn all() -> (r: Vec<Direction>)
        ensures
            r@ == seq![Direction::In, Direction::Out],
            forall|v: Direction| #[trigger] r@.contains(v),
    {
        let r = vec![Direction::In, Direction::Out];
        proof {
            assert(r@[0] == Direction::In);
            assert(r@[1] == Direction::Out);
        }
        r
    }

    /// The text by which the value is stored and shown.
    pub fn as_str(self) -> (r: &'static str)
        ensures
            r@ == self.text(),
    {
        match self {
            Direction::In => "in",
            Direction::Out => "out",
        }
    }

    /// The value with the given text; any other text is refused.
    pub fn parse(value: &str) -> (r: Result<Direction, ParseEnumError>)
        ensures
            forall|v: Direction| #[trigger] v.text() == value@ ==> r == Ok::<Direction, ParseEnumError>(v),
            match r {
                Ok(v) => v.text() == value@,
                Err(e) => e.type_label@ == "Direction"@ && e.value@ == value@,
            },
    {
        let r = if text::same(value, "in") {
            Ok(Direction::In)
        } else if text::same(value, "out") {
            Ok(Direction::Out)
        } else {
            Err(ParseEnumError { type_label: "Direction", value: value.to_owned() })
        };
        proof {
            assert forall|v: Direction| #[trigger] v.text() == value@ implies r == Ok::<Direction, ParseEnumError>(v) by {
                if r is Ok {
                    Direction::texts_differ(v, r->Ok_0);
                }
            }
        }
        r
    }
}

impl std::str::FromStr for Direction {
    type Err = ParseEnumError;

    fn from_str(value: &str) -> Result<Self, ParseEnumError> {
        Direction::parse(value)
    }
}

/// What a row of the transcript is.
#[derive(Debug, Clone, Copy, PartialEq, Eq, Hash, Structural)]
pub enum MessageRowKind {
    Chat,
    Question,
    Approval,
    Error,
}

impl MessageRowKind {
    /// The text by which the value is stored and shown.
    pub open spec fn text(self) -> Seq<char> {
        match self {
            MessageRowKind::Chat => "chat"@,
            MessageRowKind::Question => "question"@,
            MessageRowKind::Approval => "approval"@,
            MessageRowKind::Error => "error"@,
        }
    }

    /// No two values share a text.
    pub proof fn texts_differ(a: MessageRowKind, b: MessageRowKind)
        ensures
            a.text() == b.text() ==> a == b,
    {
        reveal_strlit("chat");
        reveal_strlit("question");
        reveal_strlit("approval");
        reveal_strlit("error");
        if a != b && a.text() == b.text() {
            assert(a.text().len() == b.text().len());
            assert(a.text()[0] == b.text()[0]);
        }
    }

    /// Every value, in order of declaration.
    pub fn all() -> (r: Vec<MessageRowKind>)
        ensures
            r@ == seq![MessageRowKind::Chat, MessageRowKind::Question, MessageRowKind::Approval, MessageRowKind::Error],
            forall|v: MessageRowKind| #[trigger] r@.contains(v),
    {
        let r = vec![MessageRowKind::Chat, MessageRowKind::Question, MessageRowKind::Approval, MessageRowKind::Error];
        proof {
            assert(r@[0] == MessageRowKind::Chat);
            assert(r@[1] == MessageRowKind::Question);
            assert(r@[2] == MessageRowKind::Approval);
            assert(r@[3] == MessageRowKind::Error);
        }
        r
    }

    /// The text by which the value is stored and shown.
    pub fn as_str(self) -> (r: &'static str)
        ensures
            r@ == self.text(),
    {
        match self {
            MessageRowKind::Chat => "chat",
            MessageRowKind::Question => "question",
            MessageRowKind::Approval => "approval",
            MessageRowKind::Error => "error",
        }
    }

    /// The value with the given text; any other text is refused.
    pub fn parse(value: &str) -> (r: Result<MessageRowKind, ParseEnumError>)
        ensures
            forall|v: MessageRowKind| #[trigger] v.text() == value@ ==> r == Ok::<MessageRowKind, ParseEnumError>(v),
            match r {
                Ok(v) => v.text() == value@,
                Err(e) => e.type_label@ == "MessageRowKind"@ && e.value@ == value@,
            },
    {
        let r = if text::same(value, "chat") {
            Ok(MessageRowKind::Chat)
        } else if text::same(value, "question") {
            Ok(MessageRowKind::Question)
        } else if text::same(value, "approval") {
            Ok(MessageRowKind::Approval)
        } else if text::same(value, "error") {
            Ok(MessageRowKind::Error)
        } else {
            Err(ParseEnumError { type_label: "MessageRowKind", value: value.to_owned() })
        };
        proof {
            assert forall|v: MessageRowKind| #[trigger] v.text() == value@ implies r == Ok::<MessageRowKind, ParseEnumError>(v) by {
                if r is Ok {
                    MessageRowKind::texts_differ(v, r->Ok_0);
                }
            }
        }
        r
    }
}

impl std::str::FromStr for MessageRowKind {
    type Err = ParseEnumError;

    fn from_str(value: &str) -> Result<Self, ParseEnumError> {
        MessageRowKind::parse(value)
    }
}

/// A row of the transcript. A question or approval without an answer is open.
#[derive(Debug, PartialEq, Eq)]
pub struct WebMessage {
    pub id: i64,
    pub messaging_group_id: MessagingGroupId,
    pub direction: Direction,
    pub sender: String,
    pub body: String,
    pub message_out_id: Option<MessageOutId>,
    pub created_at: String,
    pub kind: MessageRowKind,
    pub question_id: Option<String>,
    pub options: Vec<String>,
    pub answer: Option<String>,
}

/// The mathematical value of a [`WebMessage`].
#[verifier::ext_equal]
pub struct WebMessageView {
    pub id: int,
    pub messaging_group_id: Seq<char>,
    pub direction: Direction,
    pub sender: Seq<char>,
    pub body: Seq<char>,
    pub message_out_id: Option<Seq<char>>,
    pub created_at: Seq<char>,
    pub kind: MessageRowKind,
    pub question_id: Option<Seq<char>>,
    pub options: Seq<Seq<char>>,
    pub answer: Option<Seq<char>>,
}

impl WebMessage {
    pub open spec fn view(&self) -> WebMessageView {
        WebMessageView {
            id: self.id as int,
            messaging_group_id: self.messaging_group_id@,
            direction: self.direction,
            sender: self.sender@,
            body: self.body@,
            message_out_id: match self.message_out_id {
                Some(v) => Some(v@),
                None => None,
            },
            created_at: self.created_at@,
            kind: self.kind,
            question_id: text::opt_view(self.question_id),
            options: text::views(self.options@),
            answer: text::opt_view(self.answer),
        }
    }
}

impl Clone for WebMessage {
    fn clone(&self) -> (r: Self)
        ensures
            r@ == self@,
    {
        WebMessage {
            id: self.id,
            messaging_group_id: self.messaging_group_id.clone(),
            direction: self.direction,
            sender: self.sender.clone(),
            body: self.body.clone(),
            message_out_id: match &self.message_out_id {
                Some(v) => Some(v.clone()),
                None => None,
            },
            created_at: self.created_at.clone(),
            kind: self.kind,
            question_id: text::clone_opt(&self.question_id),
            options: text::clone_list(&self.options),
            answer: text::clone_opt(&self.answer),
        }
    }
}

/// A row that is to be added to the transcript; the database gives it a number and a time.
#[derive(Debug, PartialEq, Eq)]
pub struct NewWebMessage {
    pub messaging_group_id: MessagingGroupId,
    pub direction: Direction,
    pub sender: String,
    pub body: String,
    pub message_out_id: Option<MessageOutId>,
    pub kind: MessageRowKind,
    pub question_id: Option<String>,
    pub options_json: Option<String>,
}

/// The mathematical value of a [`NewWebMessage`].
#[verifier::ext_equal]
pub struct NewWebMessageView {
    pub messaging_group_id: Seq<char>,
    pub direction: Direction,
    pub sender: Seq<char>,
    pub body: Seq<char>,
    pub message_out_id: Option<Seq<char>>,
    pub kind: MessageRowKind,
    pub question_id: Option<Seq<char>>,
    pub options_json: Option<Seq<char>>,
}

impl NewWebMessage {
    pub open spec fn view(&self) -> NewWebMessageView {
        NewWebMessageView {
            messaging_group_id: self.messaging_group_id@,
            direction: self.direction,
            sender: self.sender@,
            body: self.body@,
            message_out_id: match self.message_out_id {
                Some(v) => Some(v@),
                None => None,
            },
            kind: self.kind,
            question_id: text::opt_view(self.question_id),
            options_json: text::opt_view(self.options_json),
        }
    }
}

impl Clone for NewWebMessage {
    fn clone(&self) -> (r: Self)
        ensures
            r == *self,
    {
        NewWebMessage {
            messaging_group_id: self.messaging_group_id.clone(),
            direction: self.direction,
            sender: self.sender.clone(),
            body: self.body.clone(),
            message_out_id: match &self.message_out_id {
                Some(v) => Some(v.clone()),
                None => None,
            },
            kind: self.kind,
            question_id: text::clone_opt(&self.question_id),
            options_json: text::clone_opt(&self.options_json),
        }
    }
}

/// A chat row.
pub fn chat_row(
    messaging_group_id: &MessagingGroupId,
    direction: Direction,
    sender: &str,
    body: &str,
    message_out_id: Option<&MessageOutId>,
) -> (r: NewWebMessage)
    ensures
        r@ == (NewWebMessageView {
            messaging_group_id: messaging_group_id@,
            direction,
            sender: sender@,
            body: body@,
            message_out_id: match message_out_id {
                Some(id) => Some(id@),
                None => None,
            },
            kind: MessageRowKind::Chat,
            question_id: None,
            options_json: None,
        }),
{
    NewWebMessage {
        messaging_group_id: messaging_group_id.clone(),
        direction,
        sender: sender.to_owned(),
        body: body.to_owned(),
        message_out_id: match message_out_id {
            Some(id) => Some(id.clone()),
            None => None,
        },
        kind: MessageRowKind::Chat,
        question_id: None,
        options_json: None,
    }
}

/// The row of a notice about an error.
pub open spec fn error_row_of(chat: Seq<char>, detail: Seq<char>) -> NewWebMessageView {
    NewWebMessageView {
        messaging_group_id: chat,
        direction: Direction::Out,
        sender: "system"@,
        body: detail,
        message_out_id: None,
        kind: MessageRowKind::Error,
        question_id: None,
        options_json: None,
    }
}

/// Whether the last row of a chat is this very notice.
pub open spec fn repeats(last: Option<WebMessageView>, detail: Seq<char>) -> bool {
    last matches Some(row) && row.kind == MessageRowKind::Error && row.body == detail
}

/// The row of a notice about an error; `None` where the last row is the same
/// notice, so that a session that keeps failing shows one card.
pub fn error_row(messaging_group_id: &MessagingGroupId, last: Option<&WebMessage>, detail: &str) -> (r:
    Option<NewWebMessage>)
    ensures
        ({
            let shown = repeats(
                match last {
                    Some(row) => Some(row@),
                    None => None,
                },
                detail@,
            );
            match r {
                None => shown,
                Some(row) => !shown && row@ == error_row_of(messaging_group_id@, detail@),
            }
        }),
{
    match last {
        Some(row) => {
            if row.kind == MessageRowKind::Error && text::same(&row.body, detail) {
                return None;
            }
        },
        None => {},
    }
    Some(
        NewWebMessage {
            messaging_group_id: messaging_group_id.clone(),
            direction: Direction::Out,
            sender: "system".to_owned(),
            body: detail.to_owned(),
            message_out_id: None,
            kind: MessageRowKind::Error,
            question_id: None,
            options_json: None,
        },
    )
}

/// The row of an open card: a question with its options, or an approval.
pub open spec fn card_of(
    chat: Seq<char>,
    kind: MessageRowKind,
    sender: Seq<char>,
    body: Seq<char>,
    id: Seq<char>,
    options: Seq<Seq<char>>,
) -> NewWebMessageView {
    NewWebMessageView {
        messaging_group_id: chat,
        direction: Direction::Out,
        sender,
        body,
        message_out_id: None,
        kind,
        question_id: Some(id),
        options_json: Some(crate::json::encoded(crate::json::texts_value(options))),
    }
}

/// The row of an open question.
pub fn question_row(
    messaging_group_id: &MessagingGroupId,
    sender: &str,
    question: &str,
    question_id: &str,
    options: &Vec<String>,
) -> (r: NewWebMessage)
    ensures
        r@ == card_of(
            messaging_group_id@,
            MessageRowKind::Question,
            sender@,
            question@,
            question_id@,
            text::views(options@),
        ),
{
    NewWebMessage {
        messaging_group_id: messaging_group_id.clone(),
        direction: Direction::Out,
        sender: sender.to_owned(),
        body: question.to_owned(),
        message_out_id: None,
        kind: MessageRowKind::Question,
        question_id: Some(question_id.to_owned()),
        options_json: Some(questions::options_text(options)),
    }
}

/// The row of an open approval: a card with two options.
pub fn approval_row(
    messaging_group_id: &MessagingGroupId,
    sender: &str,
    summary: &str,
    approval_id: &str,
) -> (r: NewWebMessage)
    ensures
        r@ == card_of(
            messaging_group_id@,
            MessageRowKind::Approval,
            sender@,
            summary@,
            approval_id@,
            seq!["Allow"@, "Deny"@],
        ),
{
    let options: Vec<String> = vec!["Allow".to_owned(), "Deny".to_owned()];
    assert(text::views(options@) =~= seq!["Allow"@, "Deny"@]);
    NewWebMessage {
        messaging_group_id: messaging_group_id.clone(),
        direction: Direction::Out,
        sender: sender.to_owned(),
        body: summary.to_owned(),
        message_out_id: None,
        kind: MessageRowKind::Approval,
        question_id: Some(approval_id.to_owned()),
        options_json: Some(questions::options_text(&options)),
    }
}

/// Rows that were read newest first, in the order in which they were written.
pub fn chronological(newest_first: Vec<WebMessage>) -> (r: Vec<WebMessage>)
    ensures
        r@ == newest_first@.reverse(),
{
    let mut rows = newest_first;
    let ghost all = newest_first@;
    let mut out: Vec<WebMessage> = Vec::new();
    while rows.len() > 0
        invariant
            rows@.len() + out@.len() == all.len(),
            rows@ == all.take(rows@.len() as int),
            out@ == all.skip(rows@.len() as int).reverse(),
        decreases rows@.len(),
    {
        let ghost n = rows@.len() as int;
        let ghost was = out@;
        match rows.pop() {
            Some(row) => {
                out.push(row);
                assert(out@ =~= all.skip(n - 1).reverse());
                assert(rows@ =~= all.take(n - 1));
            },
            None => {},
        }
    }
    assert(all.skip(0) =~= all);
    out
}

/// A notice that was just shown is not shown again, and another one is.
pub proof fn only_the_same_notice_collapses(row: WebMessageView, detail: Seq<char>, other: Seq<char>)
    requires
        row.kind == MessageRowKind::Error,
        row.body == detail,
    ensures
        repeats(Some(row), detail),
        other != detail ==> !repeats(Some(row), other),
        !repeats(None, detail),
{
}

/// A card shows what is asked in the chat that it is asked in, from who asks it, and
/// can be told by its number when it is answered.
pub proof fn cards_show_what_is_asked(
    chat: Seq<char>,
    kind: MessageRowKind,
    sender: Seq<char>,
    body: Seq<char>,
    id: Seq<char>,
    options: Seq<Seq<char>>,
)
    ensures
        ({
            let card = card_of(chat, kind, sender, body, id, options);
            &&& card.messaging_group_id == chat
            &&& card.kind == kind
            &&& card.sender == sender
            &&& card.body == body
            &&& card.question_id == Some(id)
            &&& card.direction == Direction::Out
            &&& card.message_out_id is None
            &&& card.options_json is Some
        }),
{
}

/// A notice of an error says what went wrong in the chat that it went wrong in, in
/// the name of the system, and asks nothing.
pub proof fn notices_say_what_went_wrong(chat: Seq<char>, detail: Seq<char>)
    ensures
        ({
            let row = error_row_of(chat, detail);
            &&& row.messaging_group_id == chat
            &&& row.body == detail
            &&& row.kind == MessageRowKind::Error
            &&& row.direction == Direction::Out
            &&& row.sender == "system"@
            &&& row.question_id is None
            &&& row.options_json is None
        }),
{
}

} // verus!
