//! The web channel: what a delivery writes into the transcript.

use vstd::prelude::*;

use crate::channels::{Address, ChannelError, OutboundDelivery};
use crate::db::web_messages;
use crate::db::web_messages::{Direction, MessageRowKind, NewWebMessage, NewWebMessageView};
use crate::protocol::content::{Operation, OperationView, OutboundView};
use crate::protocol::ids::MessagingGroupId;
use crate::text;

verus! {

broadcast use vstd::string::group_string_axioms;

/// The name of the channel.
pub const CHANNEL_TYPE: &'static str = "web";

/// Who the agent's rows are from.
pub const AGENT_SENDER: &'static str = "assistant";

/// What stands for a message without a text.
pub const NO_TEXT: &'static str = "[no text]";

/// The row that a message becomes: a card for a question, its text otherwise.
pub open spec fn row_of(chat: Seq<char>, content: OutboundView) -> NewWebMessageView {
    match content.operation {
        Some(OperationView::AskQuestion { question_id, question, options, .. }) =>
            web_messages::card_of(
            chat,
            MessageRowKind::Question,
            AGENT_SENDER@,
            question,
            question_id,
            options,
        ),
        _ => NewWebMessageView {
            messaging_group_id: chat,
            direction: Direction::Out,
            sender: AGENT_SENDER@,
            body: match content.text {
                Some(body) => body,
                None => NO_TEXT@,
            },
            message_out_id: None,
            kind: MessageRowKind::Chat,
            question_id: None,
            options_json: None,
        },
    }
}

/// The row that a delivery writes into the transcript of its chat. `chat` is the
/// chat at the address, if there is one.
pub fn ledger_row(
    address: &Address,
    chat: Option<&MessagingGroupId>,
    delivery: &OutboundDelivery,
) -> (r: Result<NewWebMessage, ChannelError>)
    ensures
        match r {
            Ok(row) => chat matches Some(id) && row@ == row_of(id@, delivery.content@),
            Err(e) => chat is None && (e matches ChannelError::Delivery(reason) && reason@
                == "unknown web chat "@ + text::quoted(address.platform_id@)),
        },
{
    let id = match chat {
        Some(id) => id,
        None => {
            return Err(
                ChannelError::Delivery(
                    text::concat2("unknown web chat ", &text::quote(&address.platform_id)),
                ),
            );
        },
    };
    match &delivery.content.operation {
        Some(Operation::AskQuestion { question_id, question, options, .. }) => Ok(
            web_messages::question_row(id, AGENT_SENDER, question, question_id, options),
        ),
        _ => {
            let body = match &delivery.content.text {
                Some(body) => body.clone(),
                None => NO_TEXT.to_owned(),
            };
            Ok(web_messages::chat_row(id, Direction::Out, AGENT_SENDER, &body, None))
        },
    }
}

/// What an agent says is shown in the chat that it is delivered to, word for word, as
/// a message of the assistant.
pub proof fn replies_are_shown_as_said(chat: Seq<char>, content: OutboundView)
    requires
        !(content.operation matches Some(OperationView::AskQuestion { .. })),
    ensures
        ({
            let row = row_of(chat, content);
            &&& row.messaging_group_id == chat
            &&& row.direction == Direction::Out
            &&& row.sender == "assistant"@
            &&& row.kind == MessageRowKind::Chat
            &&& content.text matches Some(said) ==> row.body == said
            &&& content.text is None ==> row.body == "[no text]"@
            &&& row.question_id is None
            &&& row.options_json is None
        }),
{
}

/// A question is shown as a card in the chat, with its own identifier and options.
pub proof fn questions_are_shown_as_cards(
    chat: Seq<char>,
    content: OutboundView,
    question_id: Seq<char>,
    title: Seq<char>,
    question: Seq<char>,
    options: Seq<Seq<char>>,
)
    requires
        content.operation == Some(
            OperationView::AskQuestion { question_id, title, question, options },
        ),
    ensures
        ({
            let row = row_of(chat, content);
            &&& row.messaging_group_id == chat
            &&& row.direction == Direction::Out
            &&& row.sender == "assistant"@
            &&& row.kind == MessageRowKind::Question
            &&& row.body == question
            &&& row.question_id == Some(question_id)
            &&& row.options_json == Some(
                crate::json::encoded(crate::json::texts_value(options)),
            )
        }),
{
}

} // verus!
