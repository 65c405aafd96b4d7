//! The messages of a session: what came in, what goes out, and the transcript.

use vstd::prelude::*;

use crate::protocol::content::{Routing, RoutingView};
use crate::protocol::ids::{MessageInId, MessageOutId, SessionId};
use crate::protocol::message::{MessageKind, MessageSeq, MessageStatus};
use crate::text;

verus! {

broadcast use vstd::string::group_string_axioms;

/// A message for the agent, as the session keeps it.
#[derive(Debug, PartialEq, Eq)]
pub struct InboundMessage {
    pub id: MessageInId,
    pub seq: MessageSeq,
    pub kind: String,
    pub timestamp: String,
    pub status: MessageStatus,
    pub process_after: Option<String>,
    pub recurrence: Option<String>,
    pub series_id: Option<String>,
    pub tries: i64,
    pub trigger: bool,
    pub routing: Routing,
    pub content: String,
    pub source_session_id: Option<SessionId>,
}

/// The mathematical value of an [`InboundMessage`].
#[verifier::ext_equal]
pub struct InboundMessageView {
    pub id: Seq<char>,
    pub seq: int,
    pub kind: Seq<char>,
    pub timestamp: Seq<char>,
    pub status: MessageStatus,
    pub process_after: Option<Seq<char>>,
    pub recurrence: Option<Seq<char>>,
    pub series_id: Option<Seq<char>>,
    pub tries: int,
    pub trigger: bool,
    pub routing: RoutingView,
    pub content: Seq<char>,
    pub source_session_id: Option<Seq<char>>,
}

impl InboundMessage {
    pub open spec fn view(&self) -> InboundMessageView {
        InboundMessageView {
            id: self.id@,
            seq: self.seq@,
            kind: self.kind@,
            timestamp: self.timestamp@,
            status: self.status,
            process_after: text::opt_view(self.process_after),
            recurrence: text::opt_view(self.recurrence),
            series_id: text::opt_view(self.series_id),
            tries: self.tries as int,
            trigger: self.trigger,
            routing: self.routing@,
            content: self.content@,
            source_session_id: match self.source_session_id {
                Some(v) => Some(v@),
                None => None,
            },
        }
    }
}

impl Clone for InboundMessage {
    fn clone(&self) -> (r: Self)
        ensures
            r == *self,
    {
        InboundMessage {
            id: self.id.clone(),
            seq: self.seq,
            kind: self.kind.clone(),
            timestamp: self.timestamp.clone(),
            status: self.status,
            process_after: text::clone_opt(&self.process_after),
            recurrence: text::clone_opt(&self.recurrence),
            series_id: text::clone_opt(&self.series_id),
            tries: self.tries,
            trigger: self.trigger,
            routing: self.routing.clone(),
            content: self.content.clone(),
            source_session_id: match &self.source_session_id {
                Some(v) => Some(v.clone()),
                None => None,
            },
        }
    }
}

/// A message of the agent, as the session keeps it.
#[derive(Debug, PartialEq, Eq)]
pub struct OutboundMessage {
    pub id: MessageOutId,
    pub seq: MessageSeq,
    pub in_reply_to: Option<MessageInId>,
    pub kind: String,
    pub timestamp: String,
    pub routing: Routing,
    pub content: String,
}

/// The mathematical value of an [`OutboundMessage`].
#[verifier::ext_equal]
pub struct OutboundMessageView {
    pub id: Seq<char>,
    pub seq: int,
    pub in_reply_to: Option<Seq<char>>,
    pub kind: Seq<char>,
    pub timestamp: Seq<char>,
    pub routing: RoutingView,
    pub content: Seq<char>,
}

impl OutboundMessage {
    pub open spec fn view(&self) -> OutboundMessageView {
        OutboundMessageView {
            id: self.id@,
            seq: self.seq@,
            in_reply_to: match self.in_reply_to {
                Some(v) => Some(v@),
                None => None,
            },
            kind: self.kind@,
            timestamp: self.timestamp@,
            routing: self.routing@,
            content: self.content@,
        }
    }
}

impl Clone for OutboundMessage {
    fn clone(&self) -> (r: Self)
        ensures
            r == *self,
    {
        OutboundMessage {
            id: self.id.clone(),
            seq: self.seq,
            in_reply_to: match &self.in_reply_to {
                Some(v) => Some(v.clone()),
                None => None,
            },
            kind: self.kind.clone(),
            timestamp: self.timestamp.clone(),
            routing: self.routing.clone(),
            content: self.content.clone(),
        }
    }
}

/// A message for the agent that is to be written.
#[derive(Debug, PartialEq, Eq)]
pub struct NewInboundMessage {
    pub kind: MessageKind,
    pub content: String,
    pub routing: Routing,
    pub trigger: bool,
}

/// The mathematical value of a [`NewInboundMessage`].
#[verifier::ext_equal]
pub struct NewInboundMessageView {
    pub kind: MessageKind,
    pub content: Seq<char>,
    pub routing: RoutingView,
    pub trigger: bool,
}

impl NewInboundMessage {
    pub open spec fn view(&self) -> NewInboundMessageView {
        NewInboundMessageView {
            kind: self.kind,
            content: self.content@,
            routing: self.routing@,
            trigger: self.trigger,
        }
    }
}

impl Clone for NewInboundMessage {
    fn clone(&self) -> (r: Self)
        ensures
            r == *self,
    {
        NewInboundMessage {
            kind: self.kind,
            content: self.content.clone(),
            routing: self.routing.clone(),
            trigger: self.trigger,
        }
    }
}

/// A message of the agent that is to be written.
#[derive(Debug, PartialEq, Eq)]
pub struct NewOutboundMessage {
    pub kind: String,
    pub content: String,
    pub routing: Routing,
    pub in_reply_to: Option<MessageInId>,
}

/// The mathematical value of a [`NewOutboundMessage`].
#[verifier::ext_equal]
pub struct NewOutboundMessageView {
    pub kind: Seq<char>,
    pub content: Seq<char>,
    pub routing: RoutingView,
    pub in_reply_to: Option<Seq<char>>,
}

impl NewOutboundMessage {
    pub open spec fn view(&self) -> NewOutboundMessageView {
        NewOutboundMessageView {
            kind: self.kind@,
            content: self.content@,
            routing: self.routing@,
            in_reply_to: match self.in_reply_to {
                Some(v) => Some(v@),
                None => None,
            },
        }
    }
}

impl Clone for NewOutboundMessage {
    fn clone(&self) -> (r: Self)
        ensures
            r == *self,
    {
        NewOutboundMessage {
            kind: self.kind.clone(),
            content: self.content.clone(),
            routing: self.routing.clone(),
            in_reply_to: match &self.in_reply_to {
                Some(v) => Some(v.clone()),
                None => None,
            },
        }
    }
}

/// One entry of the conversation, in either direction.
#[derive(Debug, PartialEq, Eq)]
pub struct TranscriptEntry {
    pub seq: MessageSeq,
    pub inbound: bool,
    pub kind: String,
    pub content: String,
}

/// The mathematical value of a [`TranscriptEntry`].
#[verifier::ext_equal]
pub struct TranscriptEntryView {
    pub seq: int,
    pub inbound: bool,
    pub kind: Seq<char>,
    pub content: Seq<char>,
}

impl TranscriptEntry {
    pub open spec fn view(&self) -> TranscriptEntryView {
        TranscriptEntryView {
            seq: self.seq@,
            inbound: self.inbound,
            kind: self.kind@,
            content: self.content@,
        }
    }
}

impl Clone for TranscriptEntry {
    fn clone(&self) -> (r: Self)
        ensures
            r == *self,
    {
        TranscriptEntry {
            seq: self.seq,
            inbound: self.inbound,
            kind: self.kind.clone(),
            content: self.content.clone(),
        }
    }
}

impl NewInboundMessage {
    /// A chat message that starts a run.
    pub fn chat(content: String, routing: Routing) -> (r: Self)
        ensures
            r@ == (NewInboundMessageView {
                kind: MessageKind::Chat,
                content: content@,
                routing: routing@,
                trigger: true,
            }),
    {
        NewInboundMessage { kind: MessageKind::Chat, content, routing, trigger: true }
    }
}

impl NewOutboundMessage {
    /// A chat message that answers none.
    pub fn chat(content: String, routing: Routing) -> (r: Self)
        ensures
            r@ == (NewOutboundMessageView {
                kind: "chat"@,
                content: content@,
                routing: routing@,
                in_reply_to: None,
            }),
    {
        NewOutboundMessage { kind: "chat".to_owned(), content, routing, in_reply_to: None }
    }
}

} // verus!
