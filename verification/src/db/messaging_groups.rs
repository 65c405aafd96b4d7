//! Messaging groups (chats) and the wirings that assign agents to them.

use vstd::prelude::*;

use crate::protocol::entities::{
    EngageMode, IgnoredMessagePolicy, SenderScope, SessionMode, UnknownSenderPolicy,
};
use crate::protocol::ids::{AgentGroupId, MessagingGroupId};
use crate::text;

verus! {

broadcast use vstd::string::group_string_axioms;

/// One chat on one channel.
#[derive(Debug, PartialEq, Eq)]
pub struct MessagingGroup {
    pub id: MessagingGroupId,
    pub channel_type: String,
    pub platform_id: String,
    pub name: Option<String>,
    pub is_group: bool,
    pub unknown_sender_policy: UnknownSenderPolicy,
    pub denied_at: Option<String>,
    pub archived_at: Option<String>,
    pub created_at: String,
}

/// The mathematical value of a [`MessagingGroup`].
#[verifier::ext_equal]
pub struct MessagingGroupView {
    pub id: Seq<char>,
    pub channel_type: Seq<char>,
    pub platform_id: Seq<char>,
    pub name: Option<Seq<char>>,
    pub is_group: bool,
    pub unknown_sender_policy: UnknownSenderPolicy,
    pub denied_at: Option<Seq<char>>,
    pub archived_at: Option<Seq<char>>,
    pub created_at: Seq<char>,
}

impl MessagingGroup {
    pub open spec fn view(&self) -> MessagingGroupView {
        MessagingGroupView {
            id: self.id@,
            channel_type: self.channel_type@,
            platform_id: self.platform_id@,
            name: text::opt_view(self.name),
            is_group: self.is_group,
            unknown_sender_policy: self.unknown_sender_policy,
            denied_at: text::opt_view(self.denied_at),
            archived_at: text::opt_view(self.archived_at),
            created_at: self.created_at@,
        }
    }
}

impl Clone for MessagingGroup {
    fn clone(&self) -> (r: Self)
        ensures
            r == *self,
    {
        MessagingGroup {
            id: self.id.clone(),
            channel_type: self.channel_type.clone(),
            platform_id: self.platform_id.clone(),
            name: text::clone_opt(&self.name),
            is_group: self.is_group,
            unknown_sender_policy: self.unknown_sender_policy,
            denied_at: text::clone_opt(&self.denied_at),
            archived_at: text::clone_opt(&self.archived_at),
            created_at: self.created_at.clone(),
        }
    }
}

/// An agent that handles a chat, and when it does.
#[derive(Debug, PartialEq, Eq)]
pub struct Wiring {
    pub id: String,
    pub messaging_group_id: MessagingGroupId,
    pub agent_group_id: AgentGroupId,
    pub engage_mode: EngageMode,
    pub engage_pattern: Option<String>,
    pub sender_scope: SenderScope,
    pub ignored_message_policy: IgnoredMessagePolicy,
    pub session_mode: SessionMode,
    pub priority: i64,
    pub created_at: String,
}

/// The mathematical value of a [`Wiring`].
#[verifier::ext_equal]
pub struct WiringView {
    pub id: Seq<char>,
    pub messaging_group_id: Seq<char>,
    pub agent_group_id: Seq<char>,
    pub engage_mode: EngageMode,
    pub engage_pattern: Option<Seq<char>>,
    pub sender_scope: SenderScope,
    pub ignored_message_policy: IgnoredMessagePolicy,
    pub session_mode: SessionMode,
    pub priority: int,
    pub created_at: Seq<char>,
}

impl Wiring {
    pub open spec fn view(&self) -> WiringView {
        WiringView {
            id: self.id@,
            messaging_group_id: self.messaging_group_id@,
            agent_group_id: self.agent_group_id@,
            engage_mode: self.engage_mode,
            engage_pattern: text::opt_view(self.engage_pattern),
            sender_scope: self.sender_scope,
            ignored_message_policy: self.ignored_message_policy,
            session_mode: self.session_mode,
            priority: self.priority as int,
            created_at: self.created_at@,
        }
    }
}

impl Clone for Wiring {
    fn clone(&self) -> (r: Self)
        ensures
            r == *self,
    {
        Wiring {
            id: self.id.clone(),
            messaging_group_id: self.messaging_group_id.clone(),
            agent_group_id: self.agent_group_id.clone(),
            engage_mode: self.engage_mode,
            engage_pattern: text::clone_opt(&self.engage_pattern),
            sender_scope: self.sender_scope,
            ignored_message_policy: self.ignored_message_policy,
            session_mode: self.session_mode,
            priority: self.priority,
            created_at: self.created_at.clone(),
        }
    }
}

} // verus!
