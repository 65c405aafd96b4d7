//! Sessions: one conversation of an agent with a chat or a thread of it.

use vstd::prelude::*;

use crate::protocol::entities::SessionStatus;
use crate::protocol::ids::{AgentGroupId, MessagingGroupId, SessionId};
use crate::text;

verus! {

broadcast use vstd::string::group_string_axioms;

/// One conversation of an agent.
#[derive(Debug, PartialEq, Eq)]
pub struct Session {
    pub id: SessionId,
    pub agent_group_id: AgentGroupId,
    pub messaging_group_id: Option<MessagingGroupId>,
    pub thread_id: Option<String>,
    pub status: SessionStatus,
    pub last_active: Option<String>,
    pub created_at: String,
}

/// The mathematical value of a [`Session`].
#[verifier::ext_equal]
pub struct SessionView {
    pub id: Seq<char>,
    pub agent_group_id: Seq<char>,
    pub messaging_group_id: Option<Seq<char>>,
    pub thread_id: Option<Seq<char>>,
    pub status: SessionStatus,
    pub last_active: Option<Seq<char>>,
    pub created_at: Seq<char>,
}

impl Session {
    pub open spec fn view(&self) -> SessionView {
        SessionView {
            id: self.id@,
            agent_group_id: self.agent_group_id@,
            messaging_group_id: match self.messaging_group_id {
                Some(v) => Some(v@),
                None => None,
            },
            thread_id: text::opt_view(self.thread_id),
            status: self.status,
            last_active: text::opt_view(self.last_active),
            created_at: self.created_at@,
        }
    }
}

impl Clone for Session {
    fn clone(&self) -> (r: Self)
        ensures
            r == *self,
    {
        Session {
            id: self.id.clone(),
            agent_group_id: self.agent_group_id.clone(),
            messaging_group_id: match &self.messaging_group_id {
                Some(v) => Some(v.clone()),
                None => None,
            },
            thread_id: text::clone_opt(&self.thread_id),
            status: self.status,
            last_active: text::clone_opt(&self.last_active),
            created_at: self.created_at.clone(),
        }
    }
}

} // verus!
