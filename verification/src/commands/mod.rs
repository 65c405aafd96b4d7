//! Admin commands: who may run them, what they ask of the database, and what
//! they answer.

use vstd::prelude::*;

use crate::protocol::ids::{AgentGroupId, MessagingGroupId, SessionId};


pub mod connectors;
pub mod gates;
pub mod registry;
pub mod resources;


verus! {

/// Who issues a command. The socket server speaks for the operator (`Host`); the
/// agent-side transport speaks for a run (`Agent`), whose scope is enforced.
#[derive(Debug, PartialEq, Eq)]
pub enum CallerContext {
    Host,
    Agent {
        session_id: SessionId,
        agent_group_id: AgentGroupId,
        messaging_group_id: Option<MessagingGroupId>,
    },
}

impl CallerContext {
    /// The agent group that the caller speaks for; none for the operator.
    pub open spec fn group(&self) -> Option<Seq<char>> {
        match self {
            CallerContext::Host => None,
            CallerContext::Agent { agent_group_id, .. } => Some(agent_group_id@),
        }
    }

    /// Whether the caller is an agent.
    pub fn is_agent(&self) -> (r: bool)
        ensures
            r == (self.group() is Some),
    {
        match self {
            CallerContext::Host => false,
            CallerContext::Agent { .. } => true,
        }
    }
}

} // verus!
