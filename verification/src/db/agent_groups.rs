//! Agent groups: the agents and how each is run.

use vstd::prelude::*;

use crate::protocol::entities::{AgentProviderKind, CliScope, ToolProfile};
use crate::protocol::ids::{AgentGroupId, EndpointName};
use crate::text;

verus! {

broadcast use vstd::string::group_string_axioms;

/// An agent and how it is run.
#[derive(Debug, PartialEq, Eq)]
pub struct AgentGroup {
    pub id: AgentGroupId,
    pub name: String,
    pub folder: String,
    pub agent_provider: Option<AgentProviderKind>,
    pub endpoint: Option<EndpointName>,
    pub model: Option<String>,
    pub thinking_level: Option<String>,
    pub tool_profile: ToolProfile,
    pub cli_scope: CliScope,
    pub created_at: String,
}

/// The mathematical value of an [`AgentGroup`].
#[verifier::ext_equal]
pub struct AgentGroupView {
    pub id: Seq<char>,
    pub name: Seq<char>,
    pub folder: Seq<char>,
    pub agent_provider: Option<AgentProviderKind>,
    pub endpoint: Option<Seq<char>>,
    pub model: Option<Seq<char>>,
    pub thinking_level: Option<Seq<char>>,
    pub tool_profile: ToolProfile,
    pub cli_scope: CliScope,
    pub created_at: Seq<char>,
}

impl AgentGroup {
    pub open spec fn view(&self) -> AgentGroupView {
        AgentGroupView {
            id: self.id@,
            name: self.name@,
            folder: self.folder@,
            agent_provider: self.agent_provider,
            endpoint: match self.endpoint {
                Some(v) => Some(v@),
                None => None,
            },
            model: text::opt_view(self.model),
            thinking_level: text::opt_view(self.thinking_level),
            tool_profile: self.tool_profile,
            cli_scope: self.cli_scope,
            created_at: self.created_at@,
        }
    }
}

impl Clone for AgentGroup {
    fn clone(&self) -> (r: Self)
        ensures
            r == *self,
    {
        AgentGroup {
            id: self.id.clone(),
            name: self.name.clone(),
            folder: self.folder.clone(),
            agent_provider: self.agent_provider,
            endpoint: match &self.endpoint {
                Some(v) => Some(v.clone()),
                None => None,
            },
            model: text::clone_opt(&self.model),
            thinking_level: text::clone_opt(&self.thinking_level),
            tool_profile: self.tool_profile,
            cli_scope: self.cli_scope,
            created_at: self.created_at.clone(),
        }
    }
}

} // verus!
