//! Connectors: external channels, each assigned to one agent group.

use vstd::prelude::*;

use crate::protocol::entities::{ConfigView, ConnectorConfig, ConnectorKind};
use crate::protocol::ids::{AgentGroupId, ConnectorId};
use crate::text;

verus! {

broadcast use vstd::string::group_string_axioms;

/// An external channel and the agent group that it is assigned to.
#[derive(Debug, PartialEq, Eq)]
pub struct Connector {
    pub id: ConnectorId,
    pub label: Option<String>,
    pub config: ConnectorConfig,
    pub agent_group_id: AgentGroupId,
    pub enabled: bool,
    pub created_at: String,
}

/// The mathematical value of a [`Connector`].
#[verifier::ext_equal]
pub struct ConnectorView {
    pub id: Seq<char>,
    pub label: Option<Seq<char>>,
    pub config: ConfigView,
    pub agent_group_id: Seq<char>,
    pub enabled: bool,
    pub created_at: Seq<char>,
}

impl Connector {
    pub open spec fn view(&self) -> ConnectorView {
        ConnectorView {
            id: self.id@,
            label: text::opt_view(self.label),
            config: self.config@,
            agent_group_id: self.agent_group_id@,
            enabled: self.enabled,
            created_at: self.created_at@,
        }
    }
}

impl Clone for Connector {
    fn clone(&self) -> (r: Self)
        ensures
            r == *self,
    {
        Connector {
            id: self.id.clone(),
            label: text::clone_opt(&self.label),
            config: self.config.clone(),
            agent_group_id: self.agent_group_id.clone(),
            enabled: self.enabled,
            created_at: self.created_at.clone(),
        }
    }
}

impl Connector {
    /// The kind of channel.
    pub fn kind(&self) -> (r: ConnectorKind)
        ensures
            r == self.config.kind_of(),
    {
        self.config.kind()
    }
}

} // verus!
