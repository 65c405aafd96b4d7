//! Users and the roles granted to them.

use vstd::prelude::*;

use crate::protocol::entities::Role;
use crate::protocol::ids::{AgentGroupId, UserId};
use crate::text;

verus! {

broadcast use vstd::string::group_string_axioms;

/// Somebody who writes to the assistant.
#[derive(Debug, PartialEq, Eq)]
pub struct User {
    pub id: UserId,
    pub kind: String,
    pub display_name: Option<String>,
    pub created_at: String,
}

/// The mathematical value of an [`User`].
#[verifier::ext_equal]
pub struct UserView {
    pub id: Seq<char>,
    pub kind: Seq<char>,
    pub display_name: Option<Seq<char>>,
    pub created_at: Seq<char>,
}

impl User {
    pub open spec fn view(&self) -> UserView {
        UserView {
            id: self.id@,
            kind: self.kind@,
            display_name: text::opt_view(self.display_name),
            created_at: self.created_at@,
        }
    }
}

impl Clone for User {
    fn clone(&self) -> (r: Self)
        ensures
            r == *self,
    {
        User {
            id: self.id.clone(),
            kind: self.kind.clone(),
            display_name: text::clone_opt(&self.display_name),
            created_at: self.created_at.clone(),
        }
    }
}

/// A role that a user holds, everywhere or for one agent group.
#[derive(Debug, PartialEq, Eq)]
pub struct RoleGrant {
    pub user_id: UserId,
    pub role: Role,
    pub agent_group_id: Option<AgentGroupId>,
    pub granted_by: Option<UserId>,
    pub granted_at: String,
}

/// The mathematical value of a [`RoleGrant`].
#[verifier::ext_equal]
pub struct RoleGrantView {
    pub user_id: Seq<char>,
    pub role: Role,
    pub agent_group_id: Option<Seq<char>>,
    pub granted_by: Option<Seq<char>>,
    pub granted_at: Seq<char>,
}

impl RoleGrant {
    pub open spec fn view(&self) -> RoleGrantView {
        RoleGrantView {
            user_id: self.user_id@,
            role: self.role,
            agent_group_id: match self.agent_group_id {
                Some(v) => Some(v@),
                None => None,
            },
            granted_by: match self.granted_by {
                Some(v) => Some(v@),
                None => None,
            },
            granted_at: self.granted_at@,
        }
    }
}

impl Clone for RoleGrant {
    fn clone(&self) -> (r: Self)
        ensures
            r == *self,
    {
        RoleGrant {
            user_id: self.user_id.clone(),
            role: self.role,
            agent_group_id: match &self.agent_group_id {
                Some(v) => Some(v.clone()),
                None => None,
            },
            granted_by: match &self.granted_by {
                Some(v) => Some(v.clone()),
                None => None,
            },
            granted_at: self.granted_at.clone(),
        }
    }
}

} // verus!
