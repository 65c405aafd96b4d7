//! Commands that wait for the approval of an owner.

use vstd::prelude::*;

use crate::json;
use crate::json::{Fields, Json, JsonView};
use crate::protocol::content::{Routing, RoutingView};
use crate::protocol::ids::{AgentGroupId, SessionId};

verus! {

broadcast use vstd::string::group_string_axioms;

/// A command of an agent that an owner must allow: all that it takes to run it,
/// and where to report what came of it.
pub struct PendingApproval {
    pub approval_id: String,
    pub session_id: SessionId,
    pub agent_group_id: AgentGroupId,
    pub command: String,
    pub args: Vec<(String, Json)>,
    pub routing: Routing,
    pub summary: String,
    pub created_at: String,
}

/// The mathematical value of a [`PendingApproval`].
#[verifier::ext_equal]
pub struct PendingApprovalView {
    pub approval_id: Seq<char>,
    pub session_id: Seq<char>,
    pub agent_group_id: Seq<char>,
    pub command: Seq<char>,
    pub args: Fields,
    pub routing: RoutingView,
    pub summary: Seq<char>,
    pub created_at: Seq<char>,
}

impl PendingApproval {
    pub open spec fn view(&self) -> PendingApprovalView {
        PendingApprovalView {
            approval_id: self.approval_id@,
            session_id: self.session_id@,
            agent_group_id: self.agent_group_id@,
            command: self.command@,
            args: json::fields_view(self.args@),
            routing: self.routing@,
            summary: self.summary@,
            created_at: self.created_at@,
        }
    }
}

/// The arguments of a command as the text that the database keeps.
pub fn args_text(args: &Vec<(String, Json)>) -> (r: String)
    ensures
        r@ == json::encoded(JsonView::Object(json::fields_view(args@))),
{
    json::object(crate::protocol::frame::copy_fields(args)).encode()
}

/// The arguments that a stored text holds, or why it holds none.
pub open spec fn args_of(stored: Seq<char>) -> Result<Fields, Seq<char>> {
    match json::parsed(stored) {
        Err(reason) => Err(reason),
        Ok(JsonView::Object(fields)) => Ok(fields),
        Ok(_) => Err("expected an object"@),
    }
}

/// Reads the arguments of a command from the text that the database keeps.
pub fn parse_args(stored: &str) -> (r: Result<Vec<(String, Json)>, String>)
    ensures
        match r {
            Ok(args) => args_of(stored@) == Ok::<Fields, Seq<char>>(json::fields_view(args@)),
            Err(e) => args_of(stored@) == Err::<Fields, Seq<char>>(e@),
        },
{
    match Json::parse(stored) {
        Err(reason) => Err(reason),
        Ok(Json::Object(fields)) => {
            proof {
                json::lemma_object_view(fields);
            }
            Ok(fields)
        },
        Ok(_) => Err("expected an object".to_owned()),
    }
}

/// Arguments that were stored are read back as they were, but for the order of
/// fields: what an owner allows is what the agent asked for.
pub fn stored_args_read_back(args: &Vec<(String, Json)>) -> (r: Result<Vec<(String, Json)>, String>)
    ensures
        json::plain(JsonView::Object(json::fields_view(args@)), json::MAX_DEPTH as nat) ==> (
        r matches Ok(back) && json::alike(
            JsonView::Object(json::fields_view(args@)),
            JsonView::Object(json::fields_view(back@)),
        )),
{
    let stored = args_text(args);
    match Json::parse(&stored) {
        Ok(value) => {
            proof {
                if json::plain(JsonView::Object(json::fields_view(args@)), json::MAX_DEPTH as nat) {
                    assert(json::alike(JsonView::Object(json::fields_view(args@)), value@));
                }
            }
        },
        Err(_) => {},
    }
    parse_args(&stored)
}

} // verus!
