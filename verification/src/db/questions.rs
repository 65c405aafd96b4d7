//! Questions that wait for an answer.

use vstd::prelude::*;

use crate::json;
use crate::json::Json;
use crate::protocol::content::{Routing, RoutingView};
use crate::protocol::ids::{MessageOutId, SessionId};
use crate::text;

verus! {

broadcast use vstd::string::group_string_axioms;

/// A question that an agent asked and nobody has answered.
#[derive(Debug, PartialEq, Eq)]
pub struct PendingQuestion {
    pub question_id: String,
    pub session_id: SessionId,
    pub message_out_id: MessageOutId,
    pub routing: Routing,
    pub title: String,
    pub options: Vec<String>,
    pub created_at: String,
}

/// The mathematical value of a [`PendingQuestion`].
#[verifier::ext_equal]
pub struct PendingQuestionView {
    pub question_id: Seq<char>,
    pub session_id: Seq<char>,
    pub message_out_id: Seq<char>,
    pub routing: RoutingView,
    pub title: Seq<char>,
    pub options: Seq<Seq<char>>,
    pub created_at: Seq<char>,
}

impl PendingQuestion {
    pub open spec fn view(&self) -> PendingQuestionView {
        PendingQuestionView {
            question_id: self.question_id@,
            session_id: self.session_id@,
            message_out_id: self.message_out_id@,
            routing: self.routing@,
            title: self.title@,
            options: text::views(self.options@),
            created_at: self.created_at@,
        }
    }
}

impl Clone for PendingQuestion {
    fn clone(&self) -> (r: Self)
        ensures
            r@ == self@,
    {
        PendingQuestion {
            question_id: self.question_id.clone(),
            session_id: self.session_id.clone(),
            message_out_id: self.message_out_id.clone(),
            routing: self.routing.clone(),
            title: self.title.clone(),
            options: text::clone_list(&self.options),
            created_at: self.created_at.clone(),
        }
    }
}

/// The options of a question as the text that the database keeps.
pub fn options_text(options: &Vec<String>) -> (r: String)
    ensures
        r@ == json::encoded(json::texts_value(text::views(options@))),
{
    json::from_texts(options).encode()
}

/// The options that a stored text holds, or why it holds none.
pub open spec fn options_of(stored: Seq<char>) -> Result<Seq<Seq<char>>, Seq<char>> {
    match json::parsed(stored) {
        Err(reason) => Err(reason),
        Ok(value) => match json::texts_of(value) {
            Some(list) => Ok(list),
            None => Err("expected a list of strings"@),
        },
    }
}

/// Reads the options of a question from the text that the database keeps.
pub fn parse_options(stored: &str) -> (r: Result<Vec<String>, String>)
    ensures
        match r {
            Ok(list) => options_of(stored@) == Ok::<Seq<Seq<char>>, Seq<char>>(
                text::views(list@),
            ),
            Err(e) => options_of(stored@) == Err::<Seq<Seq<char>>, Seq<char>>(e@),
        },
{
    match Json::parse(stored) {
        Err(reason) => Err(reason),
        Ok(value) => match json::as_texts(&value) {
            Some(list) => Ok(list),
            None => Err("expected a list of strings".to_owned()),
        },
    }
}

/// Options that were stored are read back as they were.
pub fn stored_options_read_back(options: &Vec<String>) -> (r: Result<Vec<String>, String>)
    ensures
        r matches Ok(list) && text::views(list@) == text::views(options@),
{
    let stored = options_text(options);
    let value = json::from_texts(options);
    proof {
        let items = value@->List_0;
        assert(json::plain(value@, json::MAX_DEPTH as nat)) by {
            assert forall|i: int| 0 <= i < items.len() implies json::plain(
                #[trigger] items[i],
                (json::MAX_DEPTH - 1) as nat,
            ) by {}
        }
    }
    match Json::parse(&stored) {
        Ok(back) => {
            proof {
                let items = value@->List_0;
                let got = back@->List_0;
                assert(json::alike(value@, back@));
                assert forall|i: int| 0 <= i < got.len() implies #[trigger] got[i] == items[i] by {
                    assert(json::alike(items[i], got[i]));
                }
                assert(got =~= items);
                assert(Seq::new(items.len(), |i: int| items[i]->Text_0) =~= text::views(options@));
            }
        },
        Err(_) => {},
    }
    parse_options(&stored)
}

} // verus!
