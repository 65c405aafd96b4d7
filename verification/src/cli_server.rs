//! The admin socket: one JSON frame on each line, in both directions.

use vstd::prelude::*;

use crate::json;
use crate::json::{Json, JsonView};
use crate::protocol::frame;
use crate::protocol::frame::{
    ErrorCode, RequestFrame, RequestView, ResponseFrame, ResponseView,
};
use crate::text;

verus! {

broadcast use vstd::string::group_string_axioms;

/// Why the server could not start.
#[derive(Debug, PartialEq, Eq)]
pub enum CliServerError {
    Bind { path: String, source: String },
}

impl CliServerError {
    /// The error as one line of text.
    pub fn message(&self) -> (r: String)
        ensures
            r@ == (match self {
                CliServerError::Bind { path, source } => "binding "@ + path@ + ": "@ + source@,
            }),
    {
        match self {
            CliServerError::Bind { path, source } => {
                let mut out = "binding ".to_owned();
                out.append(path);
                out.append(": ");
                out.append(source);
                out
            },
        }
    }
}

/// The request that a line holds, or why it holds none.
pub open spec fn line_request(line: Seq<char>) -> Result<RequestView, Seq<char>> {
    match json::parsed(line) {
        Err(reason) => Err(reason),
        Ok(value) => match frame::request_of(value) {
            Some(request) => Ok(request),
            None => Err("unexpected shape"@),
        },
    }
}

/// What a line of a caller asks for.
pub enum Received {
    /// Nothing: the line is blank.
    Skip,
    /// A request to dispatch.
    Request(RequestFrame),
    /// An answer at once: the line holds no request.
    Refuse(ResponseFrame),
}

/// Reads a line of a caller.
pub fn receive(line: &str) -> (r: Received)
    ensures
        match r {
            Received::Skip => text::blank(line@),
            Received::Request(request) => !text::blank(line@) && line_request(line@) == Ok::<
                RequestView,
                Seq<char>,
            >(request@),
            Received::Refuse(response) => !text::blank(line@) && (line_request(
                line@,
            ) matches Err(reason) && response@ == frame::error_response(
                Seq::empty(),
                ErrorCode::TransportError,
                "bad request: "@ + reason,
            )),
        },
{
    if text::is_blank(line) {
        return Received::Skip;
    }
    let reason = match Json::parse(line) {
        Ok(value) => match RequestFrame::decode(&value) {
            Some(request) => {
                return Received::Request(request);
            },
            None => "unexpected shape".to_owned(),
        },
        Err(reason) => reason,
    };
    let message = text::concat2("bad request: ", &reason);
    let none = "";
    proof {
        reveal_strlit("");
        assert(none@ =~= Seq::empty());
    }
    Received::Refuse(ResponseFrame::error(none, ErrorCode::TransportError, &message))
}

/// The response to a request: it carries the request's id, whatever the
/// dispatcher put there.
pub fn correlate(id: &str, response: ResponseFrame) -> (r: ResponseFrame)
    ensures
        r@ == (ResponseView { id: id@, ..response@ }),
{
    ResponseFrame {
        id: id.to_owned(),
        ok: response.ok,
        data: response.data,
        error: response.error,
    }
}

/// The line that carries a response.
pub fn response_line(response: &ResponseFrame) -> (r: String)
    ensures
        r@ == json::encoded(frame::response_value(response@)) + "\n"@,
{
    text::concat2(&response.to_value().encode(), "\n")
}

/// The line that carries a request.
pub fn request_line(request: &RequestFrame) -> (r: String)
    ensures
        r@ == json::encoded(frame::request_value(request@)) + "\n"@,
{
    text::concat2(&request.to_value().encode(), "\n")
}

/// The response that a line holds, or why it holds none.
pub open spec fn line_response(line: Seq<char>) -> Result<ResponseView, Seq<char>> {
    match json::parsed(line) {
        Err(reason) => Err(reason),
        Ok(value) => match frame::response_of(value) {
            Some(response) => Ok(response),
            None => Err("unexpected shape"@),
        },
    }
}

/// Reads a line of the server.
pub fn read_response(line: &str) -> (r: Result<ResponseFrame, String>)
    ensures
        match r {
            Ok(response) => line_response(line@) == Ok::<ResponseView, Seq<char>>(response@),
            Err(reason) => line_response(line@) == Err::<ResponseView, Seq<char>>(reason@),
        },
{
    match Json::parse(line) {
        Err(reason) => Err(reason),
        Ok(value) => match ResponseFrame::decode(&value) {
            Some(response) => Ok(response),
            None => Err("unexpected shape".to_owned()),
        },
    }
}

// ---------------------------------------------------------------------------
// Laws

/// A request that is sent is received as it was, but for the order of the
/// fields of its arguments.
pub fn requests_survive_the_wire(request: &RequestFrame) -> (r: Received)
    requires
        json::plain(JsonView::Object(json::fields_view(request.args@)), 126),
    ensures
        r matches Received::Request(got) && got@.id == request@.id && got@.command
            == request@.command && json::alike(
            JsonView::Object(request@.args),
            JsonView::Object(got@.args),
        ),
{
    let value = request.to_value();
    let line = value.encode();
    let received = receive(&line);
    proof {
        lemma_request_is_plain(request@);
        reveal_strlit("{");
        assert(line@[0] == '{');
        assert(!text::white(line@[0]));
    }
    match Json::parse(&line) {
        Ok(back) => {
            proof {
                assert(json::alike(value@, back@));
                lemma_request_alike(request@, back@);
            }
        },
        Err(_) => {},
    }
    received
}

proof fn lemma_request_is_plain(request: RequestView)
    requires
        json::plain(JsonView::Object(request.args), 126),
    ensures
        json::plain(frame::request_value(request), 127),
{
    let fields = frame::request_value(request)->Object_0;
    reveal_strlit("id");
    reveal_strlit("command");
    reveal_strlit("args");
    assert("id"@.len() != "command"@.len());
    assert("id"@.len() != "args"@.len());
    assert("command"@.len() != "args"@.len());
    assert(json::distinct(fields));
    assert forall|i: int| 0 <= i < fields.len() implies json::plain(
        (#[trigger] fields[i]).1,
        126,
    ) by {}
}

proof fn lemma_request_alike(request: RequestView, back: JsonView)
    requires
        json::alike(frame::request_value(request), back),
    ensures
        frame::request_of(back) matches Some(got) && got.id == request.id && got.command
            == request.command && json::alike(
            JsonView::Object(request.args),
            JsonView::Object(got.args),
        ),
{
    let x = frame::request_value(request)->Object_0;
    let y = back->Object_0;
    frame::request_round_trips(request);
    reveal_strlit("id");
    reveal_strlit("command");
    reveal_strlit("args");
    reveal_with_fuel(json::lookup, 4);
    assert("id"@.len() != "command"@.len());
    assert("id"@.len() != "args"@.len());
    assert("command"@.len() != "args"@.len());
    json::alike_objects_agree_on_every_key(x, y, "id"@);
    json::alike_objects_agree_on_every_key(x, y, "command"@);
    json::alike_objects_agree_on_every_key(x, y, "args"@);
    assert(json::lookup(x, "args"@) == Some(JsonView::Object(request.args)));
}

} // verus!
