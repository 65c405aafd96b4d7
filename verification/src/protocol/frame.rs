//! The frames of the admin socket: a request names a command with JSON
//! arguments, a response carries data or an error.

use vstd::prelude::*;

use crate::json;
use crate::json::{Fields, Json, JsonView};
use crate::protocol::ParseEnumError;
use crate::text;

verus! {

broadcast use vstd::string::group_string_axioms;

/// Why a request failed.
#[derive(Debug, Clone, Copy, PartialEq, Eq, Hash, Structural)]
pub enum ErrorCode {
    UnknownCommand,
    InvalidArgs,
    PermissionDenied,
    Forbidden,
    ApprovalPending,
    NotFound,
    HandlerError,
    TransportError,
}

impl ErrorCode {
    /// The text by which the value is stored and shown.
    pub open spec fn text(self) -> Seq<char> {
        match self {
            ErrorCode::UnknownCommand => "unknown-command"@,
            ErrorCode::InvalidArgs => "invalid-args"@,
            ErrorCode::PermissionDenied => "permission-denied"@,
            ErrorCode::Forbidden => "forbidden"@,
            ErrorCode::ApprovalPending => "approval-pending"@,
            ErrorCode::NotFound => "not-found"@,
            ErrorCode::HandlerError => "handler-error"@,
            ErrorCode::TransportError => "transport-error"@,
        }
    }

    /// No two values share a text.
    pub proof fn texts_differ(a: ErrorCode, b: ErrorCode)
        ensures
            a.text() == b.text() ==> a == b,
    {
        reveal_strlit("unknown-command");
        reveal_strlit("invalid-args");
        reveal_strlit("permission-denied");
        reveal_strlit("forbidden");
        reveal_strlit("approval-pending");
        reveal_strlit("not-found");
        reveal_strlit("handler-error");
        reveal_strlit("transport-error");
        if a != b && a.text() == b.text() {
            assert(a.text().len() == b.text().len());
            assert(a.text()[0] == b.text()[0]);
        }
    }

    /// Every value, in order of declaration.
    pub fn all() -> (r: Vec<ErrorCode>)
        ensures
            r@ == seq![ErrorCode::UnknownCommand, ErrorCode::InvalidArgs, ErrorCode::PermissionDenied, ErrorCode::Forbidden, ErrorCode::ApprovalPending, ErrorCode::NotFound, ErrorCode::HandlerError, ErrorCode::TransportError],
            forall|v: ErrorCode| #[trigger] r@.contains(v),
    {
        let r = vec![ErrorCode::UnknownCommand, ErrorCode::InvalidArgs, ErrorCode::PermissionDenied, ErrorCode::Forbidden, ErrorCode::ApprovalPending, ErrorCode::NotFound, ErrorCode::HandlerError, ErrorCode::TransportError];
        proof {
            assert(r@[0] == ErrorCode::UnknownCommand);
            assert(r@[1] == ErrorCode::InvalidArgs);
            assert(r@[2] == ErrorCode::PermissionDenied);
            assert(r@[3] == ErrorCode::Forbidden);
            assert(r@[4] == ErrorCode::ApprovalPending);
            assert(r@[5] == ErrorCode::NotFound);
            assert(r@[6] == ErrorCode::HandlerError);
            assert(r@[7] == ErrorCode::TransportError);
        }
        r
    }

    /// The text by which the value is stored and shown.
    pub fn as_str(self) -> (r: &'static str)
        ensures
            r@ == self.text(),
    {
        match self {
            ErrorCode::UnknownCommand => "unknown-command",
            ErrorCode::InvalidArgs => "invalid-args",
            ErrorCode::PermissionDenied => "permission-denied",
            ErrorCode::Forbidden => "forbidden",
            ErrorCode::ApprovalPending => "approval-pending",
            ErrorCode::NotFound => "not-found",
            ErrorCode::HandlerError => "handler-error",
            ErrorCode::TransportError => "transport-error",
        }
    }

    /// The value with the given text; any other text is refused.
    pub fn parse(value: &str) -> (r: Result<ErrorCode, ParseEnumError>)
        ensures
            forall|v: ErrorCode| #[trigger] v.text() == value@ ==> r == Ok::<ErrorCode, ParseEnumError>(v),
            match r {
                Ok(v) => v.text() == value@,
                Err(e) => e.type_label@ == "ErrorCode"@ && e.value@ == value@,
            },
    {
        let r = if text::same(value, "unknown-command") {
            Ok(ErrorCode::UnknownCommand)
        } else if text::same(value, "invalid-args") {
            Ok(ErrorCode::InvalidArgs)
        } else if text::same(value, "permission-denied") {
            Ok(ErrorCode::PermissionDenied)
        } else if text::same(value, "forbidden") {
            Ok(ErrorCode::Forbidden)
        } else if text::same(value, "approval-pending") {
            Ok(ErrorCode::ApprovalPending)
        } else if text::same(value, "not-found") {
            Ok(ErrorCode::NotFound)
        } else if text::same(value, "handler-error") {
            Ok(ErrorCode::HandlerError)
        } else if text::same(value, "transport-error") {
            Ok(ErrorCode::TransportError)
        } else {
            Err(ParseEnumError { type_label: "ErrorCode", value: value.to_owned() })
        };
        proof {
            assert forall|v: ErrorCode| #[trigger] v.text() == value@ implies r == Ok::<ErrorCode, ParseEnumError>(v) by {
                if r is Ok {
                    ErrorCode::texts_differ(v, r->Ok_0);
                }
            }
        }
        r
    }
}

impl std::str::FromStr for ErrorCode {
    type Err = ParseEnumError;

    fn from_str(value: &str) -> Result<Self, ParseEnumError> {
        ErrorCode::parse(value)
    }
}

/// One admin request: a command name, an optional correlation id, and JSON
/// arguments.
#[derive(Debug, PartialEq, Eq)]
pub struct RequestFrame {
    pub id: String,
    pub command: String,
    pub args: Vec<(String, Json)>,
}

/// The mathematical value of a [`RequestFrame`].
#[verifier::ext_equal]
pub struct RequestView {
    pub id: Seq<char>,
    pub command: Seq<char>,
    pub args: Fields,
}

/// The request that a value is. The id and the arguments may be left out.
pub open spec fn request_of(value: JsonView) -> Option<RequestView> {
    let id = match json::part(value, 0, "id"@) {
        None => Some(Seq::<char>::empty()),
        given => json::text_of(given),
    };
    let command = json::text_of(json::part(value, 1, "command"@));
    let args = match json::part(value, 2, "args"@) {
        None => Some(Seq::empty()),
        Some(JsonView::Object(fields)) => Some(fields),
        _ => None,
    };
    if json::is_record(value, 3) && id is Some && command is Some && args is Some {
        Some(RequestView { id: id->0, command: command->0, args: args->0 })
    } else {
        None
    }
}

/// The value that a request is sent as.
pub open spec fn request_value(request: RequestView) -> JsonView {
    JsonView::Object(
        seq![
            ("id"@, JsonView::Text(request.id)),
            ("command"@, JsonView::Text(request.command)),
            ("args"@, JsonView::Object(request.args)),
        ],
    )
}

impl RequestFrame {
    pub open spec fn view(&self) -> RequestView {
        RequestView {
            id: self.id@,
            command: self.command@,
            args: json::fields_view(self.args@),
        }
    }

    /// Makes a request.
    pub fn new(id: &str, command: &str, args: Vec<(String, Json)>) -> (r: Self)
        ensures
            r@ == (RequestView { id: id@, command: command@, args: json::fields_view(args@) }),
    {
        RequestFrame { id: id.to_owned(), command: command.to_owned(), args }
    }

    /// The request that a JSON value is.
    pub fn decode(value: &Json) -> (r: Option<Self>)
        ensures
            match r {
                Some(frame) => request_of(value@) == Some(frame@),
                None => request_of(value@) is None,
            },
    {
        if !value.is_record(3) {
            return None;
        }
        let id = match value.part(0, "id") {
            None => String::new(),
            given => json::as_text(given)?,
        };
        let command = json::as_text(value.part(1, "command"))?;
        let args = match value.part(2, "args") {
            None => {
                let none: Vec<(String, Json)> = Vec::new();
                assert(json::fields_view(none@) =~= Seq::empty());
                none
            },
            Some(Json::Object(fields)) => {
                proof {
                    json::lemma_object_view(*fields);
                }
                copy_fields(fields)
            },
            _ => {
                return None;
            },
        };
        Some(RequestFrame { id, command, args })
    }

    /// The request as a JSON value.
    pub fn to_value(&self) -> (r: Json)
        ensures
            r@ == request_value(self@),
    {
        let mut fields: Vec<(String, Json)> = Vec::new();
        json::add_field(&mut fields, "id", json::text_json(&self.id));
        json::add_field(&mut fields, "command", json::text_json(&self.command));
        json::add_field(&mut fields, "args", json::object(copy_fields(&self.args)));
        let r = json::object(fields);
        assert(r@->Object_0 =~= request_value(self@)->Object_0);
        r
    }
}

/// A copy of the fields of an object.
pub fn copy_fields(fields: &Vec<(String, Json)>) -> (r: Vec<(String, Json)>)
    ensures
        json::fields_view(r@) == json::fields_view(fields@),
{
    let mut out: Vec<(String, Json)> = Vec::new();
    let mut i: usize = 0;
    while i < fields.len()
        invariant
            i <= fields@.len(),
            out@.len() == i,
            forall|j: int|
                0 <= j < i ==> (#[trigger] out@[j]).0@ == fields@[j].0@ && out@[j].1@
                    == fields@[j].1@,
        decreases fields@.len() - i,
    {
        out.push((fields[i].0.clone(), fields[i].1.copy()));
        i += 1;
    }
    assert(json::fields_view(out@) =~= json::fields_view(fields@));
    out
}

/// Why a request failed, for the machine and for people.
#[derive(Debug, PartialEq, Eq)]
pub struct FrameError {
    pub code: ErrorCode,
    pub message: String,
}

/// The mathematical value of a [`FrameError`].
#[verifier::ext_equal]
pub struct FrameErrorView {
    pub code: ErrorCode,
    pub message: Seq<char>,
}

impl FrameError {
    pub open spec fn view(&self) -> FrameErrorView {
        FrameErrorView { code: self.code, message: self.message@ }
    }
}

/// One admin response, correlated to a request by `id`. `ok` discriminates;
/// exactly one of `data` and `error` is present.
#[derive(Debug, PartialEq, Eq)]
pub struct ResponseFrame {
    pub id: String,
    pub ok: bool,
    pub data: Option<Json>,
    pub error: Option<FrameError>,
}

/// The mathematical value of a [`ResponseFrame`].
#[verifier::ext_equal]
pub struct ResponseView {
    pub id: Seq<char>,
    pub ok: bool,
    pub data: Option<JsonView>,
    pub error: Option<FrameErrorView>,
}

impl ResponseView {
    /// Whether exactly one of data and error is present, as `ok` says.
    pub open spec fn well_formed(self) -> bool {
        self.ok == (self.data is Some) && self.ok == (self.error is None)
    }
}

/// A response that carries data.
pub open spec fn ok_response(id: Seq<char>, data: JsonView) -> ResponseView {
    ResponseView { id, ok: true, data: Some(data), error: None }
}

/// A response that carries an error.
pub open spec fn error_response(id: Seq<char>, code: ErrorCode, message: Seq<char>) -> ResponseView {
    ResponseView { id, ok: false, data: None, error: Some(FrameErrorView { code, message }) }
}

/// The value that a response is sent as; absent parts are left out.
pub open spec fn response_value(response: ResponseView) -> JsonView {
    let head = seq![
        ("id"@, JsonView::Text(response.id)),
        ("ok"@, JsonView::Bool(response.ok)),
    ];
    let with_data = match response.data {
        Some(data) => head.push(("data"@, data)),
        None => head,
    };
    JsonView::Object(
        match response.error {
            Some(error) => with_data.push(
                (
                    "error"@,
                    JsonView::Object(
                        seq![
                            ("code"@, JsonView::Text(error.code.text())),
                            ("message"@, JsonView::Text(error.message)),
                        ],
                    ),
                ),
            ),
            None => with_data,
        },
    )
}

/// The error code with the given text.
pub open spec fn code_of(text: Seq<char>) -> Option<ErrorCode> {
    if exists|code: ErrorCode| #[trigger] code.text() == text {
        Some(choose|code: ErrorCode| #[trigger] code.text() == text)
    } else {
        None
    }
}

/// The error part that a value is.
pub open spec fn error_of(value: JsonView) -> Option<FrameErrorView> {
    let code = json::text_of(json::part(value, 0, "code"@));
    let message = json::text_of(json::part(value, 1, "message"@));
    if json::is_record(value, 2) && code is Some && message is Some && code_of(code->0) is Some {
        Some(FrameErrorView { code: code_of(code->0)->0, message: message->0 })
    } else {
        None
    }
}

/// The response that a value is. Data and error may be absent or null.
pub open spec fn response_of(value: JsonView) -> Option<ResponseView> {
    let id = json::text_of(json::part(value, 0, "id"@));
    let ok = match json::part(value, 1, "ok"@) {
        Some(JsonView::Bool(b)) => Some(b),
        _ => None,
    };
    let data = match json::part(value, 2, "data"@) {
        Some(JsonView::Null) => None,
        given => given,
    };
    let error = match json::part(value, 3, "error"@) {
        None => Some(None),
        Some(JsonView::Null) => Some(None),
        Some(given) => match error_of(given) {
            Some(e) => Some(Some(e)),
            None => None,
        },
    };
    if json::is_record(value, 4) && id is Some && ok is Some && error is Some {
        Some(ResponseView { id: id->0, ok: ok->0, data, error: error->0 })
    } else {
        None
    }
}

impl ResponseFrame {
    pub open spec fn view(&self) -> ResponseView {
        ResponseView {
            id: self.id@,
            ok: self.ok,
            data: match self.data {
                Some(value) => Some(value@),
                None => None,
            },
            error: match self.error {
                Some(error) => Some(error@),
                None => None,
            },
        }
    }

    /// A response that carries data.
    pub fn ok(id: &str, data: Json) -> (r: Self)
        ensures
            r@ == ok_response(id@, data@),
            r@.well_formed(),
    {
        ResponseFrame { id: id.to_owned(), ok: true, data: Some(data), error: None }
    }

    /// A response that carries an error.
    pub fn error(id: &str, code: ErrorCode, message: &str) -> (r: Self)
        ensures
            r@ == error_response(id@, code, message@),
            r@.well_formed(),
    {
        ResponseFrame {
            id: id.to_owned(),
            ok: false,
            data: None,
            error: Some(FrameError { code, message: message.to_owned() }),
        }
    }

    /// The response as a JSON value.
    pub fn to_value(&self) -> (r: Json)
        ensures
            r@ == response_value(self@),
    {
        let mut fields: Vec<(String, Json)> = Vec::new();
        json::add_field(&mut fields, "id", json::text_json(&self.id));
        json::add_field(&mut fields, "ok", Json::Bool(self.ok));
        match &self.data {
            Some(data) => {
                json::add_field(&mut fields, "data", data.copy());
            },
            None => {},
        }
        match &self.error {
            Some(error) => {
                let mut parts: Vec<(String, Json)> = Vec::new();
                json::add_field(&mut parts, "code", json::text_json(error.code.as_str()));
                json::add_field(&mut parts, "message", json::text_json(&error.message));
                let part = json::object(parts);
                assert(part@->Object_0 =~= seq![
                    ("code"@, JsonView::Text(error.code.text())),
                    ("message"@, JsonView::Text(error.message@)),
                ]);
                json::add_field(&mut fields, "error", part);
            },
            None => {},
        }
        let r = json::object(fields);
        assert(r@->Object_0 =~= response_value(self@)->Object_0);
        r
    }

    /// The response that a JSON value is.
    pub fn decode(value: &Json) -> (r: Option<Self>)
        ensures
            match r {
                Some(frame) => response_of(value@) == Some(frame@),
                None => response_of(value@) is None,
            },
    {
        if !value.is_record(4) {
            return None;
        }
        let id = json::as_text(value.part(0, "id"))?;
        let ok = match value.part(1, "ok") {
            Some(Json::Bool(b)) => *b,
            _ => {
                return None;
            },
        };
        let data = match value.part(2, "data") {
            None => None,
            Some(Json::Null) => None,
            Some(given) => Some(given.copy()),
        };
        let error = match value.part(3, "error") {
            None => None,
            Some(Json::Null) => None,
            Some(given) => {
                if !given.is_record(2) {
                    return None;
                }
                let code_text = json::as_text(given.part(0, "code"))?;
                let message = json::as_text(given.part(1, "message"))?;
                let code = match ErrorCode::parse(&code_text) {
                    Ok(code) => {
                        proof {
                            assert(code.text() == code_text@);
                            let chosen = code_of(code_text@)->0;
                            ErrorCode::texts_differ(chosen, code);
                        }
                        code
                    },
                    Err(_) => {
                        return None;
                    },
                };
                Some(FrameError { code, message })
            },
        };
        Some(ResponseFrame { id, ok, data, error })
    }
}

/// Reading the value that a request is sent as gives the request back.
pub proof fn request_round_trips(request: RequestView)
    ensures
        request_of(request_value(request)) == Some(request),
{
    reveal_strlit("id");
    reveal_strlit("command");
    reveal_strlit("args");
    reveal_with_fuel(json::lookup, 4);
    assert("id"@.len() != "command"@.len());
    assert("id"@.len() != "args"@.len());
    assert("command"@.len() != "args"@.len());
}

/// Reading the value that a response is sent as gives the response back, unless
/// its data is null, which reads as no data.
pub proof fn response_round_trips(response: ResponseView)
    requires
        response.data != Some(JsonView::Null),
    ensures
        response_of(response_value(response)) == Some(response),
{
    reveal_strlit("id");
    reveal_strlit("ok");
    reveal_strlit("data");
    reveal_strlit("error");
    reveal_strlit("code");
    reveal_strlit("message");
    reveal_with_fuel(json::lookup, 5);
    assert("id"@[0] != "ok"@[0]);
    assert("id"@.len() != "data"@.len());
    assert("id"@.len() != "error"@.len());
    assert("ok"@.len() != "data"@.len());
    assert("ok"@.len() != "error"@.len());
    assert("data"@.len() != "error"@.len());
    assert("code"@.len() != "message"@.len());
    if let Some(error) = response.error {
        assert(error.code.text() == error.code.text());
        ErrorCode::texts_differ(error.code, code_of(error.code.text())->0);
        let part = JsonView::Object(
            seq![
                ("code"@, JsonView::Text(error.code.text())),
                ("message"@, JsonView::Text(error.message)),
            ],
        );
        assert(error_of(part) == Some(error));
        let fields = response_value(response)->Object_0;
        assert(json::lookup(fields, "error"@) == Some(part));
    }
    let fields = response_value(response)->Object_0;
    assert(json::lookup(fields, "id"@) == Some(JsonView::Text(response.id)));
    assert(json::lookup(fields, "ok"@) == Some(JsonView::Bool(response.ok)));
    assert(json::lookup(fields, "data"@) == response.data);
}

/// An answer that went well carries its data and no error, one that did not carries
/// what went wrong and no data, and either carries the number that it is given.
pub proof fn answers_carry_data_or_an_error(
    id: Seq<char>,
    data: JsonView,
    code: ErrorCode,
    message: Seq<char>,
)
    ensures
        ok_response(id, data).id == id && ok_response(id, data).ok,
        ok_response(id, data).data == Some(data) && ok_response(id, data).error is None,
        error_response(id, code, message).id == id && !error_response(id, code, message).ok,
        error_response(id, code, message).data is None,
        error_response(id, code, message).error matches Some(e) && e.code == code && e.message
            == message,
{
}

/// Frames may give their fields by place as well as by name, and mean the same.
pub proof fn frames_may_be_given_by_place(fields: Fields, items: Seq<JsonView>)
    ensures
        items.len() == 3 && json::lookup(fields, "id"@) == Some(items[0]) && json::lookup(
            fields,
            "command"@,
        ) == Some(items[1]) && json::lookup(fields, "args"@) == Some(items[2]) ==> request_of(
            JsonView::List(items),
        ) == request_of(JsonView::Object(fields)),
        items.len() == 4 && json::lookup(fields, "id"@) == Some(items[0]) && json::lookup(
            fields,
            "ok"@,
        ) == Some(items[1]) && json::lookup(fields, "data"@) == Some(items[2]) && json::lookup(
            fields,
            "error"@,
        ) == Some(items[3]) ==> response_of(JsonView::List(items)) == response_of(
            JsonView::Object(fields),
        ),
        items.len() == 2 && json::lookup(fields, "code"@) == Some(items[0]) && json::lookup(
            fields,
            "message"@,
        ) == Some(items[1]) ==> error_of(JsonView::List(items)) == error_of(
            JsonView::Object(fields),
        ),
{
}

/// Frames are read from the fields of their names: a request has its number, its
/// command and its arguments, an answer its number, whether it went well, its data
/// and its error.
pub proof fn frames_are_read_field_by_field(fields: Fields)
    ensures
        request_of(JsonView::Object(fields)) matches Some(q) ==> {
            &&& json::lookup(fields, "id"@) is Some ==> json::lookup(fields, "id"@) == Some(
                JsonView::Text(q.id),
            )
            &&& json::lookup(fields, "id"@) is None ==> q.id.len() == 0
            &&& json::lookup(fields, "command"@) == Some(JsonView::Text(q.command))
            &&& json::lookup(fields, "args"@) is Some ==> json::lookup(fields, "args"@) == Some(
                JsonView::Object(q.args),
            )
            &&& json::lookup(fields, "args"@) is None ==> q.args.len() == 0
        },
        response_of(JsonView::Object(fields)) matches Some(r) ==> {
            &&& json::lookup(fields, "id"@) == Some(JsonView::Text(r.id))
            &&& json::lookup(fields, "ok"@) == Some(JsonView::Bool(r.ok))
            &&& r.data is Some ==> json::lookup(fields, "data"@) == r.data
            &&& r.data is None ==> json::lookup(fields, "data"@) is None || json::lookup(
                fields,
                "data"@,
            ) == Some(JsonView::Null)
            &&& r.error matches Some(e) ==> (json::lookup(fields, "error"@) matches Some(given)
                && json::part(given, 0, "code"@) == Some(JsonView::Text(e.code.text()))
                && json::part(given, 1, "message"@) == Some(JsonView::Text(e.message)))
        },
{
}

} // verus!
