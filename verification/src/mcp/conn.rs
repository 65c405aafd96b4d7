//! One conversation in JSON-RPC over lines.

use vstd::prelude::*;

use crate::json;
use crate::json::{Json, JsonView};
use crate::mcp::McpError;
use crate::text;

verus! {

broadcast use vstd::string::group_string_axioms;

/// The revision of the protocol that the client speaks.
pub const PROTOCOL_VERSION: &'static str = "2025-06-18";

/// The value of some parameters, if there are any.
pub open spec fn params_view(params: Option<Json>) -> Option<JsonView> {
    match params {
        Some(value) => Some(value@),
        None => None,
    }
}

/// The value of a request.
pub open spec fn request_value(id: nat, method: Seq<char>, params: Option<JsonView>) -> JsonView {
    let head = seq![
        ("jsonrpc"@, JsonView::Text("2.0"@)),
        ("id"@, JsonView::Number(text::decimal(id as int))),
        ("method"@, JsonView::Text(method)),
    ];
    JsonView::Object(json::with(head, "params"@, params))
}

/// The value of a notice, which has no answer.
pub open spec fn notice_value(method: Seq<char>) -> JsonView {
    JsonView::Object(
        seq![("jsonrpc"@, JsonView::Text("2.0"@)), ("method"@, JsonView::Text(method))],
    )
}

/// The parameters of the request that opens a conversation.
pub open spec fn opening_value(name: Seq<char>, version: Seq<char>) -> JsonView {
    JsonView::Object(
        seq![
            ("capabilities"@, JsonView::Object(Seq::empty())),
            (
                "clientInfo"@,
                JsonView::Object(
                    seq![("name"@, JsonView::Text(name)), ("version"@, JsonView::Text(version))],
                ),
            ),
            ("protocolVersion"@, JsonView::Text(PROTOCOL_VERSION@)),
        ],
    )
}

/// The parameters of a call of a tool.
pub open spec fn call_value(name: Seq<char>, arguments: JsonView) -> JsonView {
    JsonView::Object(seq![("arguments"@, arguments), ("name"@, JsonView::Text(name))])
}

/// What a line of the server is to a waiting client.
pub enum Reply {
    /// Nothing: a blank line, a log line, a notice, or the answer to another request.
    Skip,
    /// The answer.
    Result(Json),
}

/// The mathematical value of what a line is: `None` where it is to be skipped, an
/// error as its line of text.
pub type ReplyView = Result<Option<JsonView>, Seq<char>>;

/// The number of a reply, if it has one; `None` where it is no number.
pub open spec fn id_of(value: Option<JsonView>) -> Option<Option<int>> {
    match value {
        None => Some(None),
        Some(JsonView::Null) => Some(None),
        Some(JsonView::Number(n)) => match text::unsigned(n, u64::MAX as int) {
            Some(id) => Some(Some(id)),
            None => None,
        },
        Some(_) => None,
    }
}

/// The error of a reply, if it has one; `None` where it is malformed.
pub open spec fn error_of(value: Option<JsonView>) -> Option<Option<(int, Seq<char>)>> {
    match value {
        None => Some(None),
        Some(JsonView::Null) => Some(None),
        Some(error) => match (
            json::integer_of(json::part(error, 0, "code"@)),
            json::text_of(json::part(error, 1, "message"@)),
        ) {
            (Some(code), Some(message)) => if json::is_record(error, 2) {
                Some(Some((code, message)))
            } else {
                None
            },
            _ => None,
        },
    }
}

/// What a value is to a client that waits for the answer to a request. One without
/// a number is no answer: it is a log line or a notice.
pub open spec fn answer_of(value: JsonView, id: int) -> ReplyView {
    let error = error_of(json::part(value, 2, "error"@));
    if !json::is_record(value, 3) {
        Ok(None)
    } else {
        match id_of(json::part(value, 0, "id"@)) {
            None => Err("json: "@ + "unexpected shape"@),
            Some(None) => Ok(None),
            Some(Some(number)) => if error is None {
                Err("json: "@ + "unexpected shape"@)
            } else if number != id {
                Ok(None)
            } else {
                match error->0 {
                    Some((code, message)) => Err(
                        "server error "@ + text::decimal(code) + ": "@ + message,
                    ),
                    None => Ok(
                        Some(
                            match json::part(value, 1, "result"@) {
                                Some(result) => result,
                                None => JsonView::Null,
                            },
                        ),
                    ),
                }
            },
        }
    }
}

/// What a line is to a client that waits for the answer to a request. One that is
/// not JSON is a log line.
pub open spec fn line_of(line: Seq<char>, id: int) -> ReplyView {
    if text::blank(line) {
        Ok(None)
    } else {
        match json::parsed(text::trimmed(line)) {
            Err(_) => Ok(None),
            Ok(value) => answer_of(value, id),
        }
    }
}

/// A conversation: the number of the next request.
pub struct Conn {
    next_id: u64,
}

fn read_id(value: Option<&Json>) -> (r: Option<Option<u64>>)
    ensures
        match r {
            None => id_of(json::opt_value(value)) is None,
            Some(None) => id_of(json::opt_value(value)) == Some(None::<int>),
            Some(Some(id)) => id_of(json::opt_value(value)) == Some(Some(id as int)),
        },
{
    match value {
        None => Some(None),
        Some(Json::Null) => Some(None),
        Some(Json::Number(n)) => match text::parse_unsigned(n, u64::MAX) {
            Some(id) => Some(Some(id)),
            None => None,
        },
        Some(_) => None,
    }
}

fn read_error(value: Option<&Json>) -> (r: Option<Option<(i64, String)>>)
    ensures
        match r {
            None => error_of(json::opt_value(value)) is None,
            Some(None) => error_of(json::opt_value(value)) == Some(None::<(int, Seq<char>)>),
            Some(Some((code, message))) => error_of(json::opt_value(value)) == Some(
                Some((code as int, message@)),
            ),
        },
{
    match value {
        None => Some(None),
        Some(Json::Null) => Some(None),
        Some(error) => {
            if !error.is_record(2) {
                return None;
            }
            let code = json::as_integer(error.part(0, "code"));
            let message = json::as_text(error.part(1, "message"));
            match (code, message) {
                (Some(code), Some(message)) => Some(Some((code, message))),
                _ => None,
            }
        },
    }
}

fn unexpected() -> (r: McpError)
    ensures
        r.message_text() == "json: "@ + "unexpected shape"@,
{
    McpError::Json("unexpected shape".to_owned())
}

impl Conn {
    /// The number of the next request.
    pub closed spec fn next(&self) -> nat {
        self.next_id as nat
    }

    /// A conversation that has not begun.
    pub fn new() -> (r: Self)
        ensures
            r.next() == 1,
    {
        Conn { next_id: 1 }
    }

    /// A request: its number, by which its answer is known, and its line. `None`
    /// once every number is used up.
    pub fn request(&mut self, method: &str, params: Option<Json>) -> (r: Option<(u64, String)>)
        ensures
            match r {
                Some((id, line)) => id == old(self).next() && final(self).next() == id + 1
                    && line@ == json::encoded(
                    request_value(
                        id as nat,
                        method@,
                        params_view(params),
                    ),
                ) + "\n"@,
                None => old(self).next() == u64::MAX && *final(self) == *old(self),
            },
    {
        if self.next_id == u64::MAX {
            return None;
        }
        let id: u64 = self.next_id;
        self.next_id = self.next_id + 1;
        let ghost given = params_view(params);
        let mut fields: Vec<(String, Json)> = Vec::new();
        json::add_field(&mut fields, "jsonrpc", json::text_json("2.0"));
        json::add_field(&mut fields, "id", Json::Number(text::decimal_u64(id)));
        json::add_field(&mut fields, "method", json::text_json(method));
        assert(json::fields_view(fields@) =~= seq![
            ("jsonrpc"@, JsonView::Text("2.0"@)),
            ("id"@, JsonView::Number(text::decimal(id as int))),
            ("method"@, JsonView::Text(method@)),
        ]);
        json::add_optional(&mut fields, "params", params);
        let value = json::object(fields);
        assert(value@ == request_value(id as nat, method@, given));
        Some((id, text::concat2(&value.encode(), "\n")))
    }

    /// The line of a notice.
    pub fn notice(method: &str) -> (r: String)
        ensures
            r@ == json::encoded(notice_value(method@)) + "\n"@,
    {
        let mut fields: Vec<(String, Json)> = Vec::new();
        json::add_field(&mut fields, "jsonrpc", json::text_json("2.0"));
        json::add_field(&mut fields, "method", json::text_json(method));
        let value = json::object(fields);
        assert(value@->Object_0 =~= notice_value(method@)->Object_0);
        text::concat2(&value.encode(), "\n")
    }

    /// The parameters of the request that opens a conversation.
    pub fn initialize(client_name: &str, version: &str) -> (r: Json)
        ensures
            r@ == opening_value(client_name@, version@),
    {
        let none: Vec<(String, Json)> = Vec::new();
        assert(json::fields_view(none@) =~= Seq::empty());
        let mut info: Vec<(String, Json)> = Vec::new();
        json::add_field(&mut info, "name", json::text_json(client_name));
        json::add_field(&mut info, "version", json::text_json(version));
        assert(json::fields_view(info@) =~= seq![
            ("name"@, JsonView::Text(client_name@)),
            ("version"@, JsonView::Text(version@)),
        ]);
        let mut fields: Vec<(String, Json)> = Vec::new();
        json::add_field(&mut fields, "capabilities", json::object(none));
        json::add_field(&mut fields, "clientInfo", json::object(info));
        json::add_field(&mut fields, "protocolVersion", json::text_json(PROTOCOL_VERSION));
        let value = json::object(fields);
        assert(value@->Object_0 =~= opening_value(client_name@, version@)->Object_0);
        value
    }

    /// The parameters of a request for the list of tools.
    pub fn list_tools() -> (r: Json)
        ensures
            r@ == JsonView::Object(Seq::empty()),
    {
        let none: Vec<(String, Json)> = Vec::new();
        let value = json::object(none);
        assert(value@->Object_0 =~= Seq::empty());
        value
    }

    /// The parameters of a call of a tool.
    pub fn call_tool(name: &str, arguments: Json) -> (r: Json)
        ensures
            r@ == call_value(name@, arguments@),
    {
        let ghost given = arguments@;
        let mut fields: Vec<(String, Json)> = Vec::new();
        json::add_field(&mut fields, "arguments", arguments);
        json::add_field(&mut fields, "name", json::text_json(name));
        let value = json::object(fields);
        assert(value@->Object_0 =~= call_value(name@, given)->Object_0);
        value
    }

    /// What a value is to a client that waits for the answer to a request.
    pub fn answer(value: &Json, id: u64) -> (r: Result<Reply, McpError>)
        ensures
            reply_view(r) == answer_of(value@, id as int),
    {
        if !value.is_record(3) {
            return Ok(Reply::Skip);
        }
        let number: u64 = match read_id(value.part(0, "id")) {
            Some(Some(number)) => number,
            Some(None) => {
                return Ok(Reply::Skip);
            },
            None => {
                return Err(unexpected());
            },
        };
        let error = match read_error(value.part(2, "error")) {
            Some(error) => error,
            None => {
                return Err(unexpected());
            },
        };
        if number != id {
            return Ok(Reply::Skip);
        }
        match error {
            Some((code, message)) => Err(McpError::Rpc { code, message }),
            None => match value.part(1, "result") {
                Some(result) => Ok(Reply::Result(result.copy())),
                None => Ok(Reply::Result(Json::Null)),
            },
        }
    }

    /// Reads a line of the server while waiting for the answer to a request.
    pub fn read(line: &str, id: u64) -> (r: Result<Reply, McpError>)
        ensures
            reply_view(r) == line_of(line@, id as int),
    {
        if text::is_blank(line) {
            return Ok(Reply::Skip);
        }
        match Json::parse(&text::trim(line)) {
            Err(_) => Ok(Reply::Skip),
            Ok(value) => Self::answer(&value, id),
        }
    }
}

/// The mathematical value of what a line is.
pub open spec fn reply_view(r: Result<Reply, McpError>) -> ReplyView {
    match r {
        Ok(Reply::Skip) => Ok(None),
        Ok(Reply::Result(value)) => Ok(Some(value@)),
        Err(e) => Err(e.message_text()),
    }
}

/// The text of a block of a result: its text, or a note that it is left out; none
/// of a block without a type.
pub open spec fn block_text(block: JsonView) -> Option<Seq<char>> {
    match json::get(block, "type"@) {
        Some(JsonView::Text(kind)) => if kind == "text"@ {
            Some(
                match json::get(block, "text"@) {
                    Some(JsonView::Text(s)) => s,
                    _ => Seq::empty(),
                },
            )
        } else {
            Some("["@ + kind + " content omitted]"@)
        },
        _ => None,
    }
}

/// The texts of the blocks of a result.
pub open spec fn block_texts(blocks: Seq<JsonView>) -> Seq<Seq<char>>
    decreases blocks.len(),
{
    if blocks.len() == 0 {
        Seq::empty()
    } else {
        let before = block_texts(blocks.drop_last());
        match block_text(blocks.last()) {
            Some(s) => before.push(s),
            None => before,
        }
    }
}

/// The text that the result of a call comes to: that of its blocks, or the whole
/// value where it has none.
pub open spec fn flat(result: JsonView) -> Seq<char> {
    match json::get(result, "content"@) {
        Some(JsonView::List(blocks)) => text::joined(block_texts(blocks), "\n"@),
        _ => json::encoded(result),
    }
}

/// The text that the result of a call comes to.
pub fn flatten_content(result: &Json) -> (r: String)
    ensures
        r@ == flat(result@),
{
    let blocks = match result.get("content") {
        Some(Json::List(blocks)) => blocks,
        _ => {
            return result.encode();
        },
    };
    let ghost all = json::items_view(blocks@);
    let mut parts: Vec<String> = Vec::new();
    let mut i: usize = 0;
    proof {
        json::lemma_list_view(*blocks);
        assert(all.take(0) =~= Seq::empty());
        assert(text::views(parts@) =~= Seq::empty());
    }
    while i < blocks.len()
        invariant
            i <= blocks@.len(),
            all == json::items_view(blocks@),
            text::views(parts@) == block_texts(all.take(i as int)),
        decreases blocks@.len() - i,
    {
        let ghost was = text::views(parts@);
        proof {
            assert(all.take(i + 1).drop_last() =~= all.take(i as int));
            assert(all.take(i + 1).last() == blocks@[i as int]@);
        }
        match blocks[i].get("type") {
            Some(Json::Text(kind)) => {
                let part = if text::same(kind, "text") {
                    match blocks[i].get("text") {
                        Some(Json::Text(s)) => s.clone(),
                        _ => {
                            let none = String::new();
                            assert(none@ =~= Seq::empty());
                            none
                        },
                    }
                } else {
                    text::concat3("[", kind, " content omitted]")
                };
                parts.push(part);
                assert(text::views(parts@) =~= was.push(part@));
            },
            _ => {},
        }
        i += 1;
    }
    assert(all.take(i as int) =~= all);
    text::join(&parts, "\n")
}

// ---------------------------------------------------------------------------
// Laws

/// A client takes no answer but the one to its own request.
pub proof fn only_the_own_answer_counts(value: JsonView, id: int)
    requires
        id_of(json::part(value, 0, "id"@)) != Some(Some(id)),
    ensures
        !(answer_of(value, id) matches Ok(Some(_))),
{
}

/// Log lines and notices that come in between are skipped.
pub proof fn interleaved_lines_are_skipped(line: Seq<char>, id: int)
    requires
        match json::parsed(text::trimmed(line)) {
            Ok(value) => json::is_record(value, 3) ==> id_of(json::part(value, 0, "id"@)) == Some(None::<int>),
            Err(_) => true,
        },
    ensures
        line_of(line, id) == Ok::<Option<JsonView>, Seq<char>>(None),
{
}

/// A request carries its number, its method and its parameters, a notice its method
/// and no number.
pub proof fn requests_carry_their_parts(id: nat, method: Seq<char>, params: Option<JsonView>)
    ensures
        request_value(id, method, params) matches JsonView::Object(sent) && ({
            &&& json::lookup(sent, "jsonrpc"@) == Some(JsonView::Text("2.0"@))
            &&& json::lookup(sent, "id"@) == Some(JsonView::Number(text::decimal(id as int)))
            &&& json::lookup(sent, "method"@) == Some(JsonView::Text(method))
            &&& json::lookup(sent, "params"@) == params
        }),
        notice_value(method) matches JsonView::Object(sent) && ({
            &&& json::lookup(sent, "jsonrpc"@) == Some(JsonView::Text("2.0"@))
            &&& json::lookup(sent, "method"@) == Some(JsonView::Text(method))
            &&& json::lookup(sent, "id"@) is None
        }),
{
    broadcast use {json::lemma_lookup_with, json::lemma_lookup_empty};

    reveal_strlit("jsonrpc");
    reveal_strlit("id");
    reveal_strlit("method");
    reveal_strlit("params");
    assert("jsonrpc"@.len() == 7 && "id"@.len() == 2 && "method"@.len() == 6 && "params"@.len()
        == 6);
    assert("method"@[0] == 'm' && "params"@[0] == 'p');
    let head = seq![
        ("jsonrpc"@, JsonView::Text("2.0"@)),
        ("id"@, JsonView::Number(text::decimal(id as int))),
        ("method"@, JsonView::Text(method)),
    ];
    json::lemma_lookup_at(head, "jsonrpc"@, 0);
    json::lemma_lookup_at(head, "id"@, 1);
    json::lemma_lookup_at(head, "method"@, 2);
    json::lemma_lookup_absent(head, "params"@);
    let notice = notice_value(method)->Object_0;
    json::lemma_lookup_at(notice, "jsonrpc"@, 0);
    json::lemma_lookup_at(notice, "method"@, 1);
    json::lemma_lookup_absent(notice, "id"@);
}

/// A call names its tool and hands over the arguments as they are, and the opening
/// tells who speaks.
pub proof fn calls_hand_over_their_arguments(
    name: Seq<char>,
    arguments: JsonView,
    version: Seq<char>,
)
    ensures
        call_value(name, arguments) matches JsonView::Object(sent) && json::lookup(sent, "name"@)
            == Some(JsonView::Text(name)) && json::lookup(sent, "arguments"@) == Some(arguments),
        opening_value(name, version) matches JsonView::Object(sent) && ({
            &&& json::lookup(sent, "protocolVersion"@) == Some(JsonView::Text(PROTOCOL_VERSION@))
            &&& json::lookup(sent, "clientInfo"@) matches Some(JsonView::Object(who))
                && json::lookup(who, "name"@) == Some(JsonView::Text(name)) && json::lookup(
                who,
                "version"@,
            ) == Some(JsonView::Text(version))
        }),
{
    reveal_strlit("arguments");
    reveal_strlit("name");
    reveal_strlit("capabilities");
    reveal_strlit("clientInfo");
    reveal_strlit("protocolVersion");
    reveal_strlit("version");
    assert("arguments"@.len() == 9 && "name"@.len() == 4 && "version"@.len() == 7);
    assert("capabilities"@.len() == 12 && "clientInfo"@.len() == 10 && "protocolVersion"@.len()
        == 15);
    let sent = call_value(name, arguments)->Object_0;
    json::lemma_lookup_at(sent, "arguments"@, 0);
    json::lemma_lookup_at(sent, "name"@, 1);
    let opening = opening_value(name, version)->Object_0;
    json::lemma_lookup_at(opening, "clientInfo"@, 1);
    json::lemma_lookup_at(opening, "protocolVersion"@, 2);
    let who = opening[1].1->Object_0;
    json::lemma_lookup_at(who, "name"@, 0);
    json::lemma_lookup_at(who, "version"@, 1);
}

/// The answer to a request is what its result holds, or null where it has none; an
/// error of the server is told with its number and its message.
pub proof fn answers_give_their_result(
    fields: json::Fields,
    id: int,
    code: int,
    message: Seq<char>,
)
    requires
        0 <= id <= u64::MAX,
        json::lookup(fields, "id"@) == Some(JsonView::Number(text::decimal(id))),
    ensures
        json::lookup(fields, "error"@) is None || json::lookup(fields, "error"@) == Some(
            JsonView::Null,
        ) ==> answer_of(JsonView::Object(fields), id) == Ok::<Option<JsonView>, Seq<char>>(
            Some(
                if json::lookup(fields, "result"@) is Some {
                    json::lookup(fields, "result"@)->0
                } else {
                    JsonView::Null
                },
            ),
        ),
        json::lookup(fields, "error"@) matches Some(JsonView::Object(e)) ==> json::integer_of(
            json::lookup(e, "code"@),
        ) == Some(code) && json::lookup(e, "message"@) == Some(JsonView::Text(message)) ==> (
        answer_of(JsonView::Object(fields), id) matches Err(told) && text::within(told, message)
            && text::within(told, text::decimal(code))),
        forall|other: int|
            other != id ==> !(#[trigger] answer_of(JsonView::Object(fields), other) matches Ok(
                Some(_),
            )),
{
    text::decimals_read_as_their_number(id, u64::MAX as int);
    let told = "server error "@ + text::decimal(code) + ": "@ + message;
    assert(told =~= "server error "@ + text::decimal(code) + (": "@ + message));
    text::parts_stand_in_the_whole(
        told,
        "server error "@,
        text::decimal(code),
        ": "@ + message,
    );
    assert(told =~= "server error "@ + text::decimal(code) + ": "@ + message + seq![]);
    text::parts_stand_in_the_whole(
        told,
        "server error "@ + text::decimal(code) + ": "@,
        message,
        seq![],
    );
}

/// Lines are read without the white space around them; those that hold nothing, or
/// nothing that can be read, are passed over.
pub proof fn lines_are_read_trimmed(line: Seq<char>, id: int, value: JsonView)
    ensures
        !text::blank(line) && json::parsed(text::trimmed(line)) == Ok::<JsonView, Seq<char>>(value)
            ==> line_of(line, id) == answer_of(value, id),
        text::blank(line) || json::parsed(text::trimmed(line)) is Err ==> line_of(line, id) == Ok::<
            Option<JsonView>,
            Seq<char>,
        >(None),
{
}

/// What a tool gives back is told block by block, in order: a text as it is, and of
/// any other block what kind it is of.
pub proof fn blocks_are_told_in_order(
    fields: json::Fields,
    more: json::Fields,
    blocks: Seq<JsonView>,
    block: JsonView,
    kind: Seq<char>,
    said: Seq<char>,
)
    requires
        json::lookup(fields, "content"@) == Some(JsonView::List(blocks)),
        json::lookup(more, "content"@) == Some(JsonView::List(blocks.push(block))),
        json::get(block, "type"@) == Some(JsonView::Text(kind)),
        kind == "text"@ ==> json::get(block, "text"@) == Some(JsonView::Text(said)),
    ensures
        kind == "text"@ && block_texts(blocks).len() > 0 ==> flat(JsonView::Object(more)) == flat(
            JsonView::Object(fields),
        ) + "\n"@ + said,
        kind == "text"@ && block_texts(blocks).len() == 0 ==> flat(JsonView::Object(more)) == said,
        kind != "text"@ ==> text::within(flat(JsonView::Object(more)), kind),
{
    let all = blocks.push(block);
    assert(all.drop_last() =~= blocks);
    let texts = block_texts(blocks);
    let last = block_text(block)->0;
    assert(block_texts(all) == texts.push(last));
    text::one_more_part_is_joined(texts, last, "\n"@);
    if texts.len() == 0 {
        assert(texts.push(last) =~= seq![last]);
    }
    if kind != "text"@ {
        text::parts_stand_in_the_whole(last, "["@, kind, " content omitted]"@);
        text::every_part_is_joined(texts.push(last), "\n"@, texts.len() as int);
        text::what_a_part_holds_the_whole_holds(
            text::joined(texts.push(last), "\n"@),
            last,
            kind,
        );
    }
}

/// Answers may give their fields by place as well as by name, and mean the same.
pub proof fn answers_may_be_given_by_place(
    fields: json::Fields,
    items: Seq<JsonView>,
    id: int,
)
    ensures
        items.len() == 3 && json::lookup(fields, "id"@) == Some(items[0]) && json::lookup(
            fields,
            "result"@,
        ) == Some(items[1]) && json::lookup(fields, "error"@) == Some(items[2]) ==> answer_of(
            JsonView::List(items),
            id,
        ) == answer_of(JsonView::Object(fields), id),
        items.len() == 2 && json::lookup(fields, "code"@) == Some(items[0]) && json::lookup(
            fields,
            "message"@,
        ) == Some(items[1]) ==> error_of(Some(JsonView::List(items))) == error_of(
            Some(JsonView::Object(fields)),
        ),
{
}

} // verus!
