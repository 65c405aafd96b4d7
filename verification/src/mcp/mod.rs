//! Tools of an MCP server, and the conversation with one.

pub mod conn;

use vstd::prelude::*;

use crate::json;
use crate::json::{Json, JsonView};
use crate::text;

verus! {

broadcast use vstd::string::group_string_axioms;

/// The name of the server that comes with the daemon: a web toolbox.
pub const WEB_SERVER_NAME: &'static str = "web";

/// The program that runs it.
pub const WEB_SERVER_COMMAND: &'static str = "mcp-web-search-stdio";

/// The name under which a tool of a server is known: it cannot collide with that
/// of a tool of the agent itself.
pub open spec fn qualified(server: Seq<char>, tool: Seq<char>) -> Seq<char> {
    server + "__"@ + tool
}

/// The name under which a tool of a server is known.
#[must_use]
pub fn qualify(server: &str, tool: &str) -> (r: String)
    ensures
        r@ == qualified(server@, tool@),
{
    text::concat3(server, "__", tool)
}

/// The server and the tool of a name: what stands before and after its first
/// double underscore.
#[must_use]
pub fn dequalify(name: &str) -> (r: Option<(&str, &str)>)
    ensures
        match r {
            Some((server, tool)) => text::cut(name@, "__"@) == Some((server@, tool@)),
            None => text::cut(name@, "__"@) is None,
        },
{
    let letters = text::chars(name);
    let mark: Vec<char> = vec!['_', '_'];
    proof {
        reveal_strlit("__");
        assert(mark@ =~= "__"@);
    }
    match text::find(&letters, &mark) {
        Some(i) => {
            assert(i + 2 <= letters.len());
            let server = name.substring_char(0, i);
            let tool = name.substring_char(i + 2, name.unicode_len());
            proof {
                text::lemma_cut_at(name@, "__"@, i as int);
                assert(server@ =~= name@.take(i as int));
                assert(tool@ =~= name@.skip(i + 2));
            }
            Some((server, tool))
        },
        None => None,
    }
}

/// Why a server could not be used.
#[derive(Debug, PartialEq, Eq)]
pub enum McpError {
    Io(String),
    Json(String),
    Rpc { code: i64, message: String },
    Closed,
    Spawn(String),
    NoPipes,
}

impl McpError {
    /// The error as one line of text.
    pub open spec fn message_text(&self) -> Seq<char> {
        match self {
            McpError::Io(reason) => "io: "@ + reason@,
            McpError::Json(reason) => "json: "@ + reason@,
            McpError::Rpc { code, message } => "server error "@ + text::decimal(*code as int) + ": "@
                + message@,
            McpError::Closed => "the mcp server closed the connection"@,
            McpError::Spawn(reason) => "could not spawn mcp server: "@ + reason@,
            McpError::NoPipes => "mcp server exposed no stdio pipes"@,
        }
    }

    /// The error as one line of text.
    pub fn message(&self) -> (r: String)
        ensures
            r@ == self.message_text(),
    {
        match self {
            McpError::Io(reason) => text::concat2("io: ", reason),
            McpError::Json(reason) => text::concat2("json: ", reason),
            McpError::Rpc { code, message } => {
                let mut out = text::concat3("server error ", &text::decimal_i64(*code), ": ");
                out.append(message);
                out
            },
            McpError::Closed => "the mcp server closed the connection".to_owned(),
            McpError::Spawn(reason) => text::concat2("could not spawn mcp server: ", reason),
            McpError::NoPipes => "mcp server exposed no stdio pipes".to_owned(),
        }
    }
}

/// A tool that a server offers.
#[derive(Debug, PartialEq, Eq)]
pub struct McpTool {
    pub name: String,
    pub description: String,
    pub input_schema: Json,
}

/// The mathematical value of an [`McpTool`].
#[verifier::ext_equal]
pub struct McpToolView {
    pub name: Seq<char>,
    pub description: Seq<char>,
    pub input_schema: JsonView,
}

/// The tool that a value describes; the description and the schema may be left
/// out.
pub open spec fn tool_of(value: JsonView) -> Option<McpToolView> {
    let name = json::text_of(json::part(value, 0, "name"@));
    let description = match json::part(value, 1, "description"@) {
        None => Some(Seq::<char>::empty()),
        given => json::text_of(given),
    };
    if json::is_record(value, 3) && name is Some && description is Some {
        Some(
            McpToolView {
                name: name->0,
                description: description->0,
                input_schema: match json::part(value, 2, "inputSchema"@) {
                    Some(schema) => schema,
                    None => JsonView::Null,
                },
            },
        )
    } else {
        None
    }
}

/// The tools that a reply lists: none where it has no list, `None` where the list
/// is malformed.
pub open spec fn tools_of(result: JsonView) -> Option<Seq<McpToolView>> {
    match json::get(result, "tools"@) {
        None => Some(Seq::empty()),
        Some(JsonView::List(items)) => if forall|i: int|
            0 <= i < items.len() ==> tool_of(#[trigger] items[i]) is Some {
            Some(items.map_values(|item: JsonView| tool_of(item)->0))
        } else {
            None
        },
        Some(_) => None,
    }
}

/// The mathematical values of some tools.
pub open spec fn tools_view(list: Seq<McpTool>) -> Seq<McpToolView> {
    list.map_values(|t: McpTool| t@)
}

impl McpTool {
    pub open spec fn view(&self) -> McpToolView {
        McpToolView {
            name: self.name@,
            description: self.description@,
            input_schema: self.input_schema@,
        }
    }

    /// Reads a tool from a JSON value.
    pub fn decode(value: &Json) -> (r: Option<McpTool>)
        ensures
            match r {
                Some(tool) => tool_of(value@) == Some(tool@),
                None => tool_of(value@) is None,
            },
    {
        if !value.is_record(3) {
            return None;
        }
        let name = json::as_text(value.part(0, "name"))?;
        let description = match value.part(1, "description") {
            None => {
                let none = String::new();
                assert(none@ =~= Seq::empty());
                none
            },
            given => json::as_text(given)?,
        };
        let input_schema = match value.part(2, "inputSchema") {
            Some(schema) => schema.copy(),
            None => Json::Null,
        };
        Some(McpTool { name, description, input_schema })
    }

    /// Reads the tools that a reply lists.
    pub fn decode_all(result: &Json) -> (r: Result<Vec<McpTool>, McpError>)
        ensures
            match r {
                Ok(list) => tools_of(result@) == Some(tools_view(list@)),
                Err(e) => tools_of(result@) is None && e.message_text() == "json: "@
                    + "unexpected shape"@,
            },
    {
        let mut out: Vec<McpTool> = Vec::new();
        let items = match result.get("tools") {
            None => {
                assert(tools_view(out@) =~= Seq::empty());
                return Ok(out);
            },
            Some(Json::List(items)) => items,
            Some(_) => {
                return Err(McpError::Json("unexpected shape".to_owned()));
            },
        };
        let ghost all = json::items_view(items@);
        proof {
            json::lemma_list_view(*items);
        }
        let mut i: usize = 0;
        while i < items.len()
            invariant
                i <= items@.len(),
                all == json::items_view(items@),
                json::get(result@, "tools"@) == Some(JsonView::List(all)),
                out@.len() == i,
                forall|j: int| 0 <= j < i ==> tool_of(#[trigger] all[j]) == Some(out@[j]@),
            decreases items@.len() - i,
        {
            assert(all[i as int] == items@[i as int]@);
            match McpTool::decode(&items[i]) {
                Some(tool) => {
                    out.push(tool);
                },
                None => {
                    return Err(McpError::Json("unexpected shape".to_owned()));
                },
            }
            i += 1;
        }
        assert(tools_view(out@) =~= all.map_values(|item: JsonView| tool_of(item)->0));
        Ok(out)
    }
}

// ---------------------------------------------------------------------------
// Laws

/// A qualified name gives its server and its tool back, provided that the server's
/// name neither holds a double underscore nor ends in one.
pub proof fn qualified_names_read_back(server: Seq<char>, tool: Seq<char>)
    requires
        !text::within(server + "_"@, "__"@),
    ensures
        text::cut(qualified(server, tool), "__"@) == Some((server, tool)),
{
    let name = qualified(server, tool);
    let n = server.len() as int;
    reveal_strlit("__");
    reveal_strlit("_");
    assert("__"@.len() == 2);
    assert(text::at(name, "__"@, n)) by {
        assert(name.subrange(n, n + 2) =~= "__"@);
    }
    assert forall|j: int| 0 <= j < n implies !text::at(name, "__"@, j) by {
        if text::at(name, "__"@, j) {
            let shorter = server + "_"@;
            assert(shorter.subrange(j, j + 2) =~= name.subrange(j, j + 2));
            assert(text::at(shorter, "__"@, j));
        }
    }
    text::lemma_cut_at(name, "__"@, n);
    assert(name.take(n) =~= server);
    assert(name.skip(n + 2) =~= tool);
}

/// The rest of a name stays whole: only its first double underscore divides it.
pub proof fn the_rest_stays_whole(name: Seq<char>)
    ensures
        text::cut(name, "__"@) matches Some((server, tool)) ==> name == qualified(server, tool),
{
    text::lemma_cut_parts(name, "__"@);
}

/// A tool has a name, a description, which is empty where none is given, and the
/// schema of its arguments, each read from the field of its name.
pub proof fn tools_are_read_field_by_field(value: JsonView)
    ensures
        tool_of(value) matches Some(t) ==> {
            &&& json::part(value, 0, "name"@) == Some(JsonView::Text(t.name))
            &&& json::part(value, 1, "description"@) is Some ==> json::part(
                value,
                1,
                "description"@,
            ) == Some(JsonView::Text(t.description))
            &&& json::part(value, 1, "description"@) is None ==> t.description.len() == 0
            &&& json::part(value, 2, "inputSchema"@) is Some ==> json::part(
                value,
                2,
                "inputSchema"@,
            ) == Some(t.input_schema)
            &&& json::part(value, 2, "inputSchema"@) is None ==> t.input_schema == JsonView::Null
        },
        !(json::part(value, 0, "name"@) matches Some(JsonView::Text(_))) ==> tool_of(value) is None,
{
}

/// Every tool that a server lists is taken, in order, and one that cannot be read is
/// an error; a server that lists none has none.
pub proof fn every_tool_is_taken(fields: json::Fields, items: Seq<JsonView>, i: int)
    requires
        json::lookup(fields, "tools"@) == Some(JsonView::List(items)),
        0 <= i < items.len(),
    ensures
        tools_of(JsonView::Object(fields)) matches Some(tools) ==> tools.len() == items.len()
            && Some(tools[i]) == tool_of(items[i]),
        tool_of(items[i]) is None ==> tools_of(JsonView::Object(fields)) is None,
        (forall|k: int| 0 <= k < items.len() ==> tool_of(#[trigger] items[k]) is Some) ==> tools_of(
            JsonView::Object(fields),
        ) is Some,
        tools_of(JsonView::Object(seq![])) == Some(Seq::<McpToolView>::empty()),
{
}

} // verus!
