use claw::json::Json;
use claw::mcp::conn::{flatten_content, Conn, Reply};
use claw::mcp::{dequalify, qualify, McpError, McpTool};

fn json(text: &str) -> Json {
    Json::parse(text).expect("json")
}

fn text<'a>(value: &'a Json, key: &str) -> &'a str {
    match value.get(key) {
        Some(Json::Text(text)) => text,
        _ => "",
    }
}

/// A canned tool server: it answers a request, and nothing to a notice.
fn server(line: &str) -> Option<String> {
    let message = json(line);
    let Some(Json::Number(id)) = message.get("id") else {
        return None;
    };
    let result = match text(&message, "method") {
        "initialize" => r#"{"protocolVersion":"2025-06-18"}"#.to_owned(),
        "tools/list" => r#"{"tools":[
            {"name":"search","description":"web search","inputSchema":{"type":"object"}},
            {"name":"fetch","description":"get a url"}
        ]}"#
        .replace('\n', ""),
        "tools/call" => {
            let params = message.get("params").expect("params");
            let arguments = params.get("arguments").expect("arguments");
            format!(
                r#"{{"content":[{{"type":"text","text":"ran with {}"}}]}}"#,
                text(arguments, "q")
            )
        }
        _ => "null".to_owned(),
    };
    Some(format!(r#"{{"jsonrpc":"2.0","id":{id},"result":{result}}}"#))
}

fn exchange(conn: &mut Conn, method: &str, params: Json) -> Json {
    let (id, line) = conn.request(method, Some(params)).expect("request");
    let reply = server(&line).expect("reply");
    match Conn::read(&reply, id).expect("understood") {
        Reply::Result(result) => result,
        Reply::Skip => panic!("the answer must count"),
    }
}

#[test]
fn a_reply_may_be_a_list_of_its_fields() {
    let Ok(Reply::Result(Json::Text(said))) = Conn::read(r#"[7,"done"]"#, 7) else {
        panic!("the answer to request 7");
    };
    assert_eq!(said, "done");
    assert!(matches!(Conn::read(r#"[8,"done"]"#, 7), Ok(Reply::Skip)));
    assert!(Conn::read(r#"[7,null,[-32601,"no such method"]]"#, 7).is_err());
    let tool = McpTool::decode(&json(r#"["search","finds things"]"#)).expect("tool");
    assert_eq!((tool.name.as_str(), tool.description.as_str()), ("search", "finds things"));
}

#[test]
fn initialize_list_and_call_round_trip() {
    let mut conn = Conn::new();
    exchange(
        &mut conn,
        "initialize",
        Conn::initialize("claw-test", "0.1.0"),
    );
    assert_eq!(server(&Conn::notice("notifications/initialized")), None);

    let listed = exchange(&mut conn, "tools/list", Conn::list_tools());
    let tools = McpTool::decode_all(&listed).expect("list");
    assert_eq!(
        tools.iter().map(|t| t.name.as_str()).collect::<Vec<_>>(),
        ["search", "fetch"]
    );
    assert_eq!(tools[0].description, "web search");

    let called = exchange(
        &mut conn,
        "tools/call",
        Conn::call_tool("search", json(r#"{"q":"rust"}"#)),
    );
    assert_eq!(flatten_content(&called), "ran with rust");
}

#[test]
fn requests_are_numbered_and_end_in_a_newline() {
    let mut conn = Conn::new();
    let (first, line) = conn.request("ping", None).expect("request");
    let (second, _) = conn.request("ping", None).expect("request");
    assert_eq!(second, first + 1);
    assert!(line.ends_with('\n'));
    assert_eq!(text(&json(&line), "method"), "ping");
}

#[test]
fn only_the_own_answer_counts() {
    let other = r#"{"jsonrpc":"2.0","id":7,"result":{}}"#;
    assert!(matches!(Conn::read(other, 8), Ok(Reply::Skip)));
    assert!(matches!(Conn::read(other, 7), Ok(Reply::Result(_))));
    let refused = r#"{"jsonrpc":"2.0","id":7,"error":{"code":-32601,"message":"no method"}}"#;
    let Err(error) = Conn::read(refused, 7) else {
        panic!("must fail");
    };
    assert_eq!(
        error,
        McpError::Rpc {
            code: -32601,
            message: "no method".to_owned()
        }
    );
    let odd = r#"{"jsonrpc":"2.0","id":"seven","result":{}}"#;
    assert!(matches!(Conn::read(odd, 7), Err(McpError::Json(_))));
}

#[test]
fn log_lines_and_notices_are_skipped() {
    for line in [
        "",
        "[info] chromium is up",
        "42",
        r#"{"level":"warn","error":"slow disk"}"#,
        r#"{"jsonrpc":"2.0","method":"notifications/message","params":{}}"#,
    ] {
        assert!(matches!(Conn::read(line, 7), Ok(Reply::Skip)), "{line:?}");
    }
}

#[test]
fn flatten_joins_text_and_notes_other_blocks() {
    let result = json(
        r#"{"content":[
            {"type":"text","text":"line one"},
            {"type":"image","data":"..."},
            {"type":"text","text":"line two"}
        ]}"#,
    );
    assert_eq!(
        flatten_content(&result),
        "line one\n[image content omitted]\nline two"
    );
}

#[test]
fn flatten_falls_back_to_raw_json_without_content() {
    assert_eq!(flatten_content(&json(r#"{"ok":true}"#)), "{\"ok\":true}");
}

#[test]
fn qualify_and_dequalify_round_trip() {
    let q = qualify("web", "search");
    assert_eq!(q, "web__search");
    assert_eq!(dequalify(&q), Some(("web", "search")));
}

#[test]
fn dequalify_rejects_unqualified_names() {
    assert_eq!(dequalify("bash"), None);
}

#[test]
fn dequalify_keeps_the_tool_remainder_intact() {
    assert_eq!(
        dequalify("web__deep__search"),
        Some(("web", "deep__search"))
    );
}

#[test]
fn a_server_named_with_a_trailing_underscore_reads_back_differently() {
    assert_eq!(dequalify(&qualify("web_", "search")), Some(("web", "_search")));
}
