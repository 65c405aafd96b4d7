use claw::cli_client::{parse, render, report, CliError};
use claw::cli_server::{
    correlate, read_response, receive, request_line, requests_survive_the_wire, response_line,
    Received,
};
use claw::commands::registry::{finish, Dispatch, Registry};
use claw::commands::resources::{Outcome, Work};
use claw::commands::CallerContext;
use claw::db::endpoints::Endpoint;
use claw::json::Json;
use claw::protocol::frame::{ErrorCode, RequestFrame, ResponseFrame};

fn argv(tokens: &[&str]) -> Vec<String> {
    tokens.iter().map(|t| (*t).to_owned()).collect()
}

fn json(text: &str) -> Json {
    Json::parse(text).expect("json")
}

fn arg<'a>(args: &'a [(String, Json)], key: &str) -> Option<&'a Json> {
    args.iter().find(|(k, _)| k == key).map(|(_, v)| v)
}

fn text(value: &str) -> Json {
    Json::Text(value.to_owned())
}

#[test]
fn parses_resource_verb_and_flags() {
    let (command, args) = parse(&argv(&[
        "endpoints",
        "create",
        "--name",
        "openrouter",
        "--base_url=https://x/v1",
        "--verbose",
    ]))
    .expect("parse");
    assert_eq!(command, "endpoints-create");
    assert_eq!(arg(&args, "name"), Some(&text("openrouter")));
    assert_eq!(arg(&args, "base_url"), Some(&text("https://x/v1")));
    assert_eq!(arg(&args, "verbose"), Some(&Json::Bool(true)));
}

#[test]
fn too_few_tokens_is_a_usage_error() {
    assert!(matches!(parse(&argv(&["groups"])), Err(CliError::Usage)));
}

#[test]
fn stray_words_are_refused() {
    assert!(matches!(
        parse(&argv(&["groups", "get", "ag-1"])),
        Err(CliError::Usage)
    ));
}

#[test]
fn renders_a_table_with_a_header_and_dashes_for_nulls() {
    let table = render(&json(
        r#"[{"name":"a","model":"gemma"},{"name":"b","model":null}]"#,
    ));
    let lines: Vec<&str> = table.lines().collect();
    assert!(
        lines[0].contains("name") && lines[0].contains("model"),
        "{:?}",
        lines[0]
    );
    assert!(table.contains("gemma"));
    assert!(
        lines.iter().any(|l| l.contains('-')),
        "null renders as a dash"
    );
    assert_eq!(lines.len(), 3, "header + two rows");
}

#[test]
fn empty_array_renders_none() {
    assert_eq!(render(&json("[]")), "(none)\n");
}

#[test]
fn single_object_renders_key_values() {
    let out = render(&json(r#"{"name":"openrouter","has_api_key":true}"#));
    assert!(out.contains("name"));
    assert!(out.contains("openrouter"));
    assert!(out.contains("true"));
}

#[test]
fn other_values_render_as_they_are() {
    assert_eq!(render(&json("null")), "");
    assert_eq!(render(&json("[1,2]")), "[1,2]\n");
    assert_eq!(render(&json("\"hi\"")), "\"hi\"\n");
}

/// One connection: a line comes in, a registry over one table answers it.
fn serve(registry: &Registry, endpoints: &mut Vec<Endpoint>, line: &str) -> String {
    let response = match receive(line) {
        Received::Skip => panic!("an empty line"),
        Received::Refuse(response) => response,
        Received::Request(request) => {
            let id = request.id.clone();
            let response = match registry.dispatch(request, &CallerContext::Host, &Ok(None)) {
                Dispatch::Respond(response) => response,
                Dispatch::Run { id, work } => {
                    let outcome = match &work {
                        Work::CreateEndpoint(draft) => {
                            let row = Endpoint {
                                name: draft.name.clone(),
                                base_url: draft.base_url.clone(),
                                api_key: None,
                                api_key_env: None,
                                notes: None,
                                created_at: String::new(),
                            };
                            endpoints.push(row.clone());
                            Outcome::Endpoint(Some(row))
                        }
                        _ => Outcome::Endpoints(endpoints.clone()),
                    };
                    finish(&id, &work, &outcome)
                }
            };
            correlate(&id, response)
        }
    };
    response_line(&response)
}

#[test]
fn registry_is_reachable_over_the_socket() {
    let registry = Registry::new();
    let mut endpoints = Vec::new();
    let (command, create_args) = parse(&argv(&[
        "endpoints",
        "create",
        "--name",
        "local",
        "--base_url",
        "http://localhost:8000/v1",
    ]))
    .expect("parse");
    let line = request_line(&RequestFrame::new("1", &command, create_args));
    let created = read_response(&serve(&registry, &mut endpoints, &line)).expect("request");
    assert!(created.ok, "{:?}", created.error);

    let line = request_line(&RequestFrame::new("2", "endpoints-list", Vec::new()));
    let listed = read_response(&serve(&registry, &mut endpoints, &line)).expect("request");
    assert_eq!(listed.id, "2");
    let Some(Json::List(rows)) = listed.data else {
        panic!("array");
    };
    assert_eq!(rows.len(), 1);
}

/// Answers with the command, or with an error on a reserved name.
fn echo(line: &str) -> String {
    let response = match receive(line) {
        Received::Skip => panic!("an empty line"),
        Received::Refuse(response) => response,
        Received::Request(request) => {
            let caller = CallerContext::Host;
            let response = if request.command == "boom" {
                ResponseFrame::error(&request.id, ErrorCode::HandlerError, "exploded")
            } else {
                ResponseFrame::ok(
                    &request.id,
                    Json::Object(vec![
                        ("command".to_owned(), text(&request.command)),
                        ("from_agent".to_owned(), Json::Bool(caller.is_agent())),
                    ]),
                )
            };
            correlate(&request.id, response)
        }
    };
    response_line(&response)
}

#[test]
fn round_trips_a_request_as_the_host_caller() {
    let line = request_line(&RequestFrame::new("r1", "groups-list", Vec::new()));
    let response = read_response(&echo(&line)).expect("request");
    assert_eq!(response.id, "r1");
    assert!(response.ok);
    let data = response.data.expect("data");
    assert_eq!(data.get("command"), Some(&text("groups-list")));
    assert_eq!(data.get("from_agent"), Some(&Json::Bool(false)));
}

#[test]
fn handler_errors_become_error_frames() {
    let line = request_line(&RequestFrame::new("r2", "boom", Vec::new()));
    let response = read_response(&echo(&line)).expect("request");
    assert!(!response.ok);
    assert_eq!(
        report(&response),
        Err(CliError::Failed("handler-error: exploded".to_owned()))
    );
    assert_eq!(response.error.expect("error").code, ErrorCode::HandlerError);
}

#[test]
fn malformed_input_yields_a_transport_error() {
    let response = read_response(&echo("not json\n")).expect("parse");
    assert_eq!(
        response.error.expect("error").code,
        ErrorCode::TransportError
    );
    assert!(matches!(receive("  \n"), Received::Skip));
}

#[test]
fn requests_read_back_from_their_line() {
    let request = RequestFrame::new(
        "r\"3\n",
        "groups-update",
        vec![
            ("flag".to_owned(), Json::Bool(true)),
            ("id".to_owned(), text("ag-1")),
        ],
    );
    let Received::Request(back) = requests_survive_the_wire(&request) else {
        panic!("must be understood");
    };
    assert_eq!(back, request);
}
