use claw::db::approvals::{args_text, parse_args, stored_args_read_back};
use claw::db::migrations::{migrations, pending};
use claw::db::questions::{options_text, parse_options, stored_options_read_back};
use claw::db::web_messages::{
    approval_row, chat_row, chronological, error_row, question_row, Direction, MessageRowKind,
    NewWebMessage, WebMessage,
};
use claw::db::{generate_id, id_from};
use claw::json::Json;
use claw::protocol::ids::MessagingGroupId;
use rusqlite::Connection;

/// Applies what is missing and records it.
fn run(conn: &Connection) {
    conn.execute(
        "CREATE TABLE IF NOT EXISTS schema_version (version INTEGER PRIMARY KEY,
         name TEXT NOT NULL, applied_at TEXT NOT NULL)",
        [],
    )
    .expect("schema_version");
    let applied: Vec<u32> = conn
        .prepare("SELECT version FROM schema_version")
        .expect("prepare")
        .query_map([], |row| row.get(0))
        .expect("query")
        .collect::<Result<_, _>>()
        .expect("collect");
    for migration in pending(&applied) {
        conn.execute_batch(migration.sql).expect("apply");
        conn.execute(
            "INSERT INTO schema_version VALUES (?1, ?2, 'now')",
            (migration.version, migration.name),
        )
        .expect("record");
    }
}

#[test]
fn run_is_idempotent_and_records_versions() {
    let conn = Connection::open_in_memory().expect("open");
    run(&conn);
    run(&conn);
    let applied: Vec<(u32, String)> = conn
        .prepare("SELECT version, name FROM schema_version ORDER BY version")
        .expect("prepare")
        .query_map([], |row| Ok((row.get(0)?, row.get(1)?)))
        .expect("query")
        .collect::<Result<_, _>>()
        .expect("collect");
    assert_eq!(
        applied,
        vec![
            (1, "001-initial".to_owned()),
            (2, "002-web-messages".to_owned()),
            (3, "003-tool-profile".to_owned()),
            (4, "004-question-cards".to_owned()),
            (5, "005-pending-approvals".to_owned()),
            (6, "006-archive-chats".to_owned()),
            (7, "007-connectors".to_owned()),
            (8, "008-channel-cursors".to_owned()),
        ]
    );
}

fn column_exists(conn: &Connection, table: &str, column: &str) -> bool {
    conn.query_row(
        "SELECT count(*) FROM pragma_table_info(?1) WHERE name = ?2",
        (table, column),
        |row| row.get::<_, i64>(0),
    )
    .expect("pragma")
        > 0
}

fn table_exists(conn: &Connection, table: &str) -> bool {
    conn.query_row(
        "SELECT count(*) FROM sqlite_master WHERE type = 'table' AND name = ?1",
        [table],
        |row| row.get::<_, i64>(0),
    )
    .expect("sqlite_master")
        > 0
}

#[test]
fn run_upgrades_a_partially_migrated_database() {
    // An old volume: only the first three migrations applied.
    let conn = Connection::open_in_memory().expect("open");
    conn.execute(
        "CREATE TABLE schema_version (version INTEGER PRIMARY KEY, name TEXT NOT NULL,
             applied_at TEXT NOT NULL)",
        [],
    )
    .expect("schema_version");
    let all = migrations();
    for migration in &all[..3] {
        conn.execute_batch(migration.sql)
            .expect("apply old migration");
        conn.execute(
            "INSERT INTO schema_version VALUES (?1, ?2, 'old')",
            (migration.version, migration.name),
        )
        .expect("record");
    }
    assert!(!column_exists(&conn, "web_messages", "kind"), "pre-upgrade");
    assert!(!table_exists(&conn, "pending_approvals"), "pre-upgrade");

    run(&conn);

    let max: u32 = conn
        .query_row("SELECT MAX(version) FROM schema_version", [], |row| {
            row.get(0)
        })
        .expect("max version");
    assert_eq!(max, all.last().expect("migrations").version);
    assert!(column_exists(&conn, "web_messages", "kind"), "004 applied");
    assert!(table_exists(&conn, "pending_approvals"), "005 applied");
}

#[test]
fn versions_are_strictly_increasing_and_unique() {
    let mut seen = std::collections::BTreeSet::new();
    let mut previous = 0;
    for migration in migrations() {
        assert!(
            migration.version > previous,
            "migration {} breaks version ordering",
            migration.name
        );
        assert!(seen.insert(migration.version));
        previous = migration.version;
    }
}

#[test]
fn generated_ids_carry_the_prefix_and_are_unique() {
    let a = generate_id("ag");
    let b = generate_id("ag");
    assert!(a.starts_with("ag-"));
    assert_ne!(a, b);
    assert_eq!(a.len(), 3 + 26);
    assert_eq!(id_from("ag", "01ABC"), "ag-01abc");
}

/// The rows of one chat, as a table keeps them.
struct Chat {
    id: MessagingGroupId,
    rows: Vec<WebMessage>,
}

impl Chat {
    fn new() -> Chat {
        Chat {
            id: MessagingGroupId::new("mg-1"),
            rows: Vec::new(),
        }
    }

    fn append(&mut self, row: NewWebMessage) -> &WebMessage {
        self.rows.push(WebMessage {
            id: self.rows.len() as i64 + 1,
            messaging_group_id: row.messaging_group_id,
            direction: row.direction,
            sender: row.sender,
            body: row.body,
            message_out_id: row.message_out_id,
            created_at: "2026-06-12T00:00:00.000Z".to_owned(),
            kind: row.kind,
            question_id: row.question_id,
            options: row
                .options_json
                .map(|stored| parse_options(&stored).expect("options"))
                .unwrap_or_default(),
            answer: None,
        });
        self.rows.last().expect("row")
    }

    fn list(&self, limit: usize) -> Vec<WebMessage> {
        chronological(self.rows.iter().rev().take(limit).cloned().collect())
    }
}

#[test]
fn append_and_list_keep_chronological_order_with_limit() {
    let mut chat = Chat::new();
    for (direction, sender, body) in [
        (Direction::In, "you", "first"),
        (Direction::Out, "andy", "second"),
        (Direction::In, "you", "third"),
    ] {
        let row = chat_row(&chat.id, direction, sender, body, None);
        chat.append(row);
    }
    let all = chat.list(10);
    assert_eq!(
        all.iter().map(|m| m.body.as_str()).collect::<Vec<_>>(),
        vec!["first", "second", "third"]
    );
    let last_two = chat.list(2);
    assert_eq!(
        last_two.iter().map(|m| m.body.as_str()).collect::<Vec<_>>(),
        vec!["second", "third"]
    );
}

#[test]
fn error_card_round_trips_in_the_web_transcript() {
    let mut chat = Chat::new();
    let row =
        error_row(&chat.id, None, "no endpoint configured").expect("first error inserted");
    let card = chat.append(row).clone();
    assert_eq!(card.kind, MessageRowKind::Error);
    assert_eq!(card.sender, "system");
    assert_eq!(card.body, "no endpoint configured");

    // A consecutive identical error collapses (no duplicate card).
    assert!(error_row(&chat.id, Some(&card), "no endpoint configured").is_none());
    // A different error still appends.
    let other = error_row(&chat.id, Some(&card), "something else");
    chat.append(other.expect("appended"));

    let listed = chat.list(10);
    assert_eq!(listed.len(), 2);
    assert!(listed.iter().all(|m| m.kind == MessageRowKind::Error));
}

#[test]
fn question_card_round_trips_and_resolves_once() {
    let mut chat = Chat::new();
    let options = vec!["ship".to_owned(), "wait".to_owned()];
    let row = question_row(&chat.id, "andy", "Deploy now?", "q-1", &options);
    let card = chat.append(row);
    assert_eq!(card.kind, MessageRowKind::Question);
    assert_eq!(card.question_id.as_deref(), Some("q-1"));
    assert_eq!(card.options, options);
    assert_eq!(card.answer, None);

    let listed = chat.list(10);
    assert_eq!(listed.len(), 1);
    assert_eq!(listed[0].kind, MessageRowKind::Question);
}

#[test]
fn approval_cards_carry_the_approval() {
    let chat = MessagingGroupId::new("mg-1");
    let row = approval_row(&chat, "andy", "delete endpoint openrouter", "ap-1");
    assert_eq!(row.kind, MessageRowKind::Approval);
    assert_eq!(row.body, "delete endpoint openrouter");
    assert_eq!(row.question_id.as_deref(), Some("ap-1"));
}

#[test]
fn insert_then_take_consumes_the_question() {
    let options = vec!["yes".to_owned(), "no".to_owned()];
    assert_eq!(options_text(&options), r#"["yes","no"]"#);
    assert_eq!(parse_options(&options_text(&options)), Ok(options));
    let odd = vec!["\"".to_owned(), String::new(), "é\n".to_owned()];
    assert_eq!(stored_options_read_back(&odd), Ok(odd));
    assert!(parse_options("{}").is_err());
    assert!(parse_options("[1]").is_err());
}

#[test]
fn insert_then_take_consumes_the_approval() {
    let args = vec![("name".to_owned(), Json::Text("openrouter".to_owned()))];
    assert_eq!(args_text(&args), r#"{"name":"openrouter"}"#);
    assert_eq!(parse_args(&args_text(&args)).as_ref(), Ok(&args));
    assert_eq!(stored_args_read_back(&args).as_ref(), Ok(&args));
    assert!(parse_args("[]").is_err());
}

#[test]
fn row_words_read_back() {
    for kind in MessageRowKind::all() {
        assert_eq!(kind.as_str().parse::<MessageRowKind>().ok(), Some(kind));
    }
    for direction in Direction::all() {
        assert_eq!(direction.as_str().parse::<Direction>().ok(), Some(direction));
    }
}
