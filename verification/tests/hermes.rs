//! The Hermes provider.

use casr::hermes::content::{
    decode_content, decode_tool_calls, encode_content, encode_tool_calls, hermes_role_str,
    message_blocks, tool_calls_from_value, tool_calls_value, CONTENT_JSON_PREFIX,
};
use casr::hermes::read::{
    message_from_row, HermesReadError, MessageRow, SessionRow, StoredSession,
};
use casr::hermes::statements::{
    session_query, BEGIN_SQL, COMMIT_SQL, COUNT_MESSAGE_SQL, HAS_SESSIONS_SQL, HAS_SESSION_SQL,
    INSERT_MESSAGE_SQL, INSERT_SESSION_SQL, LATEST_SESSION_SQL, MESSAGES_SQL, ROLLBACK_SQL,
    SCHEMA_SQL, SESSION_IDS_SQL, SESSION_SQL,
};
use casr::hermes::write::{
    message_row, plan_write, AfterWrite, HermesWriteError, Stamp, TxState, WriteStep,
    MAX_WRITE_RETRIES,
};
use casr::hermes::{DbPath, DbProbe, Hermes, HermesEnv, Listing, PathProbe};
use casr::json::Json;
use casr::model::{
    normalize_role, CanonicalMessage, CanonicalSession, MessageRole, ToolCall, ToolResult,
    WrittenSession,
};
use casr::place::{Base, Place, Sighting};
use rusqlite::Connection;

// ---------------------------------------------------------------------------
// Samples
// ---------------------------------------------------------------------------

fn sample_message(role: MessageRole, content: &str) -> CanonicalMessage {
    CanonicalMessage {
        idx: 0,
        role,
        content: content.to_string(),
        timestamp: Some(1_700_000_000_000),
        author: None,
        tool_calls: Vec::new(),
        tool_results: Vec::new(),
        extra: Json::Null,
    }
}

fn sample_session(messages: Vec<CanonicalMessage>) -> CanonicalSession {
    CanonicalSession {
        session_id: "src-001".to_string(),
        provider_slug: "cursor".to_string(),
        workspace: Some("/data/projects/myapp".to_string()),
        title: Some("Test".to_string()),
        started_at: Some(1_700_000_000_000),
        ended_at: Some(1_700_000_001_000),
        messages,
        metadata: Json::Object(Vec::new()),
        source_path: "/tmp/src.jsonl".to_string(),
        model_name: Some("sonnet-4-5".to_string()),
    }
}

fn text(s: &str) -> Json {
    Json::Text(s.to_string())
}

fn object(fields: Vec<(&str, Json)>) -> Json {
    Json::Object(fields.into_iter().map(|(k, v)| (k.to_string(), v)).collect())
}

fn virtual_place(id: &str) -> Place {
    Place { base: Base::StateDb, parts: vec![id.to_string()] }
}

// ---------------------------------------------------------------------------
// A database in memory
// ---------------------------------------------------------------------------

fn seconds(stamp: Stamp) -> f64 {
    match stamp {
        Stamp::Millis(ms) => ms as f64 / 1000.0,
        Stamp::Seconds(s) => s as f64,
    }
}

fn millis(seconds: f64) -> i64 {
    (seconds * 1000.0) as i64
}

fn new_db() -> Connection {
    let conn = Connection::open_in_memory().unwrap();
    conn.execute_batch(SCHEMA_SQL).unwrap();
    conn
}

fn run_step(conn: &Connection, step: &WriteStep) {
    match step {
        WriteStep::InsertSession(row) => conn.execute(
            INSERT_SESSION_SQL,
            (&row.id, &row.source, &row.model, seconds(row.started_at), &row.cwd, &row.title),
        ),
        WriteStep::InsertMessage(row) => conn.execute(
            INSERT_MESSAGE_SQL,
            (
                &row.session_id,
                &row.role,
                &row.content,
                &row.tool_call_id,
                &row.tool_calls,
                &row.tool_name,
                seconds(row.timestamp),
            ),
        ),
        WriteStep::CountMessage { session_id, tool_calls } => {
            conn.execute(COUNT_MESSAGE_SQL, (*tool_calls as i64, session_id))
        }
    }
    .unwrap();
}

fn write(conn: &Connection, session: &CanonicalSession) -> WrittenSession {
    let job = Hermes.write_to_db(session);
    for step in &job.steps {
        run_step(conn, step);
    }
    Hermes.written(&job.session_id)
}

fn session_row_of(row: &rusqlite::Row<'_>) -> rusqlite::Result<SessionRow> {
    let started: Option<f64> = row.get("started_at")?;
    let ended: Option<f64> = row.get("ended_at")?;
    Ok(SessionRow {
        id: row.get("id")?,
        source: row.get("source")?,
        model: row.get("model")?,
        started_at: started.map(millis),
        ended_at: ended.map(millis),
        cwd: row.get("cwd")?,
        title: row.get("title")?,
    })
}

fn stored(conn: &Connection, requested: Option<&str>) -> StoredSession {
    let mut stmt = conn.prepare(session_query(requested.is_some())).unwrap();
    let row = match requested {
        Some(id) => stmt.query_map([id], session_row_of).unwrap().next(),
        None => stmt.query_map([], session_row_of).unwrap().next(),
    };
    let row = match row {
        Some(row) => row.unwrap(),
        None => return StoredSession::Missing,
    };
    let mut stmt = conn.prepare(MESSAGES_SQL).unwrap();
    let messages = stmt
        .query_map([&row.id], |r| {
            let timestamp: f64 = r.get("timestamp")?;
            Ok(MessageRow {
                role: r.get("role")?,
                content: r.get("content")?,
                tool_call_id: r.get("tool_call_id")?,
                tool_calls: r.get("tool_calls")?,
                tool_name: r.get("tool_name")?,
                timestamp: millis(timestamp),
                finish_reason: r.get("finish_reason")?,
                reasoning_content: r.get("reasoning_content")?,
                reasoning_details: r.get("reasoning_details")?,
            })
        })
        .unwrap()
        .map(|r| r.ok())
        .collect();
    StoredSession::Found { row, messages }
}

fn has_session(conn: &Connection, id: &str) -> DbProbe<Option<bool>> {
    let table = conn.prepare(HAS_SESSIONS_SQL).unwrap().exists([]).unwrap();
    if !table {
        return DbProbe::NoTable;
    }
    DbProbe::Answer(conn.prepare(HAS_SESSION_SQL).unwrap().exists([id]).ok())
}

/// Reads the session that a virtual path means.
fn read_virtual(conn: &Connection, place: &Place) -> CanonicalSession {
    let probe = PathProbe {
        is_file: false,
        parent_is_file: Some(true),
        file_name: place.parts.last().cloned(),
    };
    let (db, requested) = Hermes::resolve_db_and_session(&probe);
    assert_eq!(db, DbPath::Parent);
    Hermes.read_session(&stored(conn, requested.as_deref()), "state.db").unwrap()
}

// ---------------------------------------------------------------------------
// Content
// ---------------------------------------------------------------------------

#[test]
fn content_plain_string_round_trips_unchanged() {
    let msg = sample_message(MessageRole::Assistant, "just text");
    let encoded = encode_content(&msg);
    assert!(
        !encoded.starts_with(CONTENT_JSON_PREFIX),
        "plain text must not be JSON-prefixed"
    );
    assert_eq!(encoded, "just text");
    assert_eq!(decode_content(&encoded), "just text");
}

#[test]
fn content_multimodal_round_trips_through_prefix() {
    let mut msg = sample_message(MessageRole::Assistant, "Plan.");
    msg.tool_calls.push(ToolCall {
        id: Some("t1".to_string()),
        name: "Read".to_string(),
        arguments: object(vec![("file_path", text("a.rs"))]),
    });
    let encoded = encode_content(&msg);
    assert!(
        encoded.starts_with(CONTENT_JSON_PREFIX),
        "tool-bearing content must be JSON-prefixed"
    );
    // The text portion survives the flatten.
    assert!(decode_content(&encoded).contains("Plan."));
    assert_eq!(decode_content(&encoded), "Plan.");
}

#[test]
fn content_blocks_are_text_then_calls_then_results() {
    let mut msg = sample_message(MessageRole::Tool, "out");
    msg.tool_calls.push(ToolCall { id: None, name: "Bash".to_string(), arguments: Json::Null });
    msg.tool_results.push(ToolResult {
        call_id: Some("c".to_string()),
        content: "done".to_string(),
        is_error: true,
    });
    assert_eq!(
        message_blocks(&msg),
        Json::Array(vec![
            object(vec![("type", text("text")), ("text", text("out"))]),
            object(vec![
                ("type", text("tool_use")),
                ("id", text("")),
                ("name", text("Bash")),
                ("input", Json::Null),
            ]),
            object(vec![
                ("type", text("tool_result")),
                ("tool_use_id", text("c")),
                ("content", text("done")),
                ("is_error", Json::Bool(true)),
            ]),
        ])
    );
    assert_eq!(
        encode_content(&msg),
        "\u{0}json:[{\"text\":\"out\",\"type\":\"text\"},\
         {\"id\":\"\",\"input\":null,\"name\":\"Bash\",\"type\":\"tool_use\"},\
         {\"content\":\"done\",\"is_error\":true,\"tool_use_id\":\"c\",\"type\":\"tool_result\"}]"
    );
    assert_eq!(decode_content(&encode_content(&msg)), "out");
}

#[test]
fn content_with_payload_and_no_text_decodes_to_nothing() {
    let mut msg = sample_message(MessageRole::Assistant, "");
    msg.tool_calls.push(ToolCall { id: None, name: "Ls".to_string(), arguments: Json::Null });
    assert_eq!(decode_content(&encode_content(&msg)), "");
}

#[test]
fn prefixed_content_that_is_no_json_is_left_as_it_is() {
    let stored = "\u{0}json:not json";
    assert_eq!(decode_content(stored), stored);
    assert_eq!(decode_content(""), "");
    assert_eq!(decode_content("\u{0}json:\"quoted\""), "quoted");
    assert_eq!(
        decode_content("\u{0}json:[{\"text\":\"a\"},{\"type\":\"image\"},\"b\"]"),
        "a\nb"
    );
}

#[test]
fn tool_calls_encode_decode_round_trips() {
    let calls = vec![ToolCall {
        id: Some("call_1".to_string()),
        name: "Bash".to_string(),
        arguments: object(vec![("command", text("ls"))]),
    }];
    let json = encode_tool_calls(&calls).expect("non-empty encodes");
    let back = decode_tool_calls(Some(&json));
    assert_eq!(back.len(), 1);
    assert_eq!(back[0].name, "Bash");
    assert_eq!(back[0].id.as_deref(), Some("call_1"));
    assert_eq!(back, calls);
    assert_eq!(
        json,
        "[{\"function\":{\"arguments\":{\"command\":\"ls\"},\"name\":\"Bash\"},\
         \"id\":\"call_1\",\"type\":\"function\"}]"
    );
}

#[test]
fn tool_calls_without_identifier_come_back_with_the_empty_one() {
    let calls = vec![ToolCall {
        id: None,
        name: "Count".to_string(),
        arguments: object(vec![("n", Json::Unsigned(3))]),
    }];
    let json = encode_tool_calls(&calls).unwrap();
    let back = decode_tool_calls(Some(&json));
    assert_eq!(back[0].id.as_deref(), Some(""));
    assert_eq!(back[0].arguments, calls[0].arguments);
    assert_eq!(tool_calls_from_value(&tool_calls_value(&calls)), back);
}

#[test]
fn tool_calls_that_are_none_are_read_as_none() {
    assert_eq!(encode_tool_calls(&Vec::new()), None);
    assert_eq!(decode_tool_calls(None), vec![]);
    assert_eq!(decode_tool_calls(Some("not json")), vec![]);
    assert_eq!(decode_tool_calls(Some("{\"function\":{}}")), vec![]);
    // An item without a function is passed over; one without a name is unknown.
    let back = decode_tool_calls(Some("[{\"id\":\"x\"},{\"id\":7,\"function\":{\"name\":1}}]"));
    assert_eq!(
        back,
        vec![ToolCall { id: None, name: "unknown".to_string(), arguments: Json::Null }]
    );
}

#[test]
fn roles_are_stored_under_their_names() {
    assert_eq!(hermes_role_str(&MessageRole::User), "user");
    assert_eq!(hermes_role_str(&MessageRole::Assistant), "assistant");
    assert_eq!(hermes_role_str(&MessageRole::Tool), "tool");
    assert_eq!(hermes_role_str(&MessageRole::System), "system");
    assert_eq!(hermes_role_str(&MessageRole::Other("critic".to_string())), "assistant");
    for role in [MessageRole::User, MessageRole::Assistant, MessageRole::Tool, MessageRole::System] {
        assert_eq!(normalize_role(hermes_role_str(&role)), role);
    }
}

// ---------------------------------------------------------------------------
// Write, then read, through a database
// ---------------------------------------------------------------------------

#[test]
fn hermes_write_then_read_round_trips_text_messages() {
    let conn = new_db();
    let original = sample_session(vec![
        sample_message(MessageRole::User, "Fix the login bug in auth.rs"),
        sample_message(
            MessageRole::Assistant,
            "I found the issue. The token validation was using an expired key.",
        ),
        sample_message(MessageRole::User, "Great, can you also add a test for it?"),
        sample_message(
            MessageRole::Assistant,
            "Done. I added a test in tests/auth_test.rs.",
        ),
    ]);

    let written = write(&conn, &original);

    assert_eq!(written.paths, vec![virtual_place(&written.session_id)]);
    assert!(!written.session_id.is_empty());
    assert_eq!(written.resume_command, format!("hermes --resume {}", written.session_id));

    let readback = read_virtual(&conn, &written.paths[0]);

    assert_eq!(readback.provider_slug, "hermes");
    assert_eq!(readback.session_id, written.session_id);
    assert_eq!(readback.messages.len(), original.messages.len());
    for (i, (orig, rb)) in original.messages.iter().zip(readback.messages.iter()).enumerate() {
        assert_eq!(orig.role, rb.role, "msg {i}: role mismatch");
        assert_eq!(orig.content, rb.content, "msg {i}: content mismatch");
        assert_eq!(rb.idx, i);
    }
    // Timestamps survive the way through seconds (whole seconds).
    assert_eq!(
        readback.messages[0].timestamp,
        Some(1_700_000_000_000),
        "timestamp should round-trip to whole-second millis"
    );
    assert_eq!(readback.started_at, Some(1_700_000_000_000));
    assert_eq!(readback.workspace, original.workspace);
    assert_eq!(readback.model_name, original.model_name);
    assert_eq!(readback.title.as_deref(), Some("Fix the login bug in auth.rs"));
    assert_eq!(
        readback.metadata,
        object(vec![("source", text("casr_import")), ("hermes_source", text("casr_import"))])
    );
}

#[test]
fn write_then_read_preserves_tool_messages() {
    let conn = new_db();

    let mut asst = sample_message(MessageRole::Assistant, "Reading file.");
    asst.tool_calls.push(ToolCall {
        id: Some("tc-9".to_string()),
        name: "Read".to_string(),
        arguments: object(vec![("file_path", text("src/main.rs"))]),
    });
    let mut tool_msg = sample_message(MessageRole::Tool, "file contents here");
    tool_msg.tool_results.push(ToolResult {
        call_id: Some("tc-9".to_string()),
        content: "file contents here".to_string(),
        is_error: false,
    });

    let original = sample_session(vec![asst, tool_msg]);
    let written = write(&conn, &original);

    // The path of the database alone means the latest session.
    let probe = PathProbe {
        is_file: true,
        parent_is_file: Some(false),
        file_name: Some("state.db".to_string()),
    };
    assert_eq!(Hermes::resolve_db_and_session(&probe), (DbPath::Given, None));
    let readback = Hermes.read_session(&stored(&conn, None), "state.db").unwrap();

    assert_eq!(readback.messages.len(), 2);
    assert_eq!(readback.messages[0].role, MessageRole::Assistant);
    assert_eq!(readback.messages[0].tool_calls.len(), 1);
    assert_eq!(readback.messages[0].tool_calls[0].name, "Read");
    assert_eq!(readback.messages[1].role, MessageRole::Tool);
    assert_eq!(readback.messages[1].tool_results.len(), 1);
    assert_eq!(readback.messages[1].tool_results[0].call_id.as_deref(), Some("tc-9"));
    assert_eq!(readback.messages[0].content, "Reading file.");
    assert_eq!(readback.messages[1].content, "file contents here");

    let counts: (i64, i64) = conn
        .query_row(
            "SELECT message_count, tool_call_count FROM sessions WHERE id = ?1",
            [&written.session_id],
            |r| Ok((r.get(0)?, r.get(1)?)),
        )
        .unwrap();
    assert_eq!(counts, (2, 1));
}

#[test]
fn virtual_path_resolves_requested_session_not_most_recent() {
    let conn = new_db();

    // Session A is written first, session B second.
    let session_a = sample_session(vec![
        sample_message(MessageRole::User, "Session A: hello from A"),
        sample_message(MessageRole::Assistant, "Session A: reply from A"),
    ]);
    let written_a = write(&conn, &session_a);

    let mut session_b = sample_session(vec![
        sample_message(MessageRole::User, "Session B: completely different content"),
        sample_message(MessageRole::Assistant, "Session B: unique assistant reply"),
    ]);
    session_b.session_id = "src-002".to_string();
    let written_b = write(&conn, &session_b);

    let path_a = Hermes::owns_session_in_db(
        &has_session(&conn, &written_a.session_id),
        &written_a.session_id,
    )
    .expect("should find session A");
    let path_b = Hermes::owns_session_in_db(
        &has_session(&conn, &written_b.session_id),
        &written_b.session_id,
    )
    .expect("should find session B");

    assert_ne!(path_a, path_b, "virtual paths must differ");

    let readback_a = read_virtual(&conn, &path_a);
    assert_eq!(
        readback_a.session_id, written_a.session_id,
        "must resolve session A, not the most-recent session B"
    );
    assert!(
        readback_a.messages[0].content.contains("Session A"),
        "content should be from session A, got: {}",
        readback_a.messages[0].content
    );

    let readback_b = read_virtual(&conn, &path_b);
    assert_eq!(
        readback_b.session_id, written_b.session_id,
        "must resolve session B"
    );
    assert!(
        readback_b.messages[0].content.contains("Session B"),
        "content should be from session B, got: {}",
        readback_b.messages[0].content
    );
}

#[test]
fn inactive_messages_are_not_read() {
    let conn = new_db();
    let session = sample_session(vec![
        sample_message(MessageRole::User, "kept"),
        sample_message(MessageRole::User, "taken back"),
    ]);
    let written = write(&conn, &session);
    conn.execute("UPDATE messages SET active = 0 WHERE content = 'taken back'", []).unwrap();
    let readback = read_virtual(&conn, &written.paths[0]);
    assert_eq!(readback.messages.len(), 1);
    assert_eq!(readback.messages[0].content, "kept");
}

#[test]
fn sessions_are_listed_latest_first() {
    let conn = new_db();
    let mut early = sample_session(Vec::new());
    early.started_at = Some(1_000);
    let mut late = sample_session(Vec::new());
    late.started_at = Some(2_000);
    let early_id = write(&conn, &early).session_id;
    let late_id = write(&conn, &late).session_id;
    let mut stmt = conn.prepare(SESSION_IDS_SQL).unwrap();
    let rows: Vec<Option<String>> =
        stmt.query_map([], |r| r.get(0)).unwrap().map(|r| r.ok()).collect();
    let list = Hermes.list_sessions(Some(DbProbe::Answer(Listing::Rows(rows)))).unwrap();
    assert_eq!(
        list,
        vec![
            (late_id.clone(), virtual_place(&late_id)),
            (early_id.clone(), virtual_place(&early_id)),
        ]
    );
}

// ---------------------------------------------------------------------------
// Writing
// ---------------------------------------------------------------------------

#[test]
fn steps_hold_what_is_stored() {
    let mut asst = sample_message(MessageRole::Other("critic".to_string()), "Hm.");
    asst.timestamp = None;
    let mut session = sample_session(vec![asst]);
    session.started_at = None;
    let steps = plan_write(&session, "id-1", 42);
    assert_eq!(steps.len(), 3);
    match &steps[0] {
        WriteStep::InsertSession(row) => {
            assert_eq!(row.id, "id-1");
            assert_eq!(row.source, "casr_import");
            assert_eq!(row.model.as_deref(), Some("sonnet-4-5"));
            assert_eq!(row.started_at, Stamp::Seconds(42));
            assert_eq!(row.cwd.as_deref(), Some("/data/projects/myapp"));
            assert_eq!(row.title.as_deref(), Some("Test"));
        }
        other => panic!("unexpected step {other:?}"),
    }
    match &steps[1] {
        WriteStep::InsertMessage(row) => {
            assert_eq!(row.session_id, "id-1");
            assert_eq!(row.role, "assistant");
            assert_eq!(row.content, "Hm.");
            assert_eq!(row.tool_call_id, None);
            assert_eq!(row.tool_calls, None);
            assert_eq!(row.tool_name, None);
            assert_eq!(row.timestamp, Stamp::Seconds(42));
        }
        other => panic!("unexpected step {other:?}"),
    }
    assert_eq!(
        steps[2],
        WriteStep::CountMessage { session_id: "id-1".to_string(), tool_calls: 0 }
    );
}

#[test]
fn message_row_names_the_first_tool_and_the_first_answer() {
    let mut msg = sample_message(MessageRole::Tool, "x");
    for name in ["First", "Second"] {
        msg.tool_calls.push(ToolCall { id: None, name: name.to_string(), arguments: Json::Null });
        msg.tool_results.push(ToolResult {
            call_id: Some(format!("call {name}")),
            content: String::new(),
            is_error: false,
        });
    }
    let row = message_row(&msg, "s", 0);
    assert_eq!(row.tool_name.as_deref(), Some("First"));
    assert_eq!(row.tool_call_id.as_deref(), Some("call First"));
    assert_eq!(row.timestamp, Stamp::Millis(1_700_000_000_000));
}

#[test]
fn new_identifiers_are_random_uuids() {
    let session = sample_session(Vec::new());
    let one = Hermes.write_to_db(&session);
    let two = Hermes.write_to_db(&session);
    assert_ne!(one.session_id, two.session_id);
    assert_eq!(one.session_id.len(), 36);
    let parsed = uuid::Uuid::parse_str(&one.session_id).unwrap();
    assert_eq!(parsed.get_version_num(), 4);
    assert_eq!(parsed.to_string(), one.session_id);
    assert!(one.now_secs > 1_600_000_000);
}

#[test]
fn writing_needs_to_know_the_database() {
    let session = sample_session(Vec::new());
    assert_eq!(Hermes.write_session(&None, &session), Err(HermesWriteError::NoStateDb));
    let db = Some(Place { base: Base::UserHome, parts: Vec::new() });
    let job = Hermes.write_session(&db, &session).unwrap();
    assert_eq!(job.steps.len(), 1);
}

#[test]
fn transaction_runs_its_steps_and_commits() {
    let mut state = TxState::Begin;
    let mut seen = Vec::new();
    while state != TxState::Done && state != TxState::Failed {
        seen.push(state);
        state = Hermes::run_write_tx(state, true, 2);
    }
    assert_eq!(state, TxState::Done);
    assert_eq!(
        seen,
        vec![TxState::Begin, TxState::Step(0), TxState::Step(1), TxState::Commit]
    );
}

#[test]
fn transaction_is_rolled_back_when_a_step_or_the_commit_fails() {
    assert_eq!(Hermes::run_write_tx(TxState::Begin, false, 3), TxState::Failed);
    assert_eq!(Hermes::run_write_tx(TxState::Begin, true, 0), TxState::Commit);
    assert_eq!(Hermes::run_write_tx(TxState::Step(1), false, 3), TxState::Rollback);
    assert_eq!(Hermes::run_write_tx(TxState::Rollback, true, 3), TxState::Failed);
    assert_eq!(Hermes::run_write_tx(TxState::Rollback, false, 3), TxState::Failed);
    assert_eq!(Hermes::run_write_tx(TxState::Commit, false, 3), TxState::Rollback);
    assert_eq!(Hermes::run_write_tx(TxState::Done, false, 3), TxState::Done);
    assert_eq!(Hermes::run_write_tx(TxState::Failed, true, 3), TxState::Failed);
}

#[test]
fn locked_database_is_tried_again_a_few_times() {
    assert_eq!(Hermes::after_write_attempt(0, None), AfterWrite::Written);
    for attempt in 0..MAX_WRITE_RETRIES - 1 {
        assert_eq!(
            Hermes::after_write_attempt(attempt, Some("Database is LOCKED")),
            AfterWrite::RetryAfter(25)
        );
        assert_eq!(
            Hermes::after_write_attempt(attempt, Some("busy")),
            AfterWrite::RetryAfter(25)
        );
    }
    assert_eq!(
        Hermes::after_write_attempt(MAX_WRITE_RETRIES - 1, Some("database is locked")),
        AfterWrite::GiveUp
    );
    assert_eq!(Hermes::after_write_attempt(0, Some("disk full")), AfterWrite::GiveUp);
}

// ---------------------------------------------------------------------------
// Reading
// ---------------------------------------------------------------------------

fn bare_row(role: &str, content: Option<&str>) -> MessageRow {
    MessageRow {
        role: role.to_string(),
        content: content.map(String::from),
        tool_call_id: None,
        tool_calls: None,
        tool_name: None,
        timestamp: 5,
        finish_reason: None,
        reasoning_content: None,
        reasoning_details: None,
    }
}

fn bare_session_row() -> SessionRow {
    SessionRow {
        id: "s".to_string(),
        source: None,
        model: None,
        started_at: None,
        ended_at: Some(7),
        cwd: None,
        title: Some("stored".to_string()),
    }
}

#[test]
fn rows_keep_their_columns_as_extra() {
    let mut row = bare_row("assistant", Some("hi"));
    row.finish_reason = Some("stop".to_string());
    row.reasoning_content = Some("rc".to_string());
    row.reasoning_details = Some("rd".to_string());
    row.tool_name = Some("Bash".to_string());
    row.tool_call_id = Some("c1".to_string());
    let message = message_from_row(&row, &Some("m".to_string()));
    assert_eq!(
        message.extra,
        object(vec![
            ("finish_reason", text("stop")),
            ("reasoning_content", text("rc")),
            ("reasoning_details", text("rd")),
            ("tool_name", text("Bash")),
            ("tool_call_id", text("c1")),
        ])
    );
    assert_eq!(message.author.as_deref(), Some("m"));
    assert_eq!(message.timestamp, Some(5));
    assert!(message.tool_results.is_empty());
    let empty = message_from_row(&bare_row("tool", None), &None);
    assert_eq!(empty.content, "");
    assert_eq!(
        empty.tool_results,
        vec![ToolResult { call_id: None, content: String::new(), is_error: false }]
    );
}

#[test]
fn stored_title_stands_in_where_the_user_said_nothing() {
    let found = StoredSession::Found {
        row: bare_session_row(),
        messages: vec![Some(bare_row("assistant", Some("hello")))],
    };
    let session = Hermes.read_session(&found, "/x/state.db").unwrap();
    assert_eq!(session.title.as_deref(), Some("stored"));
    assert_eq!(session.metadata, object(vec![("source", text("hermes"))]));
    assert_eq!(session.source_path, "/x/state.db");
    assert_eq!(session.ended_at, Some(7));

    let mut untitled = bare_session_row();
    untitled.title = Some(String::new());
    let found = StoredSession::Found { row: untitled, messages: Vec::new() };
    assert_eq!(Hermes.read_session(&found, "x").unwrap().title, None);

    let long = "x".repeat(150);
    let found = StoredSession::Found {
        row: bare_session_row(),
        messages: vec![Some(bare_row("user", Some(&long)))],
    };
    assert_eq!(Hermes.read_session(&found, "x").unwrap().title, Some("x".repeat(100)));
}

#[test]
fn sessions_that_cannot_be_read_are_errors() {
    let cases = vec![
        (StoredSession::Unopened, HermesReadError::CannotOpen),
        (StoredSession::NoTable, HermesReadError::NotHermes),
        (StoredSession::Unqueried, HermesReadError::QueryFailed),
        (StoredSession::Missing, HermesReadError::NoSession),
        (StoredSession::NoMessages, HermesReadError::MessagesFailed),
        (
            StoredSession::Found {
                row: bare_session_row(),
                messages: vec![Some(bare_row("user", Some("a"))), None],
            },
            HermesReadError::MessagesFailed,
        ),
    ];
    for (stored, error) in cases {
        assert_eq!(Hermes.read_session(&stored, "x"), Err(error));
    }
}

// ---------------------------------------------------------------------------
// Places
// ---------------------------------------------------------------------------

fn env(
    hermes_home: Option<&str>,
    has_cache_dir: bool,
    local_app_data: Option<&str>,
    has_user_home: bool,
) -> HermesEnv {
    HermesEnv {
        hermes_home: hermes_home.map(String::from),
        has_cache_dir,
        local_app_data: local_app_data.map(String::from),
        has_user_home,
    }
}

fn place(base: Base, parts: &[&str]) -> Place {
    Place { base, parts: parts.iter().map(|p| p.to_string()).collect() }
}

#[test]
fn home_is_looked_for_in_order() {
    assert_eq!(
        Hermes::home_dir(&env(Some("/h"), true, Some("/l"), true)),
        Some(place(Base::Named("/h".to_string()), &[]))
    );
    assert_eq!(
        Hermes::home_dir(&env(None, true, Some("/l"), true)),
        Some(place(Base::CacheDir, &["hermes"]))
    );
    assert_eq!(
        Hermes::home_dir(&env(None, false, Some("/l"), true)),
        Some(place(Base::Named("/l".to_string()), &["hermes"]))
    );
    assert_eq!(
        Hermes::home_dir(&env(None, false, None, true)),
        Some(place(Base::UserHome, &[".hermes"]))
    );
    assert_eq!(Hermes::home_dir(&env(None, false, None, false)), None);
}

#[test]
fn database_is_that_of_the_active_profile() {
    let e = env(Some("/h"), false, None, false);
    let base = || Base::Named("/h".to_string());
    assert_eq!(Hermes::state_db(&e, None), Some(place(base(), &["state.db"])));
    assert_eq!(Hermes::state_db(&e, Some(" \n")), Some(place(base(), &["state.db"])));
    assert_eq!(
        Hermes::state_db(&e, Some(" work\n")),
        Some(place(base(), &["profiles", "work", "state.db"]))
    );
    assert_eq!(Hermes::active_profile_file(&e), Some(place(base(), &["active_profile"])));
    assert_eq!(Hermes::state_db(&env(None, false, None, false), Some("work")), None);
}

#[test]
fn path_below_no_file_is_taken_for_a_database() {
    let probe = |is_file, parent_is_file, name: Option<&str>| PathProbe {
        is_file,
        parent_is_file,
        file_name: name.map(String::from),
    };
    let resolve = |p: PathProbe| Hermes::resolve_db_and_session(&p);
    assert_eq!(resolve(probe(false, Some(false), Some("x"))), (DbPath::Given, None));
    assert_eq!(resolve(probe(false, None, None)), (DbPath::Given, None));
    assert_eq!(resolve(probe(false, Some(true), None)), (DbPath::Parent, None));
    assert_eq!(
        resolve(probe(false, Some(true), Some("id"))),
        (DbPath::Parent, Some("id".to_string()))
    );
    assert_eq!(session_query(true), SESSION_SQL);
    assert_eq!(session_query(false), LATEST_SESSION_SQL);
}

#[test]
fn sessions_of_a_silent_database_are_not_found() {
    for probe in [
        DbProbe::NotAFile,
        DbProbe::Unopened,
        DbProbe::NoTable,
        DbProbe::Answer(None),
        DbProbe::Answer(Some(false)),
    ] {
        assert_eq!(Hermes::owns_session_in_db(&probe, "id"), None);
        assert_eq!(Hermes.owns_session(&Some(probe), "id"), None);
    }
    assert_eq!(Hermes.owns_session(&None, "id"), None);
    assert_eq!(
        Hermes.owns_session(&Some(DbProbe::Answer(Some(true))), "id"),
        Some(virtual_place("id"))
    );
    assert_eq!(Hermes.list_sessions(None), None);
    assert_eq!(Hermes.list_sessions(Some(DbProbe::NotAFile)), Some(vec![]));
    assert_eq!(Hermes.list_sessions(Some(DbProbe::Unopened)), Some(vec![]));
    assert_eq!(Hermes.list_sessions(Some(DbProbe::NoTable)), Some(vec![]));
    assert_eq!(Hermes.list_sessions(Some(DbProbe::Answer(Listing::Unprepared))), Some(vec![]));
    assert_eq!(Hermes.list_sessions(Some(DbProbe::Answer(Listing::Unqueried))), None);
    let rows = vec![None, Some("a".to_string()), None];
    assert_eq!(
        Hermes.list_sessions(Some(DbProbe::Answer(Listing::Rows(rows)))),
        Some(vec![("a".to_string(), virtual_place("a"))])
    );
}

#[test]
fn detection_gathers_its_evidence() {
    let seen = |shown: &str, there| Some(Sighting { shown: shown.to_string(), there });
    let found = Hermes.detect(true, &seen("/h/state.db", true), &seen("/h", true));
    assert!(found.installed);
    assert_eq!(found.version, None);
    assert_eq!(
        found.evidence,
        vec!["hermes binary found in PATH", "/h/state.db exists", "/h exists"]
    );
    // The home directory alone does not make an installation.
    let found = Hermes.detect(false, &seen("/h/state.db", false), &seen("/h", true));
    assert!(!found.installed);
    assert_eq!(found.evidence, vec!["/h exists"]);
    assert!(!Hermes.detect(false, &None, &None).installed);
    assert!(Hermes.detect(false, &seen("/h/state.db", true), &None).installed);
}

#[test]
fn roots_are_the_database_if_it_is_there() {
    let db = || Some(place(Base::UserHome, &[".hermes", "state.db"]));
    assert_eq!(
        Hermes.session_roots(db(), true),
        vec![place(Base::UserHome, &[".hermes", "state.db"])]
    );
    assert_eq!(Hermes.session_roots(db(), false), vec![]);
    assert_eq!(Hermes.session_roots(None, true), vec![]);
}

#[test]
fn hermes_goes_by_its_names() {
    assert_eq!(Hermes.name(), "Hermes");
    assert_eq!(Hermes.slug(), "hermes");
    assert_eq!(Hermes.cli_alias(), "hme");
    assert_eq!(Hermes.resume_command("abc"), "hermes --resume abc");
}

#[test]
fn path_of_the_database_means_the_session_started_last() {
    let conn = new_db();
    let mut late = sample_session(vec![sample_message(MessageRole::User, "late")]);
    late.started_at = Some(2_000);
    let mut early = sample_session(vec![sample_message(MessageRole::User, "early")]);
    early.started_at = Some(1_000);
    let late_id = write(&conn, &late).session_id;
    write(&conn, &early);
    let readback = Hermes.read_session(&stored(&conn, None), "state.db").unwrap();
    assert_eq!(readback.session_id, late_id);
    assert_eq!(readback.messages[0].content, "late");
    assert_eq!(readback.started_at, Some(2_000));
    assert_eq!(readback.ended_at, None);
    assert_eq!(readback.source_path, "state.db");
    // A session that is not there is none.
    assert_eq!(
        Hermes.read_session(&stored(&conn, Some("nobody")), "state.db"),
        Err(HermesReadError::NoSession)
    );
}

/// Runs the transaction of the steps, with the statement of the number `broken`,
/// counted from the beginning, failing.
fn run_transaction(conn: &Connection, steps: &[WriteStep], broken: Option<usize>) -> bool {
    let mut state = TxState::Begin;
    let mut count = 0;
    loop {
        let success = if Some(count) == broken {
            conn.execute("NO SUCH STATEMENT", []).is_ok()
        } else {
            match state {
                TxState::Begin => conn.execute(BEGIN_SQL, []).is_ok(),
                TxState::Step(at) => {
                    run_step(conn, &steps[at]);
                    true
                }
                TxState::Commit => conn.execute(COMMIT_SQL, []).is_ok(),
                TxState::Rollback => conn.execute(ROLLBACK_SQL, []).is_ok(),
                TxState::Done => return true,
                TxState::Failed => return false,
            }
        };
        state = Hermes::run_write_tx(state, success, steps.len());
        count += 1;
    }
}

#[test]
fn transaction_that_fails_anywhere_leaves_nothing() {
    let conn = new_db();
    let session = sample_session(vec![
        sample_message(MessageRole::User, "one"),
        sample_message(MessageRole::Assistant, "two"),
    ]);
    let steps = plan_write(&session, "id-1", 0);
    assert_eq!(steps.len(), 5);
    // The beginning, each of the steps, and the commit.
    for broken in 0..7 {
        assert!(!run_transaction(&conn, &steps, Some(broken)), "statement {broken}");
        assert!(conn.is_autocommit(), "statement {broken}");
        assert!(matches!(stored(&conn, None), StoredSession::Missing), "statement {broken}");
    }
    assert!(run_transaction(&conn, &steps, None));
    assert!(conn.is_autocommit());
    let read = Hermes.read_session(&stored(&conn, Some("id-1")), "state.db").unwrap();
    assert_eq!(read.messages.len(), 2);
}

#[test]
fn writing_leaves_the_other_sessions_as_they_were() {
    let conn = new_db();
    let first = sample_session(vec![sample_message(MessageRole::User, "first")]);
    let first_id = write(&conn, &first).session_id;
    let before = Hermes.read_session(&stored(&conn, Some(&first_id)), "state.db").unwrap();
    let second = sample_session(vec![
        sample_message(MessageRole::User, "second"),
        sample_message(MessageRole::Assistant, "third"),
    ]);
    let second_id = write(&conn, &second).session_id;
    let after = Hermes.read_session(&stored(&conn, Some(&first_id)), "state.db").unwrap();
    assert_eq!(before, after);
    let counts: (i64, i64) = conn
        .query_row(
            "SELECT (SELECT count(*) FROM sessions), (SELECT count(*) FROM messages)",
            [],
            |r| Ok((r.get(0)?, r.get(1)?)),
        )
        .unwrap();
    assert_eq!(counts, (2, 3));
    assert_ne!(first_id, second_id);
}

#[test]
fn messages_are_read_in_the_order_of_their_times() {
    let conn = new_db();
    let mut late = sample_message(MessageRole::User, "late");
    late.timestamp = Some(2_000);
    let mut early = sample_message(MessageRole::User, "early");
    early.timestamp = Some(1_000);
    let mut as_early = sample_message(MessageRole::User, "as early");
    as_early.timestamp = Some(1_000);
    let id = write(&conn, &sample_session(vec![late, early, as_early])).session_id;
    let read = Hermes.read_session(&stored(&conn, Some(&id)), "state.db").unwrap();
    let contents: Vec<&str> = read.messages.iter().map(|m| m.content.as_str()).collect();
    assert_eq!(contents, ["early", "as early", "late"]);
}

#[test]
fn written_session_takes_its_place_in_the_list() {
    let conn = new_db();
    let listed = || {
        let mut stmt = conn.prepare(SESSION_IDS_SQL).unwrap();
        let rows: Vec<Option<String>> =
            stmt.query_map([], |r| r.get(0)).unwrap().map(|r| r.ok()).collect();
        let list = Hermes.list_sessions(Some(DbProbe::Answer(Listing::Rows(rows)))).unwrap();
        list.into_iter().map(|(id, _)| id).collect::<Vec<String>>()
    };
    let started = |at: i64| {
        let mut session = sample_session(Vec::new());
        session.started_at = Some(at);
        session
    };
    let first = write(&conn, &started(1_000)).session_id;
    let last = write(&conn, &started(3_000)).session_id;
    assert_eq!(listed(), vec![last.clone(), first.clone()]);
    let between = write(&conn, &started(2_000)).session_id;
    assert_eq!(listed(), vec![last.clone(), between, first]);
    // An earlier session is not the one that is read where none is named.
    let read = Hermes.read_session(&stored(&conn, None), "state.db").unwrap();
    assert_eq!(read.session_id, last);
}
