//! The statements that are put to a Hermes database.
//!
//! The full-text tables of the database are filled by triggers and never
//! written. A message that is not active was taken back, and is not read.

use vstd::prelude::*;

verus! {

/// Creates the tables, where they are not there yet.
pub const SCHEMA_SQL: &'static str =
    "CREATE TABLE IF NOT EXISTS sessions (\
    id TEXT PRIMARY KEY,\
    source TEXT NOT NULL,\
    user_id TEXT,\
    model TEXT,\
    model_config TEXT,\
    system_prompt TEXT,\
    parent_session_id TEXT,\
    started_at REAL NOT NULL,\
    ended_at REAL,\
    end_reason TEXT,\
    message_count INTEGER DEFAULT 0,\
    tool_call_count INTEGER DEFAULT 0,\
    input_tokens INTEGER DEFAULT 0,\
    output_tokens INTEGER DEFAULT 0,\
    cache_read_tokens INTEGER DEFAULT 0,\
    cache_write_tokens INTEGER DEFAULT 0,\
    reasoning_tokens INTEGER DEFAULT 0,\
    cwd TEXT,\
    title TEXT,\
    archived INTEGER NOT NULL DEFAULT 0,\
    FOREIGN KEY (parent_session_id) REFERENCES sessions(id)\
);\
CREATE TABLE IF NOT EXISTS messages (\
    id INTEGER PRIMARY KEY AUTOINCREMENT,\
    session_id TEXT NOT NULL REFERENCES sessions(id),\
    role TEXT NOT NULL,\
    content TEXT,\
    tool_call_id TEXT,\
    tool_calls TEXT,\
    tool_name TEXT,\
    timestamp REAL NOT NULL,\
    token_count INTEGER,\
    finish_reason TEXT,\
    reasoning TEXT,\
    reasoning_content TEXT,\
    reasoning_details TEXT,\
    platform_message_id TEXT,\
    observed INTEGER DEFAULT 0,\
    active INTEGER NOT NULL DEFAULT 1\
);\
CREATE INDEX IF NOT EXISTS idx_messages_session ON messages(session_id, timestamp);\
";

/// Asks whether there is a table of sessions.
pub const HAS_SESSIONS_SQL: &'static str =
    "SELECT 1 FROM sqlite_master WHERE type='table' AND name='sessions'";

/// Asks whether there is a session with this identifier.
pub const HAS_SESSION_SQL: &'static str = "SELECT 1 FROM sessions WHERE id = ?1";

/// Asks for the identifiers of all sessions, the latest first.
pub const SESSION_IDS_SQL: &'static str = "SELECT id FROM sessions ORDER BY started_at DESC";

/// Asks for the row of the session with this identifier.
pub const SESSION_SQL: &'static str =
    "SELECT id, source, model, started_at, ended_at, cwd, title \
    FROM sessions WHERE id = ?1";

/// Asks for the row of the session that was started last.
pub const LATEST_SESSION_SQL: &'static str =
    "SELECT id, source, model, started_at, ended_at, cwd, title \
    FROM sessions ORDER BY started_at DESC LIMIT 1";

/// Asks for the active messages of a session, in the order of their times.
pub const MESSAGES_SQL: &'static str =
    "SELECT id, role, content, tool_call_id, tool_calls, tool_name, timestamp, \
    finish_reason, reasoning_content, reasoning_details \
    FROM messages WHERE session_id = ?1 AND active = 1 \
    ORDER BY timestamp, id";

/// Begins the transaction that writes a session.
pub const BEGIN_SQL: &'static str = "BEGIN IMMEDIATE";

/// Commits the transaction.
pub const COMMIT_SQL: &'static str = "COMMIT";

/// Rolls the transaction back.
pub const ROLLBACK_SQL: &'static str = "ROLLBACK";

/// Inserts the row of a session, unless there is one.
pub const INSERT_SESSION_SQL: &'static str =
    "INSERT OR IGNORE INTO sessions \
    (id, source, model, started_at, cwd, title) \
    VALUES (?1, ?2, ?3, ?4, ?5, ?6)";

/// Inserts the row of a message.
pub const INSERT_MESSAGE_SQL: &'static str =
    "INSERT INTO messages \
    (session_id, role, content, tool_call_id, tool_calls, tool_name, timestamp) \
    VALUES (?1, ?2, ?3, ?4, ?5, ?6, ?7)";

/// Adds a message and its tool calls to the counts of a session.
pub const COUNT_MESSAGE_SQL: &'static str =
    "UPDATE sessions SET message_count = message_count + 1, \
    tool_call_count = tool_call_count + ?1 WHERE id = ?2";

/// Which session is asked for: the one that was named, or the latest.
pub fn session_query(named: bool) -> (sql: &'static str)
    ensures
        sql@ == (if named {
            SESSION_SQL@
        } else {
            LATEST_SESSION_SQL@
        }),
{
    if named {
        SESSION_SQL
    } else {
        LATEST_SESSION_SQL
    }
}

/// The question for a session asks for the same columns whichever session is
/// meant; the sessions are listed without a limit, and so are the active messages
/// of a session.
pub proof fn law_questions_ask_for_all()
    ensures
        SESSION_SQL@ == "SELECT id, source, model, started_at, ended_at, cwd, title "@
            + "FROM sessions WHERE id = ?1"@,
        LATEST_SESSION_SQL@ == "SELECT id, source, model, started_at, ended_at, cwd, title "@
            + "FROM sessions ORDER BY started_at DESC LIMIT 1"@,
        SESSION_IDS_SQL@ == "SELECT id FROM sessions"@ + " ORDER BY started_at DESC"@,
        HAS_SESSION_SQL@ == "SELECT 1 FROM sessions"@ + " WHERE id = ?1"@,
        MESSAGES_SQL@ == "SELECT id, role, content, tool_call_id, tool_calls, tool_name, timestamp, "@
            + "finish_reason, reasoning_content, reasoning_details "@
            + "FROM messages WHERE session_id = ?1 AND active = 1 "@ + "ORDER BY timestamp, id"@,
{
    reveal_strlit("SELECT id, source, model, started_at, ended_at, cwd, title ");
    reveal_strlit("FROM sessions WHERE id = ?1");
    reveal_strlit("FROM sessions ORDER BY started_at DESC LIMIT 1");
    reveal_strlit("SELECT id FROM sessions");
    reveal_strlit(" ORDER BY started_at DESC");
    reveal_strlit("SELECT 1 FROM sessions");
    reveal_strlit(" WHERE id = ?1");
    reveal_strlit("SELECT id, role, content, tool_call_id, tool_calls, tool_name, timestamp, ");
    reveal_strlit("finish_reason, reasoning_content, reasoning_details ");
    reveal_strlit("FROM messages WHERE session_id = ?1 AND active = 1 ");
    reveal_strlit("ORDER BY timestamp, id");
    reveal_strlit(
        "SELECT id, source, model, started_at, ended_at, cwd, title FROM sessions WHERE id = ?1",
    );
    reveal_strlit(
        "SELECT id, source, model, started_at, ended_at, cwd, title FROM sessions ORDER BY started_at DESC LIMIT 1",
    );
    reveal_strlit("SELECT id FROM sessions ORDER BY started_at DESC");
    reveal_strlit("SELECT 1 FROM sessions WHERE id = ?1");
    reveal_strlit(
        "SELECT id, role, content, tool_call_id, tool_calls, tool_name, timestamp, finish_reason, reasoning_content, reasoning_details FROM messages WHERE session_id = ?1 AND active = 1 ORDER BY timestamp, id",
    );
    assert(SESSION_SQL@ =~= "SELECT id, source, model, started_at, ended_at, cwd, title "@
        + "FROM sessions WHERE id = ?1"@);
    assert(LATEST_SESSION_SQL@ =~= "SELECT id, source, model, started_at, ended_at, cwd, title "@
        + "FROM sessions ORDER BY started_at DESC LIMIT 1"@);
    assert(SESSION_IDS_SQL@ =~= "SELECT id FROM sessions"@ + " ORDER BY started_at DESC"@);
    assert(HAS_SESSION_SQL@ =~= "SELECT 1 FROM sessions"@ + " WHERE id = ?1"@);
    assert(MESSAGES_SQL@ =~= "SELECT id, role, content, tool_call_id, tool_calls, tool_name, timestamp, "@
        + "finish_reason, reasoning_content, reasoning_details "@
        + "FROM messages WHERE session_id = ?1 AND active = 1 "@ + "ORDER BY timestamp, id"@);
}

/// A transaction takes the database for writing at once; a session that is there
/// is left as it is, a message is always added, and only the counts of its own
/// session are changed.
pub proof fn law_statements_change_no_other_session()
    ensures
        BEGIN_SQL@ == "BEGIN IMMEDIATE"@,
        COMMIT_SQL@ == "COMMIT"@,
        ROLLBACK_SQL@ == "ROLLBACK"@,
        INSERT_SESSION_SQL@
            == "INSERT OR IGNORE INTO sessions (id, source, model, started_at, cwd, title) VALUES (?1, ?2, ?3, ?4, ?5, ?6)"@,
        INSERT_MESSAGE_SQL@
            == "INSERT INTO messages (session_id, role, content, tool_call_id, tool_calls, tool_name, timestamp) VALUES (?1, ?2, ?3, ?4, ?5, ?6, ?7)"@,
        COUNT_MESSAGE_SQL@
            == "UPDATE sessions SET message_count = message_count + 1, tool_call_count = tool_call_count + ?1 WHERE id = ?2"@,
        HAS_SESSIONS_SQL@
            == "SELECT 1 FROM sqlite_master WHERE type='table' AND name='sessions'"@,
{
}

} // verus!
