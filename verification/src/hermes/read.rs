//! The session that the rows of a Hermes database are.

use crate::hermes::content::{
    decode_content, decode_tool_calls, decoded_content, decoded_tool_calls,
};
use crate::hermes::Hermes;
use crate::json::{field_trees, put_field, text_value, Json, JsonTree};
use crate::model::{
    copy_text, message_views, normalize_role, numbered, opt_text, reindex_messages, role_named,
    session_title, title_from, CanonicalMessage, CanonicalSession, MessageRole, MessageView,
    SessionView, ToolResult, ToolResultView,
};
use vstd::prelude::*;

verus! {

// ---------------------------------------------------------------------------
// Rows
// ---------------------------------------------------------------------------

/// A row of the table of sessions. Times are milliseconds since the epoch.
#[derive(Debug, PartialEq)]
pub struct SessionRow {
    pub id: String,
    pub source: Option<String>,
    pub model: Option<String>,
    pub started_at: Option<i64>,
    pub ended_at: Option<i64>,
    pub cwd: Option<String>,
    pub title: Option<String>,
}

/// A row of the table of messages. Times are milliseconds since the epoch.
#[derive(Debug, PartialEq)]
pub struct MessageRow {
    pub role: String,
    pub content: Option<String>,
    pub tool_call_id: Option<String>,
    pub tool_calls: Option<String>,
    pub tool_name: Option<String>,
    pub timestamp: i64,
    pub finish_reason: Option<String>,
    pub reasoning_content: Option<String>,
    pub reasoning_details: Option<String>,
}

/// What a [`SessionRow`] holds.
#[verifier::ext_equal]
pub struct SessionRowView {
    pub id: Seq<char>,
    pub source: Option<Seq<char>>,
    pub model: Option<Seq<char>>,
    pub started_at: Option<i64>,
    pub ended_at: Option<i64>,
    pub cwd: Option<Seq<char>>,
    pub title: Option<Seq<char>>,
}

/// What a [`MessageRow`] holds.
#[verifier::ext_equal]
pub struct MessageRowView {
    pub role: Seq<char>,
    pub content: Option<Seq<char>>,
    pub tool_call_id: Option<Seq<char>>,
    pub tool_calls: Option<Seq<char>>,
    pub tool_name: Option<Seq<char>>,
    pub timestamp: i64,
    pub finish_reason: Option<Seq<char>>,
    pub reasoning_content: Option<Seq<char>>,
    pub reasoning_details: Option<Seq<char>>,
}

impl View for SessionRow {
    type V = SessionRowView;

    open spec fn view(&self) -> SessionRowView {
        SessionRowView {
            id: self.id@,
            source: opt_text(self.source),
            model: opt_text(self.model),
            started_at: self.started_at,
            ended_at: self.ended_at,
            cwd: opt_text(self.cwd),
            title: opt_text(self.title),
        }
    }
}

impl View for MessageRow {
    type V = MessageRowView;

    open spec fn view(&self) -> MessageRowView {
        MessageRowView {
            role: self.role@,
            content: opt_text(self.content),
            tool_call_id: opt_text(self.tool_call_id),
            tool_calls: opt_text(self.tool_calls),
            tool_name: opt_text(self.tool_name),
            timestamp: self.timestamp,
            finish_reason: opt_text(self.finish_reason),
            reasoning_content: opt_text(self.reasoning_content),
            reasoning_details: opt_text(self.reasoning_details),
        }
    }
}

// ---------------------------------------------------------------------------
// What the rows mean
// ---------------------------------------------------------------------------

/// The fields with the text of a column under `key`, if the column has one.
pub open spec fn with_column(
    fields: Map<Seq<char>, JsonTree>,
    key: Seq<char>,
    column: Option<Seq<char>>,
) -> Map<Seq<char>, JsonTree> {
    match column {
        Some(text) => fields.insert(key, JsonTree::Text(text)),
        None => fields,
    }
}

/// What a message keeps of the columns that the canonical form has no place for.
pub open spec fn extra_of(row: MessageRowView) -> JsonTree {
    let fields = Map::empty();
    let fields = with_column(fields, "finish_reason"@, row.finish_reason);
    let fields = with_column(fields, "reasoning_content"@, row.reasoning_content);
    let fields = with_column(fields, "reasoning_details"@, row.reasoning_details);
    let fields = with_column(fields, "tool_name"@, row.tool_name);
    let fields = with_column(fields, "tool_call_id"@, row.tool_call_id);
    JsonTree::Object(fields)
}

/// The text of a row's content; a row without content has the empty text.
pub open spec fn row_text(row: MessageRowView) -> Seq<char> {
    decoded_content(
        match row.content {
            Some(stored) => stored,
            None => Seq::empty(),
        },
    )
}

/// The message that a row is, before it is numbered. A row of a tool is the
/// result of the call that it names.
pub open spec fn message_of_row(row: MessageRowView, model: Option<Seq<char>>) -> MessageView {
    MessageView {
        idx: 0,
        role: role_named(row.role),
        content: row_text(row),
        timestamp: Some(row.timestamp),
        author: model,
        tool_calls: decoded_tool_calls(row.tool_calls),
        tool_results: if role_named(row.role) is Tool {
            seq![
                ToolResultView {
                    call_id: row.tool_call_id,
                    content: row_text(row),
                    is_error: false,
                },
            ]
        } else {
            Seq::empty()
        },
        extra: extra_of(row),
    }
}

/// The messages that the rows are, in order and numbered.
pub open spec fn messages_of_rows(
    rows: Seq<MessageRowView>,
    model: Option<Seq<char>>,
) -> Seq<MessageView> {
    numbered(Seq::new(rows.len(), |i: int| message_of_row(rows[i], model)))
}

/// The title of a session: what the user said first, else the stored title,
/// unless that is empty.
pub open spec fn title_of_rows(
    messages: Seq<MessageView>,
    stored: Option<Seq<char>>,
) -> Option<Seq<char>> {
    match title_from(messages) {
        Some(title) => Some(title),
        None => match stored {
            Some(title) => if title.len() > 0 {
                Some(title)
            } else {
                None
            },
            None => None,
        },
    }
}

/// What a session keeps of the source of its row.
pub open spec fn metadata_of(source: Option<Seq<char>>) -> JsonTree {
    match source {
        Some(text) => JsonTree::Object(
            map!["source"@ => JsonTree::Text(text), "hermes_source"@ => JsonTree::Text(text)],
        ),
        None => JsonTree::Object(map!["source"@ => JsonTree::Text("hermes"@)]),
    }
}

/// The session that a session row and the rows of its messages are.
pub open spec fn session_of_rows(
    row: SessionRowView,
    rows: Seq<MessageRowView>,
    source_path: Seq<char>,
) -> SessionView {
    let messages = messages_of_rows(rows, row.model);
    SessionView {
        session_id: row.id,
        provider_slug: "hermes"@,
        workspace: row.cwd,
        title: title_of_rows(messages, row.title),
        started_at: row.started_at,
        ended_at: row.ended_at,
        messages,
        metadata: metadata_of(row.source),
        source_path,
        model_name: row.model,
    }
}

// ---------------------------------------------------------------------------
// Reading
// ---------------------------------------------------------------------------

/// Puts the text of a column under `key`, if the column has one.
fn put_column(fields: &mut Vec<(String, Json)>, key: &str, column: &Option<String>)
    ensures
        field_trees(final(fields)@) == with_column(
            field_trees(old(fields)@),
            key@,
            opt_text(*column),
        ),
{
    if let Some(text) = column {
        put_field(fields, key, text_value(text.as_str()));
    }
}

/// The message that a row is, before it is numbered. `model` is the model of the
/// session.
pub fn message_from_row(row: &MessageRow, model: &Option<String>) -> (message: CanonicalMessage)
    ensures
        message@ == message_of_row(row@, opt_text(*model)),
{
    let role = normalize_role(row.role.as_str());
    let content = match &row.content {
        Some(stored) => decode_content(stored.as_str()),
        None => {
            proof {
                reveal_strlit("");
                assert(""@ =~= Seq::empty());
            }
            decode_content("")
        },
    };
    let tool_calls = match &row.tool_calls {
        Some(raw) => decode_tool_calls(Some(raw.as_str())),
        None => decode_tool_calls(None),
    };
    let mut tool_results: Vec<ToolResult> = Vec::new();
    if let MessageRole::Tool = role {
        tool_results.push(
            ToolResult {
                call_id: copy_text(&row.tool_call_id),
                content: content.clone(),
                is_error: false,
            },
        );
    }
    let mut extra: Vec<(String, Json)> = Vec::new();
    put_column(&mut extra, "finish_reason", &row.finish_reason);
    put_column(&mut extra, "reasoning_content", &row.reasoning_content);
    put_column(&mut extra, "reasoning_details", &row.reasoning_details);
    put_column(&mut extra, "tool_name", &row.tool_name);
    put_column(&mut extra, "tool_call_id", &row.tool_call_id);
    let message = CanonicalMessage {
        idx: 0,
        role,
        content,
        timestamp: Some(row.timestamp),
        author: copy_text(model),
        tool_calls,
        tool_results,
        extra: Json::Object(extra),
    };
    assert(message@ =~= message_of_row(row@, opt_text(*model)));
    message
}

/// What a session keeps of the source of its row.
fn metadata_from(source: &Option<String>) -> (metadata: Json)
    ensures
        metadata@ == metadata_of(opt_text(*source)),
{
    let mut fields: Vec<(String, Json)> = Vec::new();
    match source {
        Some(text) => {
            put_field(&mut fields, "source", text_value(text.as_str()));
            put_field(&mut fields, "hermes_source", text_value(text.as_str()));
        },
        None => {
            put_field(&mut fields, "source", text_value("hermes"));
        },
    }
    Json::Object(fields)
}

/// What was found in a database of the session that is to be read.
pub enum StoredSession {
    /// The database could not be opened.
    Unopened,
    /// It has no table of sessions.
    NoTable,
    /// It could not be asked for the session.
    Unqueried,
    /// It has no such session.
    Missing,
    /// It could not be asked for the messages of the session.
    NoMessages,
    /// The row of the session, and the rows of its messages in the order of
    /// their times; those that could not be read are not there.
    Found { row: SessionRow, messages: Vec<Option<MessageRow>> },
}

/// Why a session could not be read.
#[derive(Debug, PartialEq, Eq, Structural, Clone, Copy)]
pub enum HermesReadError {
    /// The database could not be opened.
    CannotOpen,
    /// The file is no Hermes database.
    NotHermes,
    /// The database could not be asked for the session.
    QueryFailed,
    /// The database has no such session.
    NoSession,
    /// The messages of the session could not be read.
    MessagesFailed,
}

/// Every row could be read.
pub open spec fn all_there(rows: Seq<Option<MessageRow>>) -> bool {
    forall|i: int| 0 <= i < rows.len() ==> #[trigger] rows[i] is Some
}

/// What the rows hold that could be read.
pub open spec fn row_views(rows: Seq<Option<MessageRow>>) -> Seq<MessageRowView> {
    Seq::new(rows.len(), |i: int| rows[i].unwrap()@)
}

/// Why the session that was found cannot be read, if it cannot.
pub open spec fn read_error(stored: StoredSession) -> Option<HermesReadError> {
    match stored {
        StoredSession::Unopened => Some(HermesReadError::CannotOpen),
        StoredSession::NoTable => Some(HermesReadError::NotHermes),
        StoredSession::Unqueried => Some(HermesReadError::QueryFailed),
        StoredSession::Missing => Some(HermesReadError::NoSession),
        StoredSession::NoMessages => Some(HermesReadError::MessagesFailed),
        StoredSession::Found { row, messages } => if all_there(messages@) {
            None
        } else {
            Some(HermesReadError::MessagesFailed)
        },
    }
}

impl Hermes {
    /// The session that was found in the database at `source_path`.
    pub fn read_session(&self, stored: &StoredSession, source_path: &str) -> (session: Result<
        CanonicalSession,
        HermesReadError,
    >)
        ensures
            session is Err == read_error(*stored) is Some,
            session matches Err(error) ==> read_error(*stored) == Some(error),
            session matches Ok(read) ==> (stored matches StoredSession::Found { row, messages }
                && read@ == session_of_rows(row@, row_views(messages@), source_path@)),
    {
        let (row, rows) = match stored {
            StoredSession::Unopened => return Err(HermesReadError::CannotOpen),
            StoredSession::NoTable => return Err(HermesReadError::NotHermes),
            StoredSession::Unqueried => return Err(HermesReadError::QueryFailed),
            StoredSession::Missing => return Err(HermesReadError::NoSession),
            StoredSession::NoMessages => return Err(HermesReadError::MessagesFailed),
            StoredSession::Found { row, messages } => (row, messages),
        };
        let ghost model = opt_text(row.model);
        let ghost views = row_views(rows@);
        let ghost unnumbered = Seq::new(views.len(), |i: int| message_of_row(views[i], model));
        let mut messages: Vec<CanonicalMessage> = Vec::new();
        let mut at: usize = 0;
        assert(message_views(messages@) =~= unnumbered.take(0));
        while at < rows.len()
            invariant
                at <= rows@.len(),
                *stored == (StoredSession::Found { row: *row, messages: *rows }),
                model == opt_text(row.model),
                views == row_views(rows@),
                unnumbered == Seq::new(views.len(), |i: int| message_of_row(views[i], model)),
                message_views(messages@) == unnumbered.take(at as int),
                forall|i: int| 0 <= i < at ==> #[trigger] rows@[i] is Some,
            decreases rows@.len() - at,
        {
            match &rows[at] {
                Some(message_row) => {
                    let ghost before = messages@;
                    let message = message_from_row(message_row, &row.model);
                    messages.push(message);
                    assert(message_views(messages@) =~= message_views(before).push(message@));
                    assert(unnumbered.take(at + 1) =~= unnumbered.take(at as int).push(
                        unnumbered[at as int],
                    ));
                },
                None => {
                    return Err(HermesReadError::MessagesFailed);
                },
            }
            at += 1;
        }
        assert(unnumbered.take(at as int) =~= unnumbered);
        reindex_messages(&mut messages);
        let title = match session_title(&messages) {
            Some(title) => Some(title),
            None => match &row.title {
                Some(title) if !title.as_str().is_empty() => Some(title.clone()),
                _ => None,
            },
        };
        let session = CanonicalSession {
            session_id: row.id.clone(),
            provider_slug: "hermes".to_owned(),
            workspace: copy_text(&row.cwd),
            title,
            started_at: row.started_at,
            ended_at: row.ended_at,
            messages,
            metadata: metadata_from(&row.source),
            source_path: source_path.to_owned(),
            model_name: copy_text(&row.model),
        };
        Ok(session)
    }
}

} // verus!
