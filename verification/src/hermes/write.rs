//! What is stored of a session in a Hermes database, and how the writing goes
//! on after each statement.
//!
//! A session is written in one transaction: its row, then for each message the
//! row of the message and the counts of the session brought up to date. The
//! caller runs the statements; what to do next, after each, is decided here.

use crate::fresh::{is_random_uuid, new_session_id, seconds_now};
use crate::hermes::content::{
    arguments_read_back, calls_with_ids, decoded_content, encode_content, encode_tool_calls,
    encoded_content, encoded_tool_calls, has_tool_payload, hermes_role_name, hermes_role_str,
    law_plain_content_round_trip, law_role_round_trip, stored_role, BLOCK_ARGUMENT_LEVELS,
    CALL_ARGUMENT_LEVELS, CONTENT_JSON_PREFIX,
};
use crate::hermes::read::{
    message_of_row, messages_of_rows, metadata_of, row_text, session_of_rows, title_of_rows,
    with_column, MessageRowView, SessionRowView,
};
use crate::hermes::{virtual_path, Hermes};
use crate::json::{parsed_json, JsonTree};
use crate::model::{
    copy_text, first_user_content, numbered, opt_str, opt_text, CanonicalMessage,
    CanonicalSession, MessageView, SessionView, ToolResultView, WrittenSession,
};
use crate::place::{place_views, Base, Place};
use crate::text::{ascii_lowercase, contains, contains_text, lowered};
use vstd::prelude::*;

verus! {

// ---------------------------------------------------------------------------
// Statements
// ---------------------------------------------------------------------------

/// A time that is stored: so many milliseconds, or so many whole seconds, since
/// the epoch. Either is stored in seconds.
#[derive(Debug, PartialEq, Eq, Structural, Clone, Copy)]
pub enum Stamp {
    Millis(i64),
    Seconds(i64),
}

/// The columns of the row of a session.
#[derive(Debug, PartialEq)]
pub struct SessionInsert {
    pub id: String,
    pub source: String,
    pub model: Option<String>,
    pub started_at: Stamp,
    pub cwd: Option<String>,
    pub title: Option<String>,
}

/// The columns of the row of a message.
#[derive(Debug, PartialEq)]
pub struct MessageInsert {
    pub session_id: String,
    pub role: String,
    pub content: String,
    pub tool_call_id: Option<String>,
    pub tool_calls: Option<String>,
    pub tool_name: Option<String>,
    pub timestamp: Stamp,
}

/// A statement of the transaction that writes a session.
#[derive(Debug, PartialEq)]
pub enum WriteStep {
    /// Inserts the row of the session, unless there is one.
    InsertSession(SessionInsert),
    /// Inserts the row of a message.
    InsertMessage(MessageInsert),
    /// Adds a message, and this many tool calls, to the counts of the session.
    CountMessage { session_id: String, tool_calls: usize },
}

/// What a [`SessionInsert`] holds.
#[verifier::ext_equal]
pub struct SessionInsertView {
    pub id: Seq<char>,
    pub source: Seq<char>,
    pub model: Option<Seq<char>>,
    pub started_at: Stamp,
    pub cwd: Option<Seq<char>>,
    pub title: Option<Seq<char>>,
}

/// What a [`MessageInsert`] holds.
#[verifier::ext_equal]
pub struct MessageInsertView {
    pub session_id: Seq<char>,
    pub role: Seq<char>,
    pub content: Seq<char>,
    pub tool_call_id: Option<Seq<char>>,
    pub tool_calls: Option<Seq<char>>,
    pub tool_name: Option<Seq<char>>,
    pub timestamp: Stamp,
}

/// What a [`WriteStep`] is.
pub enum WriteStepView {
    InsertSession(SessionInsertView),
    InsertMessage(MessageInsertView),
    CountMessage { session_id: Seq<char>, tool_calls: nat },
}

impl View for SessionInsert {
    type V = SessionInsertView;

    open spec fn view(&self) -> SessionInsertView {
        SessionInsertView {
            id: self.id@,
            source: self.source@,
            model: opt_text(self.model),
            started_at: self.started_at,
            cwd: opt_text(self.cwd),
            title: opt_text(self.title),
        }
    }
}

impl View for MessageInsert {
    type V = MessageInsertView;

    open spec fn view(&self) -> MessageInsertView {
        MessageInsertView {
            session_id: self.session_id@,
            role: self.role@,
            content: self.content@,
            tool_call_id: opt_text(self.tool_call_id),
            tool_calls: opt_text(self.tool_calls),
            tool_name: opt_text(self.tool_name),
            timestamp: self.timestamp,
        }
    }
}

impl View for WriteStep {
    type V = WriteStepView;

    open spec fn view(&self) -> WriteStepView {
        match *self {
            WriteStep::InsertSession(row) => WriteStepView::InsertSession(row@),
            WriteStep::InsertMessage(row) => WriteStepView::InsertMessage(row@),
            WriteStep::CountMessage { session_id, tool_calls } => WriteStepView::CountMessage {
                session_id: session_id@,
                tool_calls: tool_calls as nat,
            },
        }
    }
}

/// What the steps are.
pub open spec fn step_views(steps: Seq<WriteStep>) -> Seq<WriteStepView> {
    Seq::new(steps.len(), |i: int| steps[i]@)
}

// ---------------------------------------------------------------------------
// What is stored
// ---------------------------------------------------------------------------

/// The time that is stored: the one that is known, else the time of writing.
pub open spec fn stamp_or(known: Option<i64>, now_secs: i64) -> Stamp {
    match known {
        Some(millis) => Stamp::Millis(millis),
        None => Stamp::Seconds(now_secs),
    }
}

/// The row of a session that is written under the identifier `id`.
pub open spec fn session_insert(
    session: SessionView,
    id: Seq<char>,
    now_secs: i64,
) -> SessionInsertView {
    SessionInsertView {
        id,
        source: "casr_import"@,
        model: session.model_name,
        started_at: stamp_or(session.started_at, now_secs),
        cwd: session.workspace,
        title: session.title,
    }
}

/// The call that the first result of a message answers.
pub open spec fn answered_call(message: MessageView) -> Option<Seq<char>> {
    if message.tool_results.len() > 0 {
        message.tool_results[0].call_id
    } else {
        None
    }
}

/// The tool that a message calls first.
pub open spec fn first_tool(message: MessageView) -> Option<Seq<char>> {
    if message.tool_calls.len() > 0 {
        Some(message.tool_calls[0].name)
    } else {
        None
    }
}

/// The row of a message of the session `id`.
pub open spec fn message_insert(
    message: MessageView,
    id: Seq<char>,
    now_secs: i64,
) -> MessageInsertView {
    MessageInsertView {
        session_id: id,
        role: hermes_role_name(message.role),
        content: encoded_content(message),
        tool_call_id: answered_call(message),
        tool_calls: encoded_tool_calls(message.tool_calls),
        tool_name: first_tool(message),
        timestamp: stamp_or(message.timestamp, now_secs),
    }
}

/// The steps of the transaction that writes a session: its row, then two for
/// each message.
pub open spec fn write_steps(session: SessionView, id: Seq<char>, now_secs: i64) -> Seq<
    WriteStepView,
> {
    Seq::new(
        1 + 2 * session.messages.len(),
        |k: int|
            if k == 0 {
                WriteStepView::InsertSession(session_insert(session, id, now_secs))
            } else if k % 2 == 1 {
                WriteStepView::InsertMessage(
                    message_insert(session.messages[(k - 1) / 2], id, now_secs),
                )
            } else {
                WriteStepView::CountMessage {
                    session_id: id,
                    tool_calls: session.messages[(k - 2) / 2].tool_calls.len(),
                }
            },
    )
}

// ---------------------------------------------------------------------------
// What is read back of it
// ---------------------------------------------------------------------------

/// A row that was written, as it is read: the columns that were not written are
/// empty. `millis` is the stored time in milliseconds.
pub open spec fn written_row(row: MessageInsertView, millis: i64) -> MessageRowView {
    MessageRowView {
        role: row.role,
        content: Some(row.content),
        tool_call_id: row.tool_call_id,
        tool_calls: row.tool_calls,
        tool_name: row.tool_name,
        timestamp: millis,
        finish_reason: None,
        reasoning_content: None,
        reasoning_details: None,
    }
}

/// Nothing of the message is lost in its encoding: the arguments of its calls
/// are read back from their JSON text, and, where it has no tool payload, its
/// content is not the prefix that marks JSON text followed by JSON text.
pub open spec fn survives_encoding(message: MessageView) -> bool {
    &&& arguments_read_back(message.tool_calls, CALL_ARGUMENT_LEVELS as nat)
    &&& has_tool_payload(message) || (CONTENT_JSON_PREFIX@.is_prefix_of(message.content)
        ==> parsed_json(message.content.skip(CONTENT_JSON_PREFIX@.len() as int)) is None)
}

/// The message that is read back of one that was written: its role, or the
/// assistant's where Hermes does not know it, its text and its tool calls. Of
/// the results of a tool's message one remains, with the text of the message.
pub open spec fn message_read_back(
    message: MessageView,
    millis: i64,
    model: Option<Seq<char>>,
) -> MessageView {
    MessageView {
        idx: 0,
        role: stored_role(message.role),
        content: message.content,
        timestamp: Some(millis),
        author: model,
        tool_calls: calls_with_ids(message.tool_calls),
        tool_results: if stored_role(message.role) is Tool {
            seq![
                ToolResultView {
                    call_id: answered_call(message),
                    content: message.content,
                    is_error: false,
                },
            ]
        } else {
            Seq::empty()
        },
        extra: JsonTree::Object(
            with_column(
                with_column(Map::empty(), "tool_name"@, first_tool(message)),
                "tool_call_id"@,
                answered_call(message),
            ),
        ),
    }
}

/// A row that was written is read back as the message, whatever its time and the
/// model of its session.
pub open spec fn row_reads_back(row: MessageInsertView, message: MessageView) -> bool {
    forall|millis: i64, model: Option<Seq<char>>| #[trigger]
        message_of_row(written_row(row, millis), model) == message_read_back(message, millis, model)
}

/// The rows of the messages of a session, as they are read. `times` are their
/// stored times in milliseconds.
pub open spec fn written_rows(
    session: SessionView,
    id: Seq<char>,
    now_secs: i64,
    times: Seq<i64>,
) -> Seq<MessageRowView> {
    Seq::new(
        session.messages.len(),
        |i: int| written_row(message_insert(session.messages[i], id, now_secs), times[i]),
    )
}

/// The messages that are read back of those of a session that was written, in
/// order and numbered.
pub open spec fn messages_read_back(
    messages: Seq<MessageView>,
    times: Seq<i64>,
    model: Option<Seq<char>>,
) -> Seq<MessageView> {
    numbered(
        Seq::new(messages.len(), |i: int| message_read_back(messages[i], times[i], model)),
    )
}

/// The row of a session that was written, as it is read: a session that was
/// written has no end. `millis` is the stored time of its start in milliseconds.
pub open spec fn written_session_row(row: SessionInsertView, millis: i64) -> SessionRowView {
    SessionRowView {
        id: row.id,
        source: Some(row.source),
        model: row.model,
        started_at: Some(millis),
        ended_at: None,
        cwd: row.cwd,
        title: row.title,
    }
}

/// The session that is read back of one that was written under the identifier
/// `id`: its workspace, its model and its messages. Its title is what the user
/// said first, or the title that it had. `started` and `times` are the stored
/// times in milliseconds.
pub open spec fn session_read_back(
    session: SessionView,
    id: Seq<char>,
    started: i64,
    times: Seq<i64>,
    source_path: Seq<char>,
) -> SessionView {
    SessionView {
        session_id: id,
        provider_slug: "hermes"@,
        workspace: session.workspace,
        title: title_of_rows(session.messages, session.title),
        started_at: Some(started),
        ended_at: None,
        messages: messages_read_back(session.messages, times, session.model_name),
        metadata: metadata_of(Some("casr_import"@)),
        source_path,
        model_name: session.model_name,
    }
}

/// The rows that are written of a session, read in the order in which they are
/// written, are read back as the session, whatever the stored times are.
pub open spec fn session_rows_read_back(session: SessionView, id: Seq<char>, now_secs: i64) -> bool {
    forall|started: i64, times: Seq<i64>, source_path: Seq<char>| #[trigger]
        session_of_rows(
            written_session_row(session_insert(session, id, now_secs), started),
            written_rows(session, id, now_secs, times),
            source_path,
        ) == session_read_back(session, id, started, times, source_path)
}

/// What the user said first is what they said first in the messages read back.
proof fn lemma_first_user_content_read_back(messages: Seq<MessageView>, others: Seq<MessageView>)
    requires
        messages.len() == others.len(),
        forall|i: int|
            0 <= i < messages.len() ==> (#[trigger] others[i]).content == messages[i].content
                && others[i].role == stored_role(messages[i].role),
    ensures
        first_user_content(others) == first_user_content(messages),
    decreases messages.len(),
{
    if messages.len() > 0 {
        let rest = messages.drop_first();
        let other_rest = others.drop_first();
        assert(others[0].role is User == messages[0].role is User);
        assert forall|i: int| 0 <= i < rest.len() implies (#[trigger] other_rest[i]).content
            == rest[i].content && other_rest[i].role == stored_role(rest[i].role) by {
            assert(other_rest[i] == others[i + 1]);
        }
        lemma_first_user_content_read_back(rest, other_rest);
    }
}

/// No message of the session loses anything in its encoding.
pub open spec fn session_survives_encoding(session: SessionView) -> bool {
    forall|i: int| 0 <= i < session.messages.len() ==> survives_encoding(#[trigger] session.messages[i])
}

proof fn lemma_reads_back_deeper(tree: JsonTree, levels: nat, more: nat)
    requires
        tree.reads_back_within(levels),
        levels <= more,
    ensures
        tree.reads_back_within(more),
    decreases levels,
{
    match tree {
        JsonTree::Array(items) => {
            assert forall|i: int| 0 <= i < items.len() implies (
            #[trigger] items[i]).reads_back_within((more - 1) as nat) by {
                lemma_reads_back_deeper(items[i], (levels - 1) as nat, (more - 1) as nat);
            }
        },
        JsonTree::Object(fields) => {
            assert forall|key: Seq<char>| fields.contains_key(key) implies (
            #[trigger] fields[key]).reads_back_within((more - 1) as nat) by {
                lemma_reads_back_deeper(fields[key], (levels - 1) as nat, (more - 1) as nat);
            }
        },
        _ => {},
    }
}

// ---------------------------------------------------------------------------
// Making the statements
// ---------------------------------------------------------------------------

/// The time that is stored.
fn stamp(known: Option<i64>, now_secs: i64) -> (stored: Stamp)
    ensures
        stored == stamp_or(known, now_secs),
{
    match known {
        Some(millis) => Stamp::Millis(millis),
        None => Stamp::Seconds(now_secs),
    }
}

/// The row of a session.
pub fn session_row(session: &CanonicalSession, id: &str, now_secs: i64) -> (row: SessionInsert)
    ensures
        row@ == session_insert(session@, id@, now_secs),
{
    SessionInsert {
        id: id.to_owned(),
        source: "casr_import".to_owned(),
        model: copy_text(&session.model_name),
        started_at: stamp(session.started_at, now_secs),
        cwd: copy_text(&session.workspace),
        title: copy_text(&session.title),
    }
}

/// The row of a message. Where nothing of the message is lost in its encoding,
/// the row is read back as the message.
pub fn message_row(msg: &CanonicalMessage, id: &str, now_secs: i64) -> (row: MessageInsert)
    ensures
        row@ == message_insert(msg@, id@, now_secs),
        survives_encoding(msg@) ==> row_reads_back(row@, msg@),
{
    let tool_call_id = if msg.tool_results.len() > 0 {
        copy_text(&msg.tool_results[0].call_id)
    } else {
        None
    };
    let tool_name = if msg.tool_calls.len() > 0 {
        Some(msg.tool_calls[0].name.clone())
    } else {
        None
    };
    let content = encode_content(msg);
    let tool_calls = encode_tool_calls(&msg.tool_calls);
    let row = MessageInsert {
        session_id: id.to_owned(),
        role: hermes_role_str(&msg.role).to_owned(),
        content,
        tool_call_id,
        tool_calls,
        tool_name,
        timestamp: stamp(msg.timestamp, now_secs),
    };
    proof {
        if survives_encoding(msg@) {
            assert forall|i: int| 0 <= i < msg@.tool_calls.len() implies (
            #[trigger] msg@.tool_calls[i]).arguments.reads_back_within(
                BLOCK_ARGUMENT_LEVELS as nat,
            ) by {
                lemma_reads_back_deeper(
                    msg@.tool_calls[i].arguments,
                    CALL_ARGUMENT_LEVELS as nat,
                    BLOCK_ARGUMENT_LEVELS as nat,
                );
            }
            assert(decoded_content(content@) == msg@.content) by {
                if !has_tool_payload(msg@) {
                    law_plain_content_round_trip(msg@);
                }
            }
            law_role_round_trip(msg@.role);
            assert forall|millis: i64, model: Option<Seq<char>>| #[trigger]
                message_of_row(written_row(row@, millis), model) == message_read_back(
                    msg@,
                    millis,
                    model,
                ) by {
                let stored = written_row(row@, millis);
                assert(row_text(stored) == msg@.content);
                assert(message_of_row(stored, model) =~= message_read_back(msg@, millis, model));
            }
        }
    }
    row
}

/// The steps of the transaction that writes a session under the identifier `id`.
/// Where nothing of its messages is lost in their encoding, the rows that the
/// steps insert are read back as the session.
pub fn plan_write(session: &CanonicalSession, id: &str, now_secs: i64) -> (steps: Vec<WriteStep>)
    ensures
        step_views(steps@) == write_steps(session@, id@, now_secs),
        session_survives_encoding(session@) ==> session_rows_read_back(session@, id@, now_secs),
{
    let ghost all = write_steps(session@, id@, now_secs);
    let mut steps: Vec<WriteStep> = Vec::new();
    steps.push(WriteStep::InsertSession(session_row(session, id, now_secs)));
    let mut at: usize = 0;
    assert(step_views(steps@) =~= all.take(1));
    while at < session.messages.len()
        invariant
            at <= session.messages@.len(),
            all == write_steps(session@, id@, now_secs),
            step_views(steps@) == all.take(1 + 2 * at),
            forall|i: int|
                0 <= i < at && survives_encoding(#[trigger] session@.messages[i])
                    ==> row_reads_back(
                    message_insert(session@.messages[i], id@, now_secs),
                    session@.messages[i],
                ),
        decreases session.messages@.len() - at,
    {
        let msg = &session.messages[at];
        assert(session@.messages[at as int] == msg@);
        let ghost before = steps@;
        let row = message_row(msg, id, now_secs);
        steps.push(WriteStep::InsertMessage(row));
        steps.push(
            WriteStep::CountMessage { session_id: id.to_owned(), tool_calls: msg.tool_calls.len() },
        );
        proof {
            let k = 1 + 2 * at;
            assert((k - 1) / 2 == at && k % 2 == 1);
            assert((k + 1 - 2) / 2 == at && (k + 1) % 2 == 0);
            assert(all[k] == WriteStepView::InsertMessage(row@));
            assert(step_views(steps@) =~= step_views(before).push(all[k]).push(all[k + 1]));
            assert(all.take(k + 2) =~= all.take(k).push(all[k]).push(all[k + 1]));
        }
        at += 1;
    }
    proof {
        assert(all.take(1 + 2 * at) =~= all);
        if session_survives_encoding(session@) {
            assert forall|started: i64, times: Seq<i64>, source_path: Seq<char>| #[trigger]
                session_of_rows(
                    written_session_row(session_insert(session@, id@, now_secs), started),
                    written_rows(session@, id@, now_secs, times),
                    source_path,
                ) == session_read_back(session@, id@, started, times, source_path) by {
                let model = session@.model_name;
                let rows = written_rows(session@, id@, now_secs, times);
                assert forall|i: int| 0 <= i < rows.len() implies message_of_row(
                    #[trigger] rows[i],
                    model,
                ) == message_read_back(session@.messages[i], times[i], model) by {
                    assert(survives_encoding(session@.messages[i]));
                    assert(message_of_row(
                        written_row(
                            message_insert(session@.messages[i], id@, now_secs),
                            times[i],
                        ),
                        model,
                    ) == message_read_back(session@.messages[i], times[i], model));
                }
                let back = messages_read_back(session@.messages, times, model);
                assert(messages_of_rows(rows, model) =~= back);
                lemma_first_user_content_read_back(session@.messages, back);
            }
        }
    }
    steps
}

// ---------------------------------------------------------------------------
// What the statements do to the tables
// ---------------------------------------------------------------------------

/// The rows of messages that the steps insert, in order.
pub open spec fn inserted_rows(steps: Seq<WriteStepView>) -> Seq<MessageInsertView>
    decreases steps.len(),
{
    if steps.len() == 0 {
        Seq::empty()
    } else {
        match steps.last() {
            WriteStepView::InsertMessage(row) => inserted_rows(steps.drop_last()).push(row),
            _ => inserted_rows(steps.drop_last()),
        }
    }
}

/// How many messages the steps add to the count of the session `id`.
pub open spec fn counted_messages(steps: Seq<WriteStepView>, id: Seq<char>) -> nat
    decreases steps.len(),
{
    if steps.len() == 0 {
        0
    } else {
        counted_messages(steps.drop_last(), id) + match steps.last() {
            WriteStepView::CountMessage { session_id, .. } => if session_id == id {
                1nat
            } else {
                0nat
            },
            _ => 0nat,
        }
    }
}

/// How many tool calls the steps add to the count of the session `id`.
pub open spec fn counted_tool_calls(steps: Seq<WriteStepView>, id: Seq<char>) -> nat
    decreases steps.len(),
{
    if steps.len() == 0 {
        0
    } else {
        counted_tool_calls(steps.drop_last(), id) + match steps.last() {
            WriteStepView::CountMessage { session_id, tool_calls } => if session_id == id {
                tool_calls
            } else {
                0nat
            },
            _ => 0nat,
        }
    }
}

/// How many tool calls the messages make in all.
pub open spec fn total_tool_calls(messages: Seq<MessageView>) -> nat
    decreases messages.len(),
{
    if messages.len() == 0 {
        0
    } else {
        total_tool_calls(messages.drop_last()) + messages.last().tool_calls.len()
    }
}

/// Writing a session inserts one row for each of its messages, in their order,
/// and leaves the counts of the session at the number of its messages and of
/// their tool calls.
pub proof fn law_write_steps_fill_the_tables(session: SessionView, id: Seq<char>, now_secs: i64)
    ensures
        inserted_rows(write_steps(session, id, now_secs)) == session.messages.map_values(
            |message: MessageView| message_insert(message, id, now_secs),
        ),
        counted_messages(write_steps(session, id, now_secs), id) == session.messages.len(),
        counted_tool_calls(write_steps(session, id, now_secs), id) == total_tool_calls(
            session.messages,
        ),
{
    lemma_steps_of_first(session, id, now_secs, session.messages.len());
    let all = write_steps(session, id, now_secs);
    assert(all.take(all.len() as int) =~= all);
    assert(session.messages.take(session.messages.len() as int) =~= session.messages);
}

/// The same of the steps for the first `n` messages.
proof fn lemma_steps_of_first(session: SessionView, id: Seq<char>, now_secs: i64, n: nat)
    requires
        n <= session.messages.len(),
    ensures
        inserted_rows(write_steps(session, id, now_secs).take(1 + 2 * n as int))
            == session.messages.take(n as int).map_values(
            |message: MessageView| message_insert(message, id, now_secs),
        ),
        counted_messages(write_steps(session, id, now_secs).take(1 + 2 * n as int), id) == n,
        counted_tool_calls(write_steps(session, id, now_secs).take(1 + 2 * n as int), id)
            == total_tool_calls(session.messages.take(n as int)),
    decreases n,
{
    let all = write_steps(session, id, now_secs);
    let insert = |message: MessageView| message_insert(message, id, now_secs);
    let now = all.take(1 + 2 * n as int);
    reveal_with_fuel(inserted_rows, 3);
    reveal_with_fuel(counted_messages, 3);
    reveal_with_fuel(counted_tool_calls, 3);
    if n == 0 {
        assert(now.drop_last() =~= Seq::empty());
        assert(inserted_rows(now) =~= session.messages.take(0).map_values(insert));
    } else {
        let m = (n - 1) as nat;
        lemma_steps_of_first(session, id, now_secs, m);
        let k = 1 + 2 * m as int;
        assert((k - 1) / 2 == m && k % 2 == 1);
        assert((k + 1 - 2) / 2 == m && (k + 1) % 2 == 0);
        assert(now.last() == all[k + 1]);
        assert(now.drop_last().last() == all[k]);
        assert(now.drop_last().drop_last() =~= all.take(k));
        let first = session.messages.take(n as int);
        assert(first.drop_last() =~= session.messages.take(m as int));
        assert(first.map_values(insert) =~= first.drop_last().map_values(insert).push(
            insert(first.last()),
        ));
    }
}

// ---------------------------------------------------------------------------
// The transaction
// ---------------------------------------------------------------------------

/// What is to be done next in the transaction that writes a session.
#[derive(Debug, PartialEq, Eq, Structural, Clone, Copy)]
pub enum TxState {
    /// Begin the transaction.
    Begin,
    /// Run the step with this number.
    Step(usize),
    /// Commit the transaction.
    Commit,
    /// Roll the transaction back.
    Rollback,
    /// Nothing: the session is written.
    Done,
    /// Nothing: the session is not written.
    Failed,
}

/// What is to be done next, after `state` of a transaction of `steps` steps was
/// done with success or without. A step or a commit that fails has the
/// transaction rolled back; whether that succeeds changes nothing.
pub open spec fn tx_next(state: TxState, success: bool, steps: nat) -> TxState {
    match state {
        TxState::Begin => if !success {
            TxState::Failed
        } else if steps > 0 {
            TxState::Step(0)
        } else {
            TxState::Commit
        },
        TxState::Step(at) => if !success {
            TxState::Rollback
        } else if at + 1 < steps {
            TxState::Step((at + 1) as usize)
        } else {
            TxState::Commit
        },
        TxState::Commit => if success {
            TxState::Done
        } else {
            TxState::Rollback
        },
        TxState::Rollback => TxState::Failed,
        TxState::Done => TxState::Done,
        TxState::Failed => TxState::Failed,
    }
}

/// Where a transaction of `steps` steps stands after what was done turned out as
/// `outcomes` say.
pub open spec fn tx_after(outcomes: Seq<bool>, steps: nat) -> TxState
    decreases outcomes.len(),
{
    if outcomes.len() == 0 {
        TxState::Begin
    } else {
        tx_next(tx_after(outcomes.drop_last(), steps), outcomes.last(), steps)
    }
}

/// The first `n` outcomes are successes.
pub open spec fn succeeded(outcomes: Seq<bool>, n: int) -> bool {
    forall|i: int| 0 <= i < n ==> #[trigger] outcomes[i]
}

/// A transaction begins once; it is done when, and only when, its beginning, each of its steps
/// and its commit have succeeded; as long as all succeeds, its steps are run
/// each once and in order; and it is rolled back when, and only when, one of its
/// steps or its commit has just failed.
pub proof fn law_transaction_is_all_or_nothing(outcomes: Seq<bool>, steps: nat)
    requires
        steps <= usize::MAX,
    ensures
        tx_after(outcomes, steps) is Begin <==> outcomes.len() == 0,
        tx_after(outcomes, steps) is Done <==> outcomes.len() >= steps + 2 && succeeded(
            outcomes,
            (steps + 2) as int,
        ),
        tx_after(outcomes, steps) is Step <==> 1 <= outcomes.len() <= steps && succeeded(
            outcomes,
            outcomes.len() as int,
        ),
        tx_after(outcomes, steps) matches TxState::Step(at) ==> at + 1 == outcomes.len(),
        tx_after(outcomes, steps) is Commit <==> outcomes.len() == steps + 1 && succeeded(
            outcomes,
            (steps + 1) as int,
        ),
        tx_after(outcomes, steps) is Rollback <==> 2 <= outcomes.len() <= steps + 2
            && succeeded(outcomes, outcomes.len() - 1) && !outcomes.last(),
    decreases outcomes.len(),
{
    if outcomes.len() > 0 {
        let before = outcomes.drop_last();
        law_transaction_is_all_or_nothing(before, steps);
        assert forall|n: int| 0 <= n <= before.len() implies #[trigger] succeeded(before, n)
            == succeeded(outcomes, n) by {
            assert(forall|i: int| 0 <= i < n ==> #[trigger] before[i] == outcomes[i]);
            if succeeded(before, n) {
                assert(forall|i: int| 0 <= i < n ==> #[trigger] outcomes[i] == before[i]);
            }
        }
        let n = before.len() as int;
        assert(succeeded(outcomes, n + 1) <==> succeeded(outcomes, n) && outcomes.last());
    }
}

// ---------------------------------------------------------------------------
// Trying again
// ---------------------------------------------------------------------------

/// How often a session is tried to be written.
pub const MAX_WRITE_RETRIES: usize = 5;

/// How long to wait before the next try, in milliseconds.
pub const WRITE_RETRY_SLEEP_MS: u64 = 25;

/// What follows a try to write a session.
#[derive(Debug, PartialEq, Eq, Structural, Clone, Copy)]
pub enum AfterWrite {
    /// The session is written.
    Written,
    /// Try again, after this many milliseconds.
    RetryAfter(u64),
    /// The session cannot be written.
    GiveUp,
}

/// The message of a failure that says that someone else has the database.
pub open spec fn says_locked(message: Seq<char>) -> bool {
    contains_text(lowered(message), "locked"@) || contains_text(lowered(message), "busy"@)
}

/// What follows the try with the number `attempt`, counted from zero, that
/// failed with this message, if it failed: another try, where someone else has
/// the database and tries are left.
pub open spec fn after_write(attempt: int, failure: Option<Seq<char>>) -> AfterWrite {
    match failure {
        None => AfterWrite::Written,
        Some(message) => if says_locked(message) && attempt + 1 < MAX_WRITE_RETRIES {
            AfterWrite::RetryAfter(WRITE_RETRY_SLEEP_MS)
        } else {
            AfterWrite::GiveUp
        },
    }
}

/// How the tries end, from the try `attempt` on: whether the session is written,
/// and after how many tries in all. `failures` says how each try turns out.
pub open spec fn write_ends(failures: spec_fn(int) -> Option<Seq<char>>, attempt: int) -> (
    bool,
    int,
)
    decreases MAX_WRITE_RETRIES - attempt,
{
    match after_write(attempt, failures(attempt)) {
        AfterWrite::Written => (true, attempt + 1),
        AfterWrite::GiveUp => (false, attempt + 1),
        AfterWrite::RetryAfter(_) => write_ends(failures, attempt + 1),
    }
}

/// Whatever the tries turn out to be, no more are made than allowed; and the
/// session is written exactly when one of them succeeds after nothing but
/// failures that say that someone else has the database.
pub proof fn law_tries_are_bounded(failures: spec_fn(int) -> Option<Seq<char>>, attempt: int)
    requires
        0 <= attempt < MAX_WRITE_RETRIES,
    ensures
        write_ends(failures, attempt).1 <= MAX_WRITE_RETRIES,
        write_ends(failures, attempt).0 <==> exists|last: int|
            attempt <= last < MAX_WRITE_RETRIES && #[trigger] failures(last) is None && (forall|i: int|
                attempt <= i < last ==> (#[trigger] failures(i) matches Some(message)
                    && says_locked(message))),
    decreases MAX_WRITE_RETRIES - attempt,
{
    match after_write(attempt, failures(attempt)) {
        AfterWrite::Written => {
            assert(failures(attempt) is None);
        },
        AfterWrite::GiveUp => {
            assert(failures(attempt) is Some);
        },
        AfterWrite::RetryAfter(_) => {
            law_tries_are_bounded(failures, attempt + 1);
        },
    }
}

// ---------------------------------------------------------------------------
// Writing
// ---------------------------------------------------------------------------

/// A session that is to be written: the identifier it gets, the time of writing
/// in seconds since the epoch, and the steps of the transaction.
#[derive(Debug, PartialEq)]
pub struct WriteJob {
    pub session_id: String,
    pub now_secs: i64,
    pub steps: Vec<WriteStep>,
}

/// Why a session cannot be written.
#[derive(Debug, PartialEq, Eq, Structural, Clone, Copy)]
pub enum HermesWriteError {
    /// There is no knowing where the database is.
    NoStateDb,
}

impl Hermes {
    /// Prepares the writing of a session: under a new random identifier, which
    /// rests on chance, and at the present time, which rests on the clock.
    /// Where nothing of its messages is lost in their encoding, the rows that are
    /// written are read back as the session.
    pub fn write_to_db(&self, session: &CanonicalSession) -> (job: WriteJob)
        ensures
            is_random_uuid(job.session_id@),
            job.now_secs >= 0,
            step_views(job.steps@) == write_steps(session@, job.session_id@, job.now_secs),
            session_survives_encoding(session@) ==> session_rows_read_back(
                session@,
                job.session_id@,
                job.now_secs,
            ),
    {
        let session_id = new_session_id();
        let now_secs: i64 = seconds_now();
        let steps = plan_write(session, session_id.as_str(), now_secs);
        WriteJob { session_id, now_secs, steps }
    }

    /// Prepares the writing of a session into the database at `db`, if it is
    /// known where that is, under a new random identifier and at the present time.
    /// Where nothing of its messages is lost in their encoding, the rows that are
    /// written are read back as the session.
    pub fn write_session(&self, db: &Option<Place>, session: &CanonicalSession) -> (job: Result<
        WriteJob,
        HermesWriteError,
    >)
        ensures
            job is Err == db is None,
            job matches Ok(prepared) ==> is_random_uuid(prepared.session_id@) && prepared.now_secs
                >= 0 && step_views(prepared.steps@) == write_steps(
                session@,
                prepared.session_id@,
                prepared.now_secs,
            ),
            job matches Ok(prepared) ==> (session_survives_encoding(session@)
                ==> session_rows_read_back(session@, prepared.session_id@, prepared.now_secs)),
    {
        match db {
            Some(_) => Ok(self.write_to_db(session)),
            None => Err(HermesWriteError::NoStateDb),
        }
    }

    /// What is reported of a session that was written: its virtual path, its
    /// identifier and the command that resumes it. Nothing is backed up.
    pub fn written(&self, session_id: &str) -> (written: WrittenSession)
        ensures
            place_views(written.paths@) == seq![virtual_path(session_id@)],
            written.session_id@ == session_id@,
            written.resume_command@ == "hermes --resume "@ + session_id@,
            written.backup_path is None,
    {
        WrittenSession {
            paths: Place::at(Base::StateDb).join(session_id).alone(),
            session_id: session_id.to_owned(),
            resume_command: self.resume_command(session_id),
            backup_path: None,
        }
    }

    /// What is to be done next in a transaction of `steps` steps.
    pub fn run_write_tx(state: TxState, success: bool, steps: usize) -> (next: TxState)
        ensures
            next == tx_next(state, success, steps as nat),
    {
        match state {
            TxState::Begin => {
                if !success {
                    TxState::Failed
                } else if steps > 0 {
                    TxState::Step(0)
                } else {
                    TxState::Commit
                }
            },
            TxState::Step(at) => {
                if !success {
                    TxState::Rollback
                } else if at < steps && at + 1 < steps {
                    TxState::Step(at + 1)
                } else {
                    TxState::Commit
                }
            },
            TxState::Commit => {
                if success {
                    TxState::Done
                } else {
                    TxState::Rollback
                }
            },
            TxState::Rollback => TxState::Failed,
            TxState::Done => TxState::Done,
            TxState::Failed => TxState::Failed,
        }
    }

    /// What follows a try to write a session. `failure` is the message with which
    /// the try failed, if it did.
    pub fn after_write_attempt(attempt: usize, failure: Option<&str>) -> (next: AfterWrite)
        ensures
            next == after_write(attempt as int, opt_str(failure)),
    {
        match failure {
            None => AfterWrite::Written,
            Some(message) => {
                let low = ascii_lowercase(message);
                if (contains(low.as_str(), "locked") || contains(low.as_str(), "busy")) && attempt
                    < MAX_WRITE_RETRIES - 1 {
                    AfterWrite::RetryAfter(WRITE_RETRY_SLEEP_MS)
                } else {
                    AfterWrite::GiveUp
                }
            },
        }
    }
}

} // verus!
