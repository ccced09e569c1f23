//! What reading and writing a Hermes database promises, said of what goes in and
//! what comes out.

use crate::hermes::content::{
    calls_from_value, calls_with_ids, content_blocks, decoded_content, decoded_tool_calls, encoded_content,
    encoded_tool_calls, hermes_role_name, law_float_free_arguments_read_back, stored_call,
    stored_calls, text_block, tool_result_block, tool_use_block,
};
use crate::hermes::read::{
    message_of_row, read_error, row_views, session_of_rows, HermesReadError,
    MessageRow, MessageRowView, SessionRow, SessionRowView, StoredSession,
};
use crate::hermes::write::{
    after_write, message_insert, message_read_back, session_insert, session_read_back,
    session_survives_encoding, step_views, survives_encoding, total_tool_calls, write_steps, written_row, written_rows,
    written_session_row, AfterWrite, MessageInsert, MessageInsertView, SessionInsert,
    SessionInsertView, Stamp, WriteStep, WriteStepView,
};
use crate::hermes::{
    database_in, entry_views, hermes_home, listed, resolved, virtual_path, DbPath, DbProbe, HermesEnv, Listing,
};
use crate::json::{parsed_json, printed_json, JsonTree};
use crate::model::{
    flattened, law_all_that_is_there_is_kept, lemma_kept_all, opt_text, role_named, title_from, MessageView, RoleView, SessionView, ToolCallView,
    ToolResultView,
};
use crate::place::{BaseView, Place, PlaceView};
use crate::text::{contains_text, lowered, trimmed};
use vstd::prelude::*;

verus! {

// ---------------------------------------------------------------------------
// Content blocks
// ---------------------------------------------------------------------------

/// The block of a text has the text, that of a call the call, and that of a
/// result the result.
proof fn lemma_block_fields(text: Seq<char>, call: ToolCallView, result: ToolResultView)
    ensures
        text_block(text).field("type"@) == Some(JsonTree::Text("text"@)),
        text_block(text).field("text"@) == Some(JsonTree::Text(text)),
        tool_use_block(call).field("type"@) == Some(JsonTree::Text("tool_use"@)),
        tool_use_block(call).field("id"@) == Some(
            JsonTree::Text(
                match call.id {
                    Some(id) => id,
                    None => Seq::empty(),
                },
            ),
        ),
        tool_use_block(call).field("name"@) == Some(JsonTree::Text(call.name)),
        tool_use_block(call).field("input"@) == Some(call.arguments),
        tool_result_block(result).field("type"@) == Some(JsonTree::Text("tool_result"@)),
        tool_result_block(result).field("tool_use_id"@) == Some(
            JsonTree::Text(
                match result.call_id {
                    Some(id) => id,
                    None => Seq::empty(),
                },
            ),
        ),
        tool_result_block(result).field("content"@) == Some(JsonTree::Text(result.content)),
        tool_result_block(result).field("is_error"@) == Some(JsonTree::Bool(result.is_error)),
{
    reveal_strlit("type");
    reveal_strlit("text");
    reveal_strlit("id");
    reveal_strlit("name");
    reveal_strlit("input");
    reveal_strlit("tool_use_id");
    reveal_strlit("content");
    reveal_strlit("is_error");
    assert("type"@.len() == 4 && "text"@.len() == 4 && "name"@.len() == 4);
    assert("type"@[1] == 'y' && "text"@[1] == 'e' && "name"@[1] == 'a');
    assert("id"@.len() == 2 && "input"@.len() == 5 && "tool_use_id"@.len() == 11);
    assert("content"@.len() == 7 && "is_error"@.len() == 8);
}

/// How many blocks stand before those of the calls: one where there is a text.
spec fn text_blocks(message: MessageView) -> int {
    if message.content.len() > 0 {
        1
    } else {
        0
    }
}

/// The content blocks hold all of the message, each in its place: its text, its
/// calls with their identifiers, names and arguments, and its results with the
/// calls that they answer, their contents and whether they are errors; and
/// nothing else.
pub proof fn law_blocks_hold_the_message(message: MessageView)
    ensures
        content_blocks(message).len() == (if message.content.len() > 0 {
            1int
        } else {
            0int
        }) + message.tool_calls.len() + message.tool_results.len(),
        message.content.len() > 0 ==> {
            let block = content_blocks(message)[0];
            &&& block.field("type"@) == Some(JsonTree::Text("text"@))
            &&& block.field("text"@) == Some(JsonTree::Text(message.content))
            &&& forall|key: Seq<char>| #[trigger]
                block.field(key) is Some ==> key == "type"@ || key == "text"@
        },
        forall|i: int|
            #![trigger message.tool_calls[i]]
            0 <= i < message.tool_calls.len() ==> {
                let call = message.tool_calls[i];
                let block = content_blocks(message)[(if message.content.len() > 0 {
                    1int
                } else {
                    0int
                }) + i];
                &&& block.field("type"@) == Some(JsonTree::Text("tool_use"@))
                &&& block.field("id"@) == Some(
                    JsonTree::Text(
                        match call.id {
                            Some(id) => id,
                            None => Seq::empty(),
                        },
                    ),
                )
                &&& block.field("name"@) == Some(JsonTree::Text(call.name))
                &&& block.field("input"@) == Some(call.arguments)
                &&& (block matches JsonTree::Object(fields) && fields.dom() == set![
                    "type"@,
                    "id"@,
                    "name"@,
                    "input"@,
                ])
            },
        forall|i: int|
            #![trigger message.tool_results[i]]
            0 <= i < message.tool_results.len() ==> {
                let result = message.tool_results[i];
                let block = content_blocks(message)[(if message.content.len() > 0 {
                    1int
                } else {
                    0int
                }) + message.tool_calls.len() + i];
                &&& block.field("type"@) == Some(JsonTree::Text("tool_result"@))
                &&& block.field("tool_use_id"@) == Some(
                    JsonTree::Text(
                        match result.call_id {
                            Some(id) => id,
                            None => Seq::empty(),
                        },
                    ),
                )
                &&& block.field("content"@) == Some(JsonTree::Text(result.content))
                &&& block.field("is_error"@) == Some(JsonTree::Bool(result.is_error))
                &&& (block matches JsonTree::Object(fields) && fields.dom() == set![
                    "type"@,
                    "tool_use_id"@,
                    "content"@,
                    "is_error"@,
                ])
            },
{
    let blocks = content_blocks(message);
    let start = text_blocks(message);
    if start == 1 {
        lemma_block_fields(message.content, arbitrary(), arbitrary());
        assert(blocks[0] == text_block(message.content));
    }
    assert forall|i: int| #![trigger message.tool_calls[i]] 0 <= i < message.tool_calls.len()
        implies blocks[start + i] == tool_use_block(message.tool_calls[i]) by {}
    assert forall|i: int| #![trigger message.tool_calls[i]] 0 <= i < message.tool_calls.len()
        implies ({
        let call = message.tool_calls[i];
        let block = tool_use_block(call);
        &&& block.field("type"@) == Some(JsonTree::Text("tool_use"@))
        &&& block.field("id"@) == Some(
            JsonTree::Text(
                match call.id {
                    Some(id) => id,
                    None => Seq::empty(),
                },
            ),
        )
        &&& block.field("name"@) == Some(JsonTree::Text(call.name))
        &&& block.field("input"@) == Some(call.arguments)
        &&& (block matches JsonTree::Object(fields) && fields.dom() == set![
            "type"@,
            "id"@,
            "name"@,
            "input"@,
        ])
    }) by {
        lemma_block_fields(arbitrary(), message.tool_calls[i], arbitrary());
        let block = tool_use_block(message.tool_calls[i]);
        assert(block->Object_0.dom() =~= set!["type"@, "id"@, "name"@, "input"@]);
    }
    assert forall|i: int| #![trigger message.tool_results[i]] 0 <= i < message.tool_results.len()
        implies blocks[start + message.tool_calls.len() + i] == tool_result_block(
        message.tool_results[i],
    ) by {}
    assert forall|i: int| #![trigger message.tool_results[i]] 0 <= i < message.tool_results.len()
        implies ({
        let result = message.tool_results[i];
        let block = tool_result_block(result);
        &&& block.field("type"@) == Some(JsonTree::Text("tool_result"@))
        &&& block.field("tool_use_id"@) == Some(
            JsonTree::Text(
                match result.call_id {
                    Some(id) => id,
                    None => Seq::empty(),
                },
            ),
        )
        &&& block.field("content"@) == Some(JsonTree::Text(result.content))
        &&& block.field("is_error"@) == Some(JsonTree::Bool(result.is_error))
        &&& (block matches JsonTree::Object(fields) && fields.dom() == set![
            "type"@,
            "tool_use_id"@,
            "content"@,
            "is_error"@,
        ])
    }) by {
        lemma_block_fields(arbitrary(), arbitrary(), message.tool_results[i]);
        let block = tool_result_block(message.tool_results[i]);
        assert(block->Object_0.dom() =~= set!["type"@, "tool_use_id"@, "content"@, "is_error"@]);
    }
}

/// Messages with the same content blocks have the same text, the same calls and
/// the same results, but that an identifier that is not there is like the empty
/// one.
pub proof fn law_blocks_tell_messages_apart(a: MessageView, b: MessageView)
    requires
        content_blocks(a) == content_blocks(b),
    ensures
        a.content == b.content,
        a.tool_calls.len() == b.tool_calls.len(),
        forall|i: int|
            #![trigger a.tool_calls[i]]
            0 <= i < a.tool_calls.len() ==> a.tool_calls[i].name == b.tool_calls[i].name
                && a.tool_calls[i].arguments == b.tool_calls[i].arguments && (
            a.tool_calls[i].id matches Some(id) ==> (id.len() > 0 ==> b.tool_calls[i].id == Some(id))),
        a.tool_results.len() == b.tool_results.len(),
        forall|i: int|
            #![trigger a.tool_results[i]]
            0 <= i < a.tool_results.len() ==> a.tool_results[i].content
                == b.tool_results[i].content && a.tool_results[i].is_error
                == b.tool_results[i].is_error && (a.tool_results[i].call_id matches Some(id)
                ==> (id.len() > 0 ==> b.tool_results[i].call_id == Some(id))),
{
    reveal_strlit("text");
    reveal_strlit("tool_use");
    reveal_strlit("tool_result");
    assert("text"@.len() == 4 && "tool_use"@.len() == 8 && "tool_result"@.len() == 11);
    law_blocks_hold_the_message(a);
    law_blocks_hold_the_message(b);
    let blocks = content_blocks(a);
    let (sa, sb) = (text_blocks(a), text_blocks(b));
    let (ca, cb) = (a.tool_calls.len() as int, b.tool_calls.len() as int);
    if sa == 1 && sb == 0 {
        if cb > 0 {
            assert(b.tool_calls[0] == b.tool_calls[0]);
        } else {
            assert(b.tool_results[0] == b.tool_results[0]);
        }
        assert(false);
    }
    if sb == 1 && sa == 0 {
        if ca > 0 {
            assert(a.tool_calls[0] == a.tool_calls[0]);
        } else {
            assert(a.tool_results[0] == a.tool_results[0]);
        }
        assert(false);
    }
    if sa == 0 {
        assert(a.content =~= b.content);
    }
    if ca < cb {
        let call = b.tool_calls[ca];
        let result = a.tool_results[0];
        assert(blocks[sa + ca].field("type"@) == Some(JsonTree::Text("tool_use"@)));
        assert(blocks[sa + ca + 0].field("type"@) == Some(JsonTree::Text("tool_result"@)));
        assert(false);
    }
    if cb < ca {
        let call = a.tool_calls[cb];
        let result = b.tool_results[0];
        assert(blocks[sb + cb].field("type"@) == Some(JsonTree::Text("tool_use"@)));
        assert(blocks[sb + cb + 0].field("type"@) == Some(JsonTree::Text("tool_result"@)));
        assert(false);
    }
    assert forall|i: int| #![trigger a.tool_calls[i]] 0 <= i < ca implies a.tool_calls[i].name
        == b.tool_calls[i].name && a.tool_calls[i].arguments == b.tool_calls[i].arguments && (
    a.tool_calls[i].id matches Some(id) ==> (id.len() > 0 ==> b.tool_calls[i].id == Some(id))) by {
        let other = b.tool_calls[i];
        let block = blocks[sa + i];
        assert(block.field("name"@) == Some(JsonTree::Text(other.name)));
        assert(block.field("input"@) == Some(other.arguments));
    }
    assert forall|i: int|
        #![trigger a.tool_results[i]]
        0 <= i < a.tool_results.len() implies a.tool_results[i].content
        == b.tool_results[i].content && a.tool_results[i].is_error == b.tool_results[i].is_error
        && (a.tool_results[i].call_id matches Some(id) ==> (id.len() > 0
        ==> b.tool_results[i].call_id == Some(id))) by {
        let other = b.tool_results[i];
        let block = blocks[sa + ca + i];
        assert(block.field("content"@) == Some(JsonTree::Text(other.content)));
    }
}

/// Content is stored as it is, or, where tools are in it, as the prefix and the
/// JSON text of its blocks; and it is read as it is, or, behind the prefix, as the
/// text of the JSON that follows.
pub proof fn law_content_column(message: MessageView, text: Seq<char>)
    ensures
        message.tool_calls.len() == 0 && message.tool_results.len() == 0 ==> encoded_content(
            message,
        ) == message.content,
        message.tool_calls.len() > 0 || message.tool_results.len() > 0 ==> encoded_content(message)
            == "\x00json:"@ + printed_json(JsonTree::Array(content_blocks(message))),
        !("\x00json:"@.is_prefix_of(text)) ==> decoded_content(text) == text,
        parsed_json(text) matches Some(value) ==> decoded_content("\x00json:"@ + text)
            == flattened(value),
        parsed_json(text) is None ==> decoded_content("\x00json:"@ + text) == "\x00json:"@ + text,
{
    let stored = "\x00json:"@ + text;
    assert(stored.take("\x00json:"@.len() as int) =~= "\x00json:"@);
    assert(stored.skip("\x00json:"@.len() as int) =~= text);
}

// ---------------------------------------------------------------------------
// Tool calls
// ---------------------------------------------------------------------------

/// Of each call its identifier, its name and its arguments are stored, all calls
/// in their order; where there is no call, nothing is.
pub proof fn law_stored_calls_hold_the_calls(calls: Seq<ToolCallView>)
    ensures
        calls.len() == 0 ==> encoded_tool_calls(calls) is None,
        calls.len() > 0 ==> encoded_tool_calls(calls) == Some(printed_json(stored_calls(calls))),
        stored_calls(calls) matches JsonTree::Array(items) && items.len() == calls.len() && forall|
            i: int,
        |
            #![trigger calls[i]]
            0 <= i < calls.len() ==> {
                &&& items[i].field("id"@) == Some(
                    JsonTree::Text(
                        match calls[i].id {
                            Some(id) => id,
                            None => Seq::empty(),
                        },
                    ),
                )
                &&& items[i].field("type"@) == Some(JsonTree::Text("function"@))
                &&& (items[i].field("function"@) matches Some(function) && function.field("name"@)
                    == Some(JsonTree::Text(calls[i].name)) && function.field("arguments"@) == Some(
                    calls[i].arguments,
                ))
            },
{
    assert forall|i: int| #![trigger calls[i]] 0 <= i < calls.len() implies ({
        let item = stored_call(calls[i]);
        &&& item.field("id"@) == Some(
            JsonTree::Text(
                match calls[i].id {
                    Some(id) => id,
                    None => Seq::empty(),
                },
            ),
        )
        &&& item.field("type"@) == Some(JsonTree::Text("function"@))
        &&& (item.field("function"@) matches Some(function) && function.field("name"@) == Some(
            JsonTree::Text(calls[i].name),
        ) && function.field("arguments"@) == Some(calls[i].arguments))
    }) by {
        reveal_strlit("id");
        reveal_strlit("type");
        reveal_strlit("function");
        reveal_strlit("name");
        reveal_strlit("arguments");
        assert("id"@.len() == 2 && "type"@.len() == 4 && "function"@.len() == 8 && "name"@.len()
            == 4 && "arguments"@.len() == 9);
    }
}

/// One more item is read as one more call, with what stands in it, if it has a
/// function, and as none if it has not. What is no array has no calls.
pub proof fn law_calls_grow_by_item(items: Seq<JsonTree>, item: JsonTree, value: JsonTree)
    ensures
        calls_from_value(JsonTree::Array(Seq::empty())).len() == 0,
        !(value is Array) ==> calls_from_value(value).len() == 0,
        item.field("function"@) is None ==> calls_from_value(JsonTree::Array(items.push(item)))
            == calls_from_value(JsonTree::Array(items)),
        item.field("function"@) matches Some(function) ==> {
            let before = calls_from_value(JsonTree::Array(items));
            let after = calls_from_value(JsonTree::Array(items.push(item)));
            let call = after[before.len() as int];
            &&& after == before.push(call)
            &&& (item.field("id"@) matches Some(JsonTree::Text(id)) ==> call.id == Some(id))
            &&& (!(item.field("id"@) matches Some(JsonTree::Text(_))) ==> call.id is None)
            &&& (function.field("name"@) matches Some(JsonTree::Text(name)) ==> call.name == name)
            &&& (!(function.field("name"@) matches Some(JsonTree::Text(_))) ==> call.name
                == "unknown"@)
            &&& (function.field("arguments"@) matches Some(arguments) ==> call.arguments
                == arguments)
            &&& (function.field("arguments"@) is None ==> call.arguments == JsonTree::Null)
        },
{
    let longer = items.push(item);
    let found = Seq::new(
        items.len(),
        |i: int| crate::hermes::content::call_from_item(items[i]),
    );
    let all = Seq::new(
        longer.len(),
        |i: int| crate::hermes::content::call_from_item(longer[i]),
    );
    assert(all.drop_last() =~= found);
    assert(all.last() == crate::hermes::content::call_from_item(item));
    let none = Seq::<JsonTree>::empty();
    assert(Seq::new(
        none.len(),
        |i: int| crate::hermes::content::call_from_item(none[i]),
    ) =~= Seq::empty());
}

/// The column of the calls is read as what its JSON is; a column that is empty or
/// no JSON has no calls.
pub proof fn law_calls_column(text: Seq<char>)
    ensures
        decoded_tool_calls(None).len() == 0,
        parsed_json(text) is None ==> decoded_tool_calls(Some(text)).len() == 0,
        parsed_json(text) matches Some(value) ==> decoded_tool_calls(Some(text))
            == calls_from_value(value),
{
}

// ---------------------------------------------------------------------------
// Rows
// ---------------------------------------------------------------------------

/// The extra fields of a message are its columns of those names, and no others.
proof fn lemma_extra_fields(row: MessageRowView)
    ensures
        ({
            let extra = crate::hermes::read::extra_of(row);
            &&& extra.field("finish_reason"@) == as_field(row.finish_reason)
            &&& extra.field("reasoning_content"@) == as_field(row.reasoning_content)
            &&& extra.field("reasoning_details"@) == as_field(row.reasoning_details)
            &&& extra.field("tool_name"@) == as_field(row.tool_name)
            &&& extra.field("tool_call_id"@) == as_field(row.tool_call_id)
            &&& forall|key: Seq<char>| #[trigger]
                extra.field(key) is Some ==> key == "finish_reason"@ || key
                    == "reasoning_content"@ || key == "reasoning_details"@ || key == "tool_name"@
                    || key == "tool_call_id"@
        }),
{
    reveal_strlit("finish_reason");
    reveal_strlit("reasoning_content");
    reveal_strlit("reasoning_details");
    reveal_strlit("tool_name");
    reveal_strlit("tool_call_id");
    assert("finish_reason"@.len() == 13 && "reasoning_content"@.len() == 17
        && "reasoning_details"@.len() == 17 && "tool_name"@.len() == 9 && "tool_call_id"@.len()
        == 12);
    assert("reasoning_content"@[10] == 'c' && "reasoning_details"@[10] == 'd');
}

/// A column as a field: its text, if it has one.
pub open spec fn as_field(column: Option<Seq<char>>) -> Option<JsonTree> {
    match column {
        Some(text) => Some(JsonTree::Text(text)),
        None => None,
    }
}

/// Of a row every column goes into the message that it is read as.
pub proof fn law_row_is_read_column_by_column(row: MessageRowView, model: Option<Seq<char>>)
    ensures
        ({
            let message = message_of_row(row, model);
            &&& message.role == role_named(row.role)
            &&& (row.content matches Some(stored) ==> message.content == decoded_content(stored))
            &&& (row.content is None ==> message.content.len() == 0)
            &&& message.timestamp == Some(row.timestamp)
            &&& message.author == model
            &&& message.tool_calls == decoded_tool_calls(row.tool_calls)
            &&& (row.role == "tool"@ ==> message.tool_results.len() == 1
                && message.tool_results[0].call_id == row.tool_call_id
                && message.tool_results[0].content == message.content
                && !message.tool_results[0].is_error)
            &&& (row.role != "tool"@ ==> message.tool_results.len() == 0)
            &&& message.extra.field("finish_reason"@) == as_field(row.finish_reason)
            &&& message.extra.field("reasoning_content"@) == as_field(row.reasoning_content)
            &&& message.extra.field("reasoning_details"@) == as_field(row.reasoning_details)
            &&& message.extra.field("tool_name"@) == as_field(row.tool_name)
            &&& message.extra.field("tool_call_id"@) == as_field(row.tool_call_id)
            &&& forall|key: Seq<char>| #[trigger]
                message.extra.field(key) is Some ==> key == "finish_reason"@ || key
                    == "reasoning_content"@ || key == "reasoning_details"@ || key == "tool_name"@
                    || key == "tool_call_id"@
        }),
{
    lemma_extra_fields(row);
    crate::model::law_roles_are_known_by_their_names(row.role);
    reveal_strlit("\x00json:");
    assert("\x00json:"@.len() == 6);
}

/// Each row is one message, in the order of the rows and numbered by its place;
/// the session has what its row has, and for its title what the user said first,
/// else the title that was stored, unless that is empty.
pub proof fn law_session_is_read_from_its_rows(
    row: SessionRowView,
    rows: Seq<MessageRowView>,
    source_path: Seq<char>,
)
    ensures
        ({
            let session = session_of_rows(row, rows, source_path);
            &&& session.session_id == row.id
            &&& session.provider_slug == "hermes"@
            &&& session.workspace == row.cwd
            &&& session.started_at == row.started_at
            &&& session.ended_at == row.ended_at
            &&& session.model_name == row.model
            &&& session.source_path == source_path
            &&& session.messages.len() == rows.len()
            &&& forall|i: int|
                #![trigger session.messages[i]]
                0 <= i < rows.len() ==> session.messages[i] == (MessageView {
                    idx: i as nat,
                    ..message_of_row(rows[i], row.model)
                })
            &&& (title_from(session.messages) is Some ==> session.title == title_from(
                session.messages,
            ))
            &&& (title_from(session.messages) is None ==> (row.title matches Some(title)
                && title.len() > 0 ==> session.title == row.title))
            &&& (title_from(session.messages) is None && !(row.title matches Some(title)
                && title.len() > 0) ==> session.title is None)
            &&& (row.source matches Some(source) ==> session.metadata.field("source"@) == Some(
                JsonTree::Text(source),
            ) && session.metadata.field("hermes_source"@) == Some(JsonTree::Text(source)))
            &&& (row.source is None ==> session.metadata.field("source"@) == Some(
                JsonTree::Text("hermes"@),
            ) && session.metadata.field("hermes_source"@) is None)
            &&& forall|key: Seq<char>| #[trigger]
                session.metadata.field(key) is Some ==> key == "source"@ || key == "hermes_source"@
        }),
{
    reveal_strlit("source");
    reveal_strlit("hermes_source");
    assert("source"@.len() == 6 && "hermes_source"@.len() == 13);
}

/// A session cannot be read for the reason that was found, and can be read
/// exactly where it was found with all of its rows.
pub proof fn law_what_cannot_be_read(row: SessionRow, messages: Vec<Option<MessageRow>>)
    ensures
        read_error(StoredSession::Unopened) == Some(HermesReadError::CannotOpen),
        read_error(StoredSession::NoTable) == Some(HermesReadError::NotHermes),
        read_error(StoredSession::Unqueried) == Some(HermesReadError::QueryFailed),
        read_error(StoredSession::Missing) == Some(HermesReadError::NoSession),
        read_error(StoredSession::NoMessages) == Some(HermesReadError::MessagesFailed),
        (forall|i: int| 0 <= i < messages@.len() ==> #[trigger] messages@[i] is Some)
            ==> read_error(StoredSession::Found { row, messages }) is None,
        (exists|i: int| 0 <= i < messages@.len() && #[trigger] messages@[i] is None) ==> read_error(
            StoredSession::Found { row, messages },
        ) == Some(HermesReadError::MessagesFailed),
{
    if exists|i: int| 0 <= i < messages@.len() && #[trigger] messages@[i] is None {
        let i = choose|i: int| 0 <= i < messages@.len() && #[trigger] messages@[i] is None;
        assert(!(messages@[i] is Some));
    }
}

/// Nothing of a row is left out of what it is said to hold.
pub proof fn law_rows_hold_their_columns(
    session: SessionRow,
    message: MessageRow,
    rows: Seq<Option<MessageRow>>,
)
    ensures
        session@.id == session.id@,
        session@.source == opt_text(session.source),
        session@.model == opt_text(session.model),
        session@.started_at == session.started_at,
        session@.ended_at == session.ended_at,
        session@.cwd == opt_text(session.cwd),
        session@.title == opt_text(session.title),
        message@.role == message.role@,
        message@.content == opt_text(message.content),
        message@.tool_call_id == opt_text(message.tool_call_id),
        message@.tool_calls == opt_text(message.tool_calls),
        message@.tool_name == opt_text(message.tool_name),
        message@.timestamp == message.timestamp,
        message@.finish_reason == opt_text(message.finish_reason),
        message@.reasoning_content == opt_text(message.reasoning_content),
        message@.reasoning_details == opt_text(message.reasoning_details),
        row_views(rows).len() == rows.len(),
        forall|i: int|
            0 <= i < rows.len() && #[trigger] rows[i] is Some ==> row_views(rows)[i]
                == rows[i]->0@,
{
}

// ---------------------------------------------------------------------------
// Writing
// ---------------------------------------------------------------------------

/// Each role is stored under its name, and one that Hermes does not know as the
/// assistant's.
pub proof fn law_stored_role_names(name: Seq<char>)
    ensures
        hermes_role_name(RoleView::User) == "user"@,
        hermes_role_name(RoleView::Assistant) == "assistant"@,
        hermes_role_name(RoleView::Tool) == "tool"@,
        hermes_role_name(RoleView::System) == "system"@,
        hermes_role_name(RoleView::Other(name)) == "assistant"@,
{
}

/// What is stored of a session is its model, its start, its workspace and its
/// title, under the new identifier; where it has no start, the time of writing.
pub proof fn law_session_row_holds_the_session(session: SessionView, id: Seq<char>, now_secs: i64)
    ensures
        ({
            let row = session_insert(session, id, now_secs);
            &&& row.id == id
            &&& row.source == "casr_import"@
            &&& row.model == session.model_name
            &&& row.cwd == session.workspace
            &&& row.title == session.title
            &&& (session.started_at matches Some(ms) ==> row.started_at == Stamp::Millis(ms))
            &&& (session.started_at is None ==> row.started_at == Stamp::Seconds(now_secs))
        }),
{
}

/// What is stored of a message is its role, its content, its calls and its time,
/// the name of the first tool that it calls, and the call that its first result
/// answers.
pub proof fn law_message_row_holds_the_message(message: MessageView, id: Seq<char>, now_secs: i64)
    ensures
        ({
            let row = message_insert(message, id, now_secs);
            &&& row.session_id == id
            &&& row.role == hermes_role_name(message.role)
            &&& row.content == encoded_content(message)
            &&& row.tool_calls == encoded_tool_calls(message.tool_calls)
            &&& (message.tool_calls.len() > 0 ==> row.tool_name == Some(message.tool_calls[0].name))
            &&& (message.tool_calls.len() == 0 ==> row.tool_name is None)
            &&& (message.tool_results.len() > 0 ==> row.tool_call_id
                == message.tool_results[0].call_id)
            &&& (message.tool_results.len() == 0 ==> row.tool_call_id is None)
            &&& (message.timestamp matches Some(ms) ==> row.timestamp == Stamp::Millis(ms))
            &&& (message.timestamp is None ==> row.timestamp == Stamp::Seconds(now_secs))
        }),
{
}

/// The steps insert the session, and then each message, all of them and in order,
/// each counted with the number of its calls.
pub proof fn law_every_message_is_written(session: SessionView, id: Seq<char>, now_secs: i64)
    ensures
        ({
            let steps = write_steps(session, id, now_secs);
            &&& steps.len() == 1 + 2 * session.messages.len()
            &&& steps[0] == WriteStepView::InsertSession(session_insert(session, id, now_secs))
            &&& forall|i: int|
                #![trigger session.messages[i]]
                0 <= i < session.messages.len() ==> steps[1 + 2 * i]
                    == WriteStepView::InsertMessage(
                    message_insert(session.messages[i], id, now_secs),
                ) && steps[2 + 2 * i] == (WriteStepView::CountMessage {
                    session_id: id,
                    tool_calls: session.messages[i].tool_calls.len(),
                })
        }),
{
    let steps = write_steps(session, id, now_secs);
    assert forall|i: int| #![trigger session.messages[i]] 0 <= i < session.messages.len() implies (
    steps[1 + 2 * i] == WriteStepView::InsertMessage(
        message_insert(session.messages[i], id, now_secs),
    ) && steps[2 + 2 * i] == (WriteStepView::CountMessage {
        session_id: id,
        tool_calls: session.messages[i].tool_calls.len(),
    })) by {
        assert((1 + 2 * i) % 2 == 1 && (1 + 2 * i - 1) / 2 == i);
        assert((2 + 2 * i) % 2 == 0 && (2 + 2 * i - 2) / 2 == i);
    }
}

/// The calls of one more message are counted with the others.
pub proof fn law_calls_are_counted_by_message(messages: Seq<MessageView>, message: MessageView)
    ensures
        total_tool_calls(Seq::empty()) == 0,
        total_tool_calls(messages.push(message)) == total_tool_calls(messages)
            + message.tool_calls.len(),
{
    assert(messages.push(message).drop_last() =~= messages);
}

/// Nothing of a statement is left out of what it is said to hold.
pub proof fn law_statements_hold_their_columns(
    session: SessionInsert,
    message: MessageInsert,
    session_id: String,
    tool_calls: usize,
    steps: Seq<WriteStep>,
)
    ensures
        session@.id == session.id@,
        session@.source == session.source@,
        session@.model == opt_text(session.model),
        session@.started_at == session.started_at,
        session@.cwd == opt_text(session.cwd),
        session@.title == opt_text(session.title),
        message@.session_id == message.session_id@,
        message@.role == message.role@,
        message@.content == message.content@,
        message@.tool_call_id == opt_text(message.tool_call_id),
        message@.tool_calls == opt_text(message.tool_calls),
        message@.tool_name == opt_text(message.tool_name),
        message@.timestamp == message.timestamp,
        WriteStep::InsertSession(session)@ == WriteStepView::InsertSession(session@),
        WriteStep::InsertMessage(message)@ == WriteStepView::InsertMessage(message@),
        (WriteStep::CountMessage { session_id, tool_calls })@ == (WriteStepView::CountMessage {
            session_id: session_id@,
            tool_calls: tool_calls as nat,
        }),
        step_views(steps).len() == steps.len(),
        forall|i: int| 0 <= i < steps.len() ==> step_views(steps)[i] == (#[trigger] steps[i])@,
{
}

// ---------------------------------------------------------------------------
// Writing and reading back
// ---------------------------------------------------------------------------

/// A row that was written is read with the columns that were written, and with
/// no others.
pub proof fn law_written_rows_are_read_as_written(
    session: SessionInsertView,
    message: MessageInsertView,
    millis: i64,
)
    ensures
        ({
            let row = written_row(message, millis);
            &&& row.role == message.role
            &&& row.content == Some(message.content)
            &&& row.tool_call_id == message.tool_call_id
            &&& row.tool_calls == message.tool_calls
            &&& row.tool_name == message.tool_name
            &&& row.timestamp == millis
            &&& row.finish_reason is None
            &&& row.reasoning_content is None
            &&& row.reasoning_details is None
        }),
        ({
            let row = written_session_row(session, millis);
            &&& row.id == session.id
            &&& row.source == Some(session.source)
            &&& row.model == session.model
            &&& row.started_at == Some(millis)
            &&& row.ended_at is None
            &&& row.cwd == session.cwd
            &&& row.title == session.title
        }),
{
}

/// A message is not lost in its encoding where the arguments of its calls have no
/// floats and are nested no deeper than 124 levels, and where it carries tool
/// calls or results or does not begin with the prefix that marks JSON text.
pub proof fn law_ordinary_messages_survive(message: MessageView)
    requires
        forall|i: int|
            0 <= i < message.tool_calls.len() ==> (
            #[trigger] message.tool_calls[i]).arguments.float_free_within(124),
        message.tool_calls.len() > 0 || message.tool_results.len() > 0
            || !("\x00json:"@.is_prefix_of(message.content)),
    ensures
        survives_encoding(message),
{
    law_float_free_arguments_read_back(message.tool_calls, 124);
}

/// A session survives where all of its messages are such.
pub proof fn law_ordinary_sessions_survive(session: SessionView)
    requires
        forall|m: int, i: int|
            0 <= m < session.messages.len() && 0 <= i < session.messages[m].tool_calls.len()
                ==> (#[trigger] session.messages[m].tool_calls[i]).arguments.float_free_within(124),
        forall|m: int|
            0 <= m < session.messages.len() ==> (#[trigger] session.messages[m]).tool_calls.len()
                > 0 || session.messages[m].tool_results.len() > 0 || !("\x00json:"@.is_prefix_of(
                session.messages[m].content,
            )),
    ensures
        session_survives_encoding(session),
{
    assert forall|m: int| 0 <= m < session.messages.len() implies survives_encoding(
        #[trigger] session.messages[m],
    ) by {
        law_ordinary_messages_survive(session.messages[m]);
    }
}

/// What is read back of a message is its text, whole, its role, if Hermes knows
/// it, and its calls, each with its name and its arguments; of a tool's message,
/// the call that it answers.
pub proof fn law_message_comes_back_whole(
    message: MessageView,
    millis: i64,
    model: Option<Seq<char>>,
)
    ensures
        ({
            let back = message_read_back(message, millis, model);
            &&& back.content == message.content
            &&& (message.role is Other ==> back.role is Assistant)
            &&& (!(message.role is Other) ==> back.role == message.role)
            &&& back.timestamp == Some(millis)
            &&& back.author == model
            &&& back.tool_calls.len() == message.tool_calls.len()
            &&& forall|i: int|
                #![trigger message.tool_calls[i]]
                0 <= i < message.tool_calls.len() ==> back.tool_calls[i].name
                    == message.tool_calls[i].name && back.tool_calls[i].arguments
                    == message.tool_calls[i].arguments && (message.tool_calls[i].id matches Some(id)
                    ==> back.tool_calls[i].id == Some(id)) && (message.tool_calls[i].id is None
                    ==> back.tool_calls[i].id == Some(Seq::<char>::empty()))
            &&& (message.role is Tool ==> back.tool_results.len() == 1
                && back.tool_results[0].content == message.content
                && !back.tool_results[0].is_error)
            &&& (message.role is Tool && message.tool_results.len() > 0
                ==> back.tool_results[0].call_id == message.tool_results[0].call_id)
            &&& (message.role is Tool && message.tool_results.len() == 0
                ==> back.tool_results[0].call_id is None)
            &&& (!(message.role is Tool) ==> back.tool_results.len() == 0)
            &&& (message.tool_calls.len() > 0 ==> back.extra.field("tool_name"@) == Some(
                JsonTree::Text(message.tool_calls[0].name),
            ))
            &&& (message.tool_calls.len() == 0 ==> back.extra.field("tool_name"@) is None)
            &&& (message.tool_results.len() > 0 ==> back.extra.field("tool_call_id"@) == as_field(
                message.tool_results[0].call_id,
            ))
            &&& (message.tool_results.len() == 0 ==> back.extra.field("tool_call_id"@) is None)
        }),
{
    reveal_strlit("tool_name");
    reveal_strlit("tool_call_id");
    assert("tool_name"@.len() == 9 && "tool_call_id"@.len() == 12);
}

/// Calls come back all and in order, each with its name and its arguments; one
/// that had no identifier has the empty one.
pub proof fn law_calls_come_back_whole(calls: Seq<ToolCallView>)
    ensures
        calls_with_ids(calls).len() == calls.len(),
        forall|i: int|
            #![trigger calls[i]]
            0 <= i < calls.len() ==> {
                let back = calls_with_ids(calls)[i];
                &&& back.name == calls[i].name
                &&& back.arguments == calls[i].arguments
                &&& (calls[i].id matches Some(id) ==> back.id == Some(id))
                &&& (calls[i].id is None ==> back.id == Some(Seq::<char>::empty()))
            },
{
}

/// What is read back of a session is its workspace, its model and all of its
/// messages, in order.
pub proof fn law_session_comes_back_whole(
    session: SessionView,
    id: Seq<char>,
    started: i64,
    times: Seq<i64>,
    source_path: Seq<char>,
    now_secs: i64,
)
    ensures
        ({
            let back = session_read_back(session, id, started, times, source_path);
            &&& back.session_id == id
            &&& back.provider_slug == "hermes"@
            &&& back.workspace == session.workspace
            &&& back.model_name == session.model_name
            &&& back.started_at == Some(started)
            &&& back.ended_at is None
            &&& back.source_path == source_path
            &&& back.metadata.field("source"@) == Some(JsonTree::Text("casr_import"@))
            &&& back.metadata.field("hermes_source"@) == Some(JsonTree::Text("casr_import"@))
            &&& (title_from(session.messages) is None ==> (session.title matches Some(title)
                && title.len() > 0 ==> back.title == session.title))
            &&& (title_from(session.messages) is Some ==> back.title == title_from(
                session.messages,
            ))
            &&& back.messages.len() == session.messages.len()
            &&& forall|i: int|
                #![trigger session.messages[i]]
                0 <= i < session.messages.len() ==> back.messages[i] == (MessageView {
                    idx: i as nat,
                    ..message_read_back(session.messages[i], times[i], session.model_name)
                })
        }),
        ({
            let rows = written_rows(session, id, now_secs, times);
            &&& rows.len() == session.messages.len()
            &&& forall|i: int|
                #![trigger session.messages[i]]
                0 <= i < session.messages.len() ==> rows[i] == written_row(
                    message_insert(session.messages[i], id, now_secs),
                    times[i],
                )
        }),
{
    reveal_strlit("source");
    reveal_strlit("hermes_source");
    assert("source"@.len() == 6 && "hermes_source"@.len() == 13);
}

/// A try that failed is followed by another, after 25 milliseconds, exactly when
/// its message says in any case that the database is locked or busy and fewer
/// than five tries have been made; one that succeeded by none.
pub proof fn law_only_a_locked_database_is_tried_again(attempt: int, message: Seq<char>)
    ensures
        after_write(attempt, None) == AfterWrite::Written,
        after_write(attempt, Some(message)) == (if attempt < 4 && (contains_text(
            lowered(message),
            "locked"@,
        ) || contains_text(lowered(message), "busy"@)) {
            AfterWrite::RetryAfter(25)
        } else {
            AfterWrite::GiveUp
        }),
{
}

// ---------------------------------------------------------------------------
// Places and lists
// ---------------------------------------------------------------------------

/// The directory of Hermes is the first that is known of: the one that is named,
/// `hermes` in the cache directory or in the local data, `.hermes` at home.
pub proof fn law_home_is_the_first_known(env: HermesEnv)
    ensures
        env.hermes_home matches Some(home) ==> hermes_home(env) == Some(
            PlaceView { base: BaseView::Named(home@), parts: Seq::empty() },
        ),
        env.hermes_home is None && env.has_cache_dir ==> hermes_home(env) == Some(
            PlaceView { base: BaseView::CacheDir, parts: seq!["hermes"@] },
        ),
        env.hermes_home is None && !env.has_cache_dir ==> (env.local_app_data matches Some(local)
            ==> hermes_home(env) == Some(
            PlaceView { base: BaseView::Named(local@), parts: seq!["hermes"@] },
        )),
        env.hermes_home is None && !env.has_cache_dir && env.local_app_data is None
            && env.has_user_home ==> hermes_home(env) == Some(
            PlaceView { base: BaseView::UserHome, parts: seq![".hermes"@] },
        ),
        env.hermes_home is None && !env.has_cache_dir && env.local_app_data is None
            && !env.has_user_home ==> hermes_home(env) is None,
{
    if let Some(home) = hermes_home(env) {
        assert(home.parts =~= Seq::empty() || home.parts =~= seq!["hermes"@] || home.parts
            =~= seq![".hermes"@]);
    }
}

/// A profile that is named, whatever its name, has its database in its own
/// directory; where none is, the database is in the home directory.
pub proof fn law_profile_has_its_own_database(home: PlaceView, profile: Seq<char>)
    ensures
        database_in(home, None).base == home.base,
        database_in(home, None).parts == home.parts.push("state.db"@),
        trimmed(profile).len() == 0 ==> database_in(home, Some(profile)) == database_in(home, None),
        trimmed(profile).len() > 0 ==> database_in(home, Some(profile)).base == home.base
            && database_in(home, Some(profile)).parts == home.parts + seq![
            "profiles"@,
            trimmed(profile),
            "state.db"@,
        ],
{
    if trimmed(profile).len() > 0 {
        assert(database_in(home, Some(profile)).parts =~= home.parts + seq![
            "profiles"@,
            trimmed(profile),
            "state.db"@,
        ]);
    }
}

/// A path means the session of its last name exactly when it stands below a file
/// and is none itself.
pub proof fn law_path_below_a_file_names_a_session(
    is_file: bool,
    parent_is_file: Option<bool>,
    name: Option<Seq<char>>,
    id: Seq<char>,
)
    ensures
        !is_file && parent_is_file == Some(true) ==> resolved(is_file, parent_is_file, name) == (
            DbPath::Parent,
            name,
        ),
        is_file || parent_is_file != Some(true) ==> resolved(is_file, parent_is_file, name) == (
            DbPath::Given,
            None::<Seq<char>>,
        ),
        virtual_path(id).base == BaseView::StateDb,
        virtual_path(id).parts == seq![id],
{
    assert(virtual_path(id).parts =~= seq![id]);
}

/// Every row that can be read is listed, with the virtual path of its session,
/// however many there are, and nothing else is; the entries stand in the order of
/// their rows. `at` says of which row each entry is.
pub proof fn law_every_readable_row_is_listed(rows: Vec<Option<String>>) -> (at: Seq<int>)
    ensures
        listed(Some(DbProbe::Answer(Listing::Rows(rows)))) matches Some(entries) && entries.len()
            == at.len() && forall|k: int|
            #![trigger at[k]]
            0 <= k < at.len() ==> 0 <= at[k] < rows@.len() && (rows@[at[k]] matches Some(id)
                && entries[k].0 == id@ && entries[k].1.base == BaseView::StateDb
                && entries[k].1.parts == seq![id@]),
        forall|k: int, l: int| 0 <= k < l < at.len() ==> #[trigger] at[k] < #[trigger] at[l],
        forall|i: int| 0 <= i < rows@.len() && #[trigger] rows@[i] is Some ==> at.contains(i),
{
    let found = Seq::new(rows@.len(), |i: int| opt_text(rows@[i]));
    let at = law_all_that_is_there_is_kept(found);
    let entries = listed(Some(DbProbe::Answer(Listing::Rows(rows)))).unwrap();
    assert forall|k: int| #![trigger at[k]] 0 <= k < at.len() implies 0 <= at[k] < rows@.len() && (
    rows@[at[k]] matches Some(id) && entries[k].0 == id@ && entries[k].1.base
        == BaseView::StateDb && entries[k].1.parts == seq![id@]) by {
        assert(found[at[k]] is Some);
        law_path_below_a_file_names_a_session(false, None, None, entries[k].0);
    }
    assert forall|i: int| 0 <= i < rows@.len() && #[trigger] rows@[i] is Some implies at.contains(
        i,
    ) by {
        assert(found[i] is Some);
    }
    at
}

/// Where all rows can be read, the list is of all their identifiers.
pub proof fn law_readable_list_is_whole(ids: Seq<Seq<char>>, rows: Vec<Option<String>>)
    requires
        rows@.len() == ids.len(),
        forall|i: int|
            0 <= i < ids.len() ==> (#[trigger] rows@[i] matches Some(id) && id@ == ids[i]),
    ensures
        listed(Some(DbProbe::Answer(Listing::Rows(rows)))) matches Some(entries) && entries.len()
            == ids.len() && forall|i: int|
            0 <= i < ids.len() ==> (#[trigger] entries[i]).0 == ids[i] && entries[i].1.parts == seq![
                ids[i],
            ],
{
    let found = Seq::new(rows@.len(), |i: int| opt_text(rows@[i]));
    assert forall|i: int| 0 <= i < found.len() implies #[trigger] found[i] == Some(ids[i]) by {
        assert(rows@[i] is Some);
    }
    lemma_kept_all(found, ids);
    let entries = listed(Some(DbProbe::Answer(Listing::Rows(rows)))).unwrap();
    assert forall|i: int| 0 <= i < ids.len() implies (#[trigger] entries[i]).0 == ids[i]
        && entries[i].1.parts == seq![ids[i]] by {
        law_path_below_a_file_names_a_session(false, None, None, ids[i]);
    }
}

/// The entries of a list are their identifiers and places, all of them and in
/// order.
pub proof fn law_entries_hold_their_parts(entries: Seq<(String, Place)>)
    ensures
        entry_views(entries).len() == entries.len(),
        forall|i: int|
            #![trigger entries[i]]
            0 <= i < entries.len() ==> entry_views(entries)[i].0 == entries[i].0@ && entry_views(
                entries,
            )[i].1 == entries[i].1@,
{
}

/// A database that cannot be questioned lists nothing; where it is not known, or
/// the question could not be put, there is no list.
pub proof fn law_silent_database_lists_nothing()
    ensures
        listed(None) is None,
        listed(Some(DbProbe::Answer(Listing::Unqueried))) is None,
        listed(Some(DbProbe::NotAFile)) == Some(Seq::<(Seq<char>, PlaceView)>::empty()),
        listed(Some(DbProbe::Unopened)) == Some(Seq::<(Seq<char>, PlaceView)>::empty()),
        listed(Some(DbProbe::NoTable)) == Some(Seq::<(Seq<char>, PlaceView)>::empty()),
        listed(Some(DbProbe::Answer(Listing::Unprepared))) == Some(
            Seq::<(Seq<char>, PlaceView)>::empty(),
        ),
{
}

} // verus!
