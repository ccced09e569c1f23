//! What the `content`, `role` and `tool_calls` columns of a Hermes database
//! hold.
//!
//! A message without tool payloads is stored as its text. A message with tool
//! payloads is stored as a prefix and the JSON text of its content blocks, so
//! that the structure is not lost.

use crate::json::{
    item_trees, law_float_free_is_read_back, lemma_item_trees, parse_json, parsed_json, print_json, printed_json, put_field,
    put_item, text_value, Json, JsonTree,
};
use crate::model::{
    block_text, call_views, flatten_content, flattened, kept, lemma_kept_all,
    lemma_kept_none_behind, opt_str, opt_text, role_named, CanonicalMessage, MessageRole,
    MessageView, RoleView, ToolCall, ToolCallView, ToolResult, ToolResultView,
};
use crate::text::{joined, strip_prefix};
use vstd::prelude::*;

verus! {

/// Marks content that is JSON text.
pub const CONTENT_JSON_PREFIX: &'static str = "\x00json:";

// ---------------------------------------------------------------------------
// Roles
// ---------------------------------------------------------------------------

/// The name under which Hermes stores a role.
pub open spec fn hermes_role_name(role: RoleView) -> Seq<char> {
    match role {
        RoleView::User => "user"@,
        RoleView::Assistant => "assistant"@,
        RoleView::Tool => "tool"@,
        RoleView::System => "system"@,
        RoleView::Other(_) => "assistant"@,
    }
}

/// The name under which Hermes stores a role.
pub fn hermes_role_str(role: &MessageRole) -> (name: &'static str)
    ensures
        name@ == hermes_role_name(role@),
{
    match role {
        MessageRole::User => "user",
        MessageRole::Assistant => "assistant",
        MessageRole::Tool => "tool",
        MessageRole::System => "system",
        MessageRole::Other(_) => "assistant",
    }
}

/// The role that a stored role is read as: the role itself, and the assistant
/// in place of a role that Hermes does not know.
pub open spec fn stored_role(role: RoleView) -> RoleView {
    match role {
        RoleView::Other(_) => RoleView::Assistant,
        _ => role,
    }
}

/// A role that Hermes knows is read back as it was stored; any other role is
/// read back as the assistant.
pub proof fn law_role_round_trip(role: RoleView)
    ensures
        role_named(hermes_role_name(role)) == stored_role(role),
{
    reveal_strlit("user");
    reveal_strlit("assistant");
    reveal_strlit("tool");
    reveal_strlit("system");
    assert("user"@.len() == 4 && "assistant"@.len() == 9 && "tool"@.len() == 4 && "system"@.len()
        == 6);
    assert("user"@[0] == 'u' && "tool"@[0] == 't');
}

// ---------------------------------------------------------------------------
// Content
// ---------------------------------------------------------------------------

/// The content block of a text.
pub open spec fn text_block(text: Seq<char>) -> JsonTree {
    JsonTree::Object(map!["type"@ => JsonTree::Text("text"@), "text"@ => JsonTree::Text(text)])
}

/// An optional identifier, the empty one where there is none.
pub open spec fn id_or_empty(id: Option<Seq<char>>) -> Seq<char> {
    match id {
        Some(text) => text,
        None => Seq::empty(),
    }
}

/// The content block of a tool call.
pub open spec fn tool_use_block(call: ToolCallView) -> JsonTree {
    JsonTree::Object(
        map![
            "type"@ => JsonTree::Text("tool_use"@),
            "id"@ => JsonTree::Text(id_or_empty(call.id)),
            "name"@ => JsonTree::Text(call.name),
            "input"@ => call.arguments,
        ],
    )
}

/// The content block of a tool result.
pub open spec fn tool_result_block(result: ToolResultView) -> JsonTree {
    JsonTree::Object(
        map![
            "type"@ => JsonTree::Text("tool_result"@),
            "tool_use_id"@ => JsonTree::Text(id_or_empty(result.call_id)),
            "content"@ => JsonTree::Text(result.content),
            "is_error"@ => JsonTree::Bool(result.is_error),
        ],
    )
}

/// The content blocks of a message: its text, unless that is empty, then its
/// tool calls, then its tool results.
pub open spec fn content_blocks(message: MessageView) -> Seq<JsonTree> {
    (if message.content.len() > 0 {
        seq![text_block(message.content)]
    } else {
        Seq::empty()
    }) + message.tool_calls.map_values(|call: ToolCallView| tool_use_block(call))
        + message.tool_results.map_values(|result: ToolResultView| tool_result_block(result))
}

/// The message carries tool calls or tool results.
pub open spec fn has_tool_payload(message: MessageView) -> bool {
    message.tool_calls.len() > 0 || message.tool_results.len() > 0
}

/// What is stored as the content of a message.
pub open spec fn encoded_content(message: MessageView) -> Seq<char> {
    if has_tool_payload(message) {
        CONTENT_JSON_PREFIX@ + printed_json(JsonTree::Array(content_blocks(message)))
    } else {
        message.content
    }
}

/// The text that stored content is read as.
pub open spec fn decoded_content(stored: Seq<char>) -> Seq<char> {
    if CONTENT_JSON_PREFIX@.is_prefix_of(stored) {
        match parsed_json(stored.skip(CONTENT_JSON_PREFIX@.len() as int)) {
            Some(content) => flattened(content),
            None => stored,
        }
    } else {
        stored
    }
}

/// An optional identifier, the empty one where there is none.
fn id_text(id: &Option<String>) -> (text: &str)
    ensures
        text@ == id_or_empty(opt_text(*id)),
{
    match id {
        Some(text) => text.as_str(),
        None => {
            proof {
                reveal_strlit("");
                assert(""@ =~= Seq::empty());
            }
            ""
        },
    }
}

/// The content block of a text.
fn text_block_value(text: &str) -> (block: Json)
    ensures
        block@ == text_block(text@),
{
    let mut fields: Vec<(String, Json)> = Vec::new();
    put_field(&mut fields, "type", text_value("text"));
    put_field(&mut fields, "text", text_value(text));
    Json::Object(fields)
}

/// The content block of a tool call.
fn tool_use_block_value(call: &ToolCall) -> (block: Json)
    ensures
        block@ == tool_use_block(call@),
{
    let mut fields: Vec<(String, Json)> = Vec::new();
    put_field(&mut fields, "type", text_value("tool_use"));
    put_field(&mut fields, "id", text_value(id_text(&call.id)));
    put_field(&mut fields, "name", text_value(call.name.as_str()));
    put_field(&mut fields, "input", call.arguments.clone());
    Json::Object(fields)
}

/// The content block of a tool result.
fn tool_result_block_value(result: &ToolResult) -> (block: Json)
    ensures
        block@ == tool_result_block(result@),
{
    let mut fields: Vec<(String, Json)> = Vec::new();
    put_field(&mut fields, "type", text_value("tool_result"));
    put_field(&mut fields, "tool_use_id", text_value(id_text(&result.call_id)));
    put_field(&mut fields, "content", text_value(result.content.as_str()));
    put_field(&mut fields, "is_error", Json::Bool(result.is_error));
    Json::Object(fields)
}

/// The content blocks of a message, as one array.
pub fn message_blocks(msg: &CanonicalMessage) -> (blocks: Json)
    ensures
        blocks@ == JsonTree::Array(content_blocks(msg@)),
{
    let ghost all = content_blocks(msg@);
    let mut items: Vec<Json> = Vec::new();
    if !msg.content.as_str().is_empty() {
        put_item(&mut items, text_block_value(msg.content.as_str()));
    }
    let ghost start: int = if msg.content@.len() > 0 {
        1
    } else {
        0
    };
    assert(item_trees(items@) =~= all.take(start));
    let mut at: usize = 0;
    while at < msg.tool_calls.len()
        invariant
            at <= msg.tool_calls@.len(),
            all == content_blocks(msg@),
            start == (if msg.content@.len() > 0 {
                1int
            } else {
                0int
            }),
            item_trees(items@) == all.take(start + at),
        decreases msg.tool_calls@.len() - at,
    {
        put_item(&mut items, tool_use_block_value(&msg.tool_calls[at]));
        assert(all[start + at] == tool_use_block(msg.tool_calls@[at as int]@));
        at += 1;
        assert(item_trees(items@) =~= all.take(start + at));
    }
    let mut found: usize = 0;
    let ghost calls: int = at as int;
    while found < msg.tool_results.len()
        invariant
            found <= msg.tool_results@.len(),
            all == content_blocks(msg@),
            calls == msg.tool_calls@.len(),
            start == (if msg.content@.len() > 0 {
                1int
            } else {
                0int
            }),
            item_trees(items@) == all.take(start + calls + found),
        decreases msg.tool_results@.len() - found,
    {
        put_item(&mut items, tool_result_block_value(&msg.tool_results[found]));
        assert(all[start + calls + found] == tool_result_block(msg.tool_results@[found as int]@));
        found += 1;
        assert(item_trees(items@) =~= all.take(start + calls + found));
    }
    assert(all.take(start + calls + found) =~= all);
    Json::Array(items)
}

/// A text block has its text; the blocks of tool calls and tool results have
/// none.
proof fn lemma_block_texts(text: Seq<char>, call: ToolCallView, result: ToolResultView)
    ensures
        block_text(text_block(text)) == Some(text),
        block_text(tool_use_block(call)) is None,
        block_text(tool_result_block(result)) is None,
{
    reveal_strlit("text");
    reveal_strlit("type");
    reveal_strlit("id");
    reveal_strlit("name");
    reveal_strlit("input");
    reveal_strlit("tool_use_id");
    reveal_strlit("content");
    reveal_strlit("is_error");
    assert("text"@.len() == 4 && "type"@.len() == 4 && "name"@.len() == 4);
    assert("text"@[1] == 'e' && "type"@[1] == 'y' && "name"@[0] == 'n' && "text"@[0] == 't');
    assert("id"@.len() == 2 && "input"@.len() == 5 && "tool_use_id"@.len() == 11);
    assert("content"@.len() == 7 && "is_error"@.len() == 8);
}

/// The content blocks of a message flatten to the text of the message: its text
/// survives, and its tool payloads add nothing to it.
pub proof fn law_blocks_flatten_to_content(message: MessageView)
    ensures
        flattened(JsonTree::Array(content_blocks(message))) == message.content,
{
    let blocks = content_blocks(message);
    let found = Seq::new(blocks.len(), |i: int| block_text(blocks[i]));
    let start: int = if message.content.len() > 0 {
        1
    } else {
        0
    };
    let calls = message.tool_calls.len();
    assert forall|i: int| start <= i < found.len() implies #[trigger] found[i] is None by {
        if i < start + calls {
            lemma_block_texts(
                message.content,
                message.tool_calls[i - start],
                arbitrary(),
            );
        } else {
            lemma_block_texts(
                message.content,
                arbitrary(),
                message.tool_results[i - start - calls],
            );
        }
    }
    lemma_kept_none_behind(found, start);
    if start == 1 {
        lemma_block_texts(message.content, arbitrary(), arbitrary());
        lemma_kept_all(found.take(start), seq![message.content]);
    } else {
        lemma_kept_all(found.take(start), Seq::empty());
        assert(message.content =~= Seq::empty());
    }
}

/// The arguments of each call are read back from their JSON text, with at most
/// `levels` levels in them.
pub open spec fn arguments_read_back(calls: Seq<ToolCallView>, levels: nat) -> bool {
    forall|i: int| 0 <= i < calls.len() ==> (#[trigger] calls[i]).arguments.reads_back_within(levels)
}

/// Arguments without floats are read back.
pub proof fn law_float_free_arguments_read_back(calls: Seq<ToolCallView>, levels: nat)
    requires
        forall|i: int|
            0 <= i < calls.len() ==> (#[trigger] calls[i]).arguments.float_free_within(levels),
    ensures
        arguments_read_back(calls, levels),
{
    assert forall|i: int| 0 <= i < calls.len() implies (
    #[trigger] calls[i]).arguments.reads_back_within(levels) by {
        law_float_free_is_read_back(calls[i].arguments, levels);
    }
}

/// How many levels the arguments of a call may have in a content block, which
/// stands two levels deep.
pub const BLOCK_ARGUMENT_LEVELS: usize = 125;

/// Content blocks are read back where the arguments in them are.
proof fn lemma_blocks_read_back(message: MessageView)
    requires
        arguments_read_back(message.tool_calls, BLOCK_ARGUMENT_LEVELS as nat),
    ensures
        JsonTree::Array(content_blocks(message)).reads_back(),
{
    reveal_with_fuel(JsonTree::reads_back_within, 2);
    let blocks = content_blocks(message);
    let start: int = if message.content.len() > 0 {
        1
    } else {
        0
    };
    let calls = message.tool_calls.len();
    assert forall|i: int| 0 <= i < blocks.len() implies (#[trigger] blocks[i]).reads_back_within(
        126,
    ) by {
        if i < start {
            assert(blocks[i] == text_block(message.content));
        } else if i < start + calls {
            let call = message.tool_calls[i - start];
            assert(blocks[i] == tool_use_block(call));
            assert(call.arguments.reads_back_within(125));
        } else {
            assert(blocks[i] == tool_result_block(message.tool_results[i - start - calls]));
        }
    }
}

/// What is stored as the content of a message. What is stored of a message with
/// tool payloads begins with the prefix, and is read back as the text of the
/// message where the arguments of its calls are read back.
pub fn encode_content(msg: &CanonicalMessage) -> (stored: String)
    ensures
        stored@ == encoded_content(msg@),
        has_tool_payload(msg@) ==> CONTENT_JSON_PREFIX@.is_prefix_of(stored@),
        has_tool_payload(msg@) && arguments_read_back(
            msg@.tool_calls,
            BLOCK_ARGUMENT_LEVELS as nat,
        ) ==> decoded_content(stored@) == msg@.content,
{
    if msg.tool_calls.len() == 0 && msg.tool_results.len() == 0 {
        return msg.content.clone();
    }
    let blocks = message_blocks(msg);
    let json = print_json(&blocks);
    let stored = joined(CONTENT_JSON_PREFIX, json.as_str());
    proof {
        assert(stored@.skip(CONTENT_JSON_PREFIX@.len() as int) =~= json@);
        assert(stored@.take(CONTENT_JSON_PREFIX@.len() as int) =~= CONTENT_JSON_PREFIX@);
        if arguments_read_back(msg@.tool_calls, BLOCK_ARGUMENT_LEVELS as nat) {
            lemma_blocks_read_back(msg@);
            law_blocks_flatten_to_content(msg@);
        }
    }
    stored
}

/// The text that stored content is read as.
pub fn decode_content(stored: &str) -> (text: String)
    ensures
        text@ == decoded_content(stored@),
{
    match strip_prefix(stored, CONTENT_JSON_PREFIX) {
        Some(json) => match parse_json(json.as_str()) {
            Some(content) => flatten_content(&content),
            None => stored.to_owned(),
        },
        None => stored.to_owned(),
    }
}

/// The content of a message without tool payloads is stored as it is, and read
/// back as it is: unless it begins with the prefix that marks JSON text and goes
/// on with JSON text.
pub proof fn law_plain_content_round_trip(message: MessageView)
    requires
        !has_tool_payload(message),
        CONTENT_JSON_PREFIX@.is_prefix_of(message.content) ==> parsed_json(
            message.content.skip(CONTENT_JSON_PREFIX@.len() as int),
        ) is None,
    ensures
        encoded_content(message) == message.content,
        decoded_content(encoded_content(message)) == message.content,
{
}

// ---------------------------------------------------------------------------
// Tool calls
// ---------------------------------------------------------------------------

/// What is stored of one tool call.
pub open spec fn stored_call(call: ToolCallView) -> JsonTree {
    JsonTree::Object(
        map![
            "id"@ => JsonTree::Text(id_or_empty(call.id)),
            "type"@ => JsonTree::Text("function"@),
            "function"@ => JsonTree::Object(
                map!["name"@ => JsonTree::Text(call.name), "arguments"@ => call.arguments],
            ),
        ],
    )
}

/// What is stored of tool calls, as one array.
pub open spec fn stored_calls(calls: Seq<ToolCallView>) -> JsonTree {
    JsonTree::Array(calls.map_values(|call: ToolCallView| stored_call(call)))
}

/// What is stored in the `tool_calls` column.
pub open spec fn encoded_tool_calls(calls: Seq<ToolCallView>) -> Option<Seq<char>> {
    if calls.len() == 0 {
        None
    } else {
        Some(printed_json(stored_calls(calls)))
    }
}

/// The text that stands in an object under `key`.
pub open spec fn text_field(object: JsonTree, key: Seq<char>) -> Option<Seq<char>> {
    match object.field(key) {
        Some(value) => value.text(),
        None => None,
    }
}

/// The tool call that a stored item is read as; an item without a `function` is
/// none.
pub open spec fn call_from_item(item: JsonTree) -> Option<ToolCallView> {
    match item.field("function"@) {
        Some(function) => Some(
            ToolCallView {
                id: text_field(item, "id"@),
                name: match text_field(function, "name"@) {
                    Some(name) => name,
                    None => "unknown"@,
                },
                arguments: match function.field("arguments"@) {
                    Some(arguments) => arguments,
                    None => JsonTree::Null,
                },
            },
        ),
        None => None,
    }
}

/// The tool calls that a stored value is read as; one that is no array has none.
pub open spec fn calls_from_value(stored: JsonTree) -> Seq<ToolCallView> {
    match stored {
        JsonTree::Array(items) => kept(Seq::new(items.len(), |i: int| call_from_item(items[i]))),
        _ => Seq::empty(),
    }
}

/// The tool calls that the `tool_calls` column is read as.
pub open spec fn decoded_tool_calls(raw: Option<Seq<char>>) -> Seq<ToolCallView> {
    match raw {
        Some(text) => match parsed_json(text) {
            Some(stored) => calls_from_value(stored),
            None => Seq::empty(),
        },
        None => Seq::empty(),
    }
}

/// A call with its identifier as it is read back: where there was none, it is
/// the empty one.
pub open spec fn call_with_id(call: ToolCallView) -> ToolCallView {
    ToolCallView { id: Some(id_or_empty(call.id)), ..call }
}

/// The calls with their identifiers as they are read back.
pub open spec fn calls_with_ids(calls: Seq<ToolCallView>) -> Seq<ToolCallView> {
    calls.map_values(|call: ToolCallView| call_with_id(call))
}

/// How many levels the arguments of a call may have in the `tool_calls` column,
/// where they stand three levels deep.
pub const CALL_ARGUMENT_LEVELS: usize = 124;

proof fn lemma_stored_call(call: ToolCallView)
    ensures
        call_from_item(stored_call(call)) == Some(call_with_id(call)),
        call.arguments.reads_back_within(CALL_ARGUMENT_LEVELS as nat) ==> stored_call(
            call,
        ).reads_back_within(126),
{
    reveal_with_fuel(JsonTree::reads_back_within, 2);
    reveal_strlit("id");
    reveal_strlit("type");
    reveal_strlit("function");
    reveal_strlit("name");
    reveal_strlit("arguments");
    assert("id"@.len() == 2 && "type"@.len() == 4 && "function"@.len() == 8 && "name"@.len() == 4
        && "arguments"@.len() == 9);
    let item = stored_call(call);
    let function = JsonTree::Object(
        map!["name"@ => JsonTree::Text(call.name), "arguments"@ => call.arguments],
    );
    assert(item.field("function"@) == Some(function));
    assert(item.field("id"@) == Some(JsonTree::Text(id_or_empty(call.id))));
    assert(function.field("name"@) == Some(JsonTree::Text(call.name)));
    assert(function.field("arguments"@) == Some(call.arguments));
    if call.arguments.reads_back_within(CALL_ARGUMENT_LEVELS as nat) {
        assert(function.reads_back_within(125));
    }
}

/// What is stored of tool calls is read as the calls, each with an identifier:
/// one that had none has the empty one.
pub proof fn law_stored_calls_are_read_back(calls: Seq<ToolCallView>)
    ensures
        calls_from_value(stored_calls(calls)) == calls_with_ids(calls),
{
    let items = calls.map_values(|call: ToolCallView| stored_call(call));
    let found = Seq::new(items.len(), |i: int| call_from_item(items[i]));
    assert forall|i: int| 0 <= i < found.len() implies #[trigger] found[i] == Some(
        calls_with_ids(calls)[i],
    ) by {
        lemma_stored_call(calls[i]);
    }
    lemma_kept_all(found, calls_with_ids(calls));
}

/// What is stored of one tool call.
fn stored_call_value(call: &ToolCall) -> (item: Json)
    ensures
        item@ == stored_call(call@),
{
    let mut function: Vec<(String, Json)> = Vec::new();
    put_field(&mut function, "name", text_value(call.name.as_str()));
    put_field(&mut function, "arguments", call.arguments.clone());
    let mut fields: Vec<(String, Json)> = Vec::new();
    put_field(&mut fields, "id", text_value(id_text(&call.id)));
    put_field(&mut fields, "type", text_value("function"));
    put_field(&mut fields, "function", Json::Object(function));
    Json::Object(fields)
}

/// What is stored of tool calls, as one array.
pub fn tool_calls_value(calls: &Vec<ToolCall>) -> (stored: Json)
    ensures
        stored@ == stored_calls(call_views(calls@)),
{
    let ghost all = call_views(calls@).map_values(|call: ToolCallView| stored_call(call));
    let mut items: Vec<Json> = Vec::new();
    let mut at: usize = 0;
    assert(item_trees(items@) =~= all.take(0));
    while at < calls.len()
        invariant
            at <= calls@.len(),
            all == call_views(calls@).map_values(|call: ToolCallView| stored_call(call)),
            item_trees(items@) == all.take(at as int),
        decreases calls@.len() - at,
    {
        put_item(&mut items, stored_call_value(&calls[at]));
        at += 1;
        assert(item_trees(items@) =~= all.take(at as int));
    }
    assert(all.take(at as int) =~= all);
    Json::Array(items)
}

/// What is stored in the `tool_calls` column: nothing where there are no calls.
/// It is read back as the calls, each with an identifier, where the arguments of
/// the calls are read back.
pub fn encode_tool_calls(calls: &Vec<ToolCall>) -> (stored: Option<String>)
    ensures
        opt_text(stored) == encoded_tool_calls(call_views(calls@)),
        arguments_read_back(call_views(calls@), CALL_ARGUMENT_LEVELS as nat) ==> decoded_tool_calls(
            opt_text(stored),
        ) == calls_with_ids(call_views(calls@)),
{
    if calls.len() == 0 {
        assert(calls_with_ids(call_views(calls@)) =~= Seq::empty());
        return None;
    }
    let value = tool_calls_value(calls);
    let text = print_json(&value);
    proof {
        let views = call_views(calls@);
        if arguments_read_back(views, CALL_ARGUMENT_LEVELS as nat) {
            let items = views.map_values(|call: ToolCallView| stored_call(call));
            assert forall|i: int| 0 <= i < items.len() implies (
            #[trigger] items[i]).reads_back_within(126) by {
                lemma_stored_call(views[i]);
                assert(views[i].arguments.reads_back_within(CALL_ARGUMENT_LEVELS as nat));
            }
            assert(value@.reads_back());
            law_stored_calls_are_read_back(views);
        }
    }
    Some(text)
}

/// The tool call that a stored item is read as.
fn tool_call_from_item(item: &Json) -> (call: Option<ToolCall>)
    ensures
        call is Some == call_from_item(item@) is Some,
        call matches Some(c) ==> call_from_item(item@) == Some(c@),
{
    match item.get("function") {
        Some(function) => {
            let id = match item.get("id") {
                Some(value) => match value.as_text() {
                    Some(text) => Some(text.to_owned()),
                    None => None,
                },
                None => None,
            };
            let name = match function.get("name") {
                Some(value) => match value.as_text() {
                    Some(text) => text.to_owned(),
                    None => "unknown".to_owned(),
                },
                None => "unknown".to_owned(),
            };
            let arguments = match function.get("arguments") {
                Some(value) => value.clone(),
                None => Json::Null,
            };
            Some(ToolCall { id, name, arguments })
        },
        None => None,
    }
}

/// The tool calls that a stored value is read as.
pub fn tool_calls_from_value(stored: &Json) -> (calls: Vec<ToolCall>)
    ensures
        call_views(calls@) == calls_from_value(stored@),
{
    let mut calls: Vec<ToolCall> = Vec::new();
    assert(call_views(calls@) =~= Seq::empty());
    if let Json::Array(items) = stored {
        let ghost trees = item_trees(items@);
        let ghost found = Seq::new(trees.len(), |i: int| call_from_item(trees[i]));
        proof {
            lemma_item_trees(items@);
        }
        let mut at: usize = 0;
        while at < items.len()
            invariant
                at <= items@.len(),
                trees.len() == items@.len(),
                forall|i: int| 0 <= i < trees.len() ==> #[trigger] trees[i] == items@[i]@,
                found == Seq::new(trees.len(), |i: int| call_from_item(trees[i])),
                call_views(calls@) == kept(found.take(at as int)),
            decreases items@.len() - at,
        {
            assert(found.take(at + 1).drop_last() =~= found.take(at as int));
            assert(found.take(at + 1).last() == call_from_item(items@[at as int]@));
            let ghost before = calls@;
            if let Some(call) = tool_call_from_item(&items[at]) {
                calls.push(call);
                assert(call_views(calls@) =~= call_views(before).push(call@));
            }
            at += 1;
        }
        assert(found.take(at as int) =~= found);
    }
    calls
}

/// The tool calls that the `tool_calls` column is read as.
pub fn decode_tool_calls(raw: Option<&str>) -> (calls: Vec<ToolCall>)
    ensures
        call_views(calls@) == decoded_tool_calls(opt_str(raw)),
{
    match raw {
        Some(text) => match parse_json(text) {
            Some(stored) => tool_calls_from_value(&stored),
            None => no_calls(),
        },
        None => no_calls(),
    }
}

/// No calls.
fn no_calls() -> (calls: Vec<ToolCall>)
    ensures
        call_views(calls@) == Seq::<ToolCallView>::empty(),
{
    let calls: Vec<ToolCall> = Vec::new();
    assert(call_views(calls@) =~= Seq::empty());
    calls
}

} // verus!
