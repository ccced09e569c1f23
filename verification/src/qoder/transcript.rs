//! Qoder transcripts: one JSON record on each line, of the form
//! `{"role":"user","message":{"content":[{"type":"text","text":"..."}]}}`.
//!
//! A transcript knows the user and the assistant, and nothing but text. What
//! else a session holds is lost in it, or told by the assistant with a prefix
//! that says whose it was.

use crate::json::{
    item_trees, parse_json, parsed_json, print_json, printed_json, put_field, put_item, text_value,
    Json, JsonTree,
};
use crate::model::{
    block_text, block_texts, call_views, flatten_content, flattened, kept, lemma_kept_all,
    lemma_kept_from, message_views, normalize_role, numbered, reindex_messages, result_views,
    role_named, title_from, CanonicalMessage, CanonicalSession, MessageRole, MessageView, RoleView,
    SessionView, ToolCall, ToolResult,
};
use crate::qoder::lines::{byte_lines, lemma_line_appended, lemma_line_end_is};
use crate::text::{blank, is_blank, joined, lemma_trimmed_same, trim, trimmed};
use vstd::prelude::*;
use vstd::string::{StringExecFns, StrSliceExecFns};
use vstd::utf8::{decode_utf8, encode_utf8, valid_utf8};

verus! {

// ---------------------------------------------------------------------------
// Records
// ---------------------------------------------------------------------------

/// The record of a text that `role` said.
pub open spec fn record(role: Seq<char>, text: Seq<char>) -> JsonTree {
    JsonTree::Object(
        map![
            "role"@ => JsonTree::Text(role),
            "message"@ => JsonTree::Object(
                map![
                    "content"@ => JsonTree::Array(
                        seq![
                            JsonTree::Object(
                                map![
                                    "type"@ => JsonTree::Text("text"@),
                                    "text"@ => JsonTree::Text(text),
                                ],
                            ),
                        ],
                    ),
                ],
            ),
        ],
    )
}

/// The role and the text under which a message is written. The user and the
/// assistant are written as they are; what anyone else said is told by the
/// assistant with a prefix, or dropped if it is blank.
pub open spec fn written_as(message: MessageView) -> Option<(Seq<char>, Seq<char>)> {
    match message.role {
        RoleView::User => Some(("user"@, message.content)),
        RoleView::Assistant => Some(("assistant"@, message.content)),
        RoleView::Tool => told("[tool] "@, message.content),
        RoleView::System => told("[system] "@, message.content),
        RoleView::Other(_) => told("[other] "@, message.content),
    }
}

/// A text that the assistant tells with a prefix, or nothing if it is blank.
pub open spec fn told(prefix: Seq<char>, text: Seq<char>) -> Option<(Seq<char>, Seq<char>)> {
    if blank(text) {
        None
    } else {
        Some(("assistant"@, prefix + text))
    }
}

/// The record of a message, if it is written.
pub open spec fn record_of(message: MessageView) -> Option<JsonTree> {
    match written_as(message) {
        Some((role, text)) => Some(record(role, text)),
        None => None,
    }
}

/// The records of the messages that are written, in order.
pub open spec fn records_of(messages: Seq<MessageView>) -> Seq<JsonTree> {
    kept(Seq::new(messages.len(), |i: int| record_of(messages[i])))
}

/// The JSON texts of the records, each on a line of its own.
pub open spec fn record_lines(records: Seq<JsonTree>) -> Seq<char>
    decreases records.len(),
{
    if records.len() == 0 {
        Seq::empty()
    } else {
        record_lines(records.drop_last()) + printed_json(records.last()).push('\n')
    }
}

/// The transcript of a session.
pub open spec fn transcript_of(session: SessionView) -> Seq<u8> {
    encode_utf8(record_lines(records_of(session.messages)))
}

// ---------------------------------------------------------------------------
// What a transcript says
// ---------------------------------------------------------------------------

/// The record on a line: the JSON that the line is, trimmed, if it is valid
/// UTF-8, not blank, and JSON.
pub open spec fn record_on(line: Seq<u8>) -> Option<JsonTree> {
    if valid_utf8(line) && trimmed(decode_utf8(line)).len() > 0 {
        parsed_json(trimmed(decode_utf8(line)))
    } else {
        None
    }
}

/// The role that a record names, or the empty name.
pub open spec fn record_role(entry: JsonTree) -> Seq<char> {
    match entry.field("role"@) {
        Some(value) => match value.text() {
            Some(name) => name,
            None => Seq::empty(),
        },
        None => Seq::empty(),
    }
}

/// The text of the content of a record's message.
pub open spec fn record_text(entry: JsonTree) -> Seq<char> {
    match entry.field("message"@) {
        Some(message) => match message.field("content"@) {
            Some(content) => flattened(content),
            None => Seq::empty(),
        },
        None => Seq::empty(),
    }
}

/// The message that `role` said in the record `entry`, before it is numbered. A
/// transcript keeps neither times nor tools.
pub open spec fn said(role: Seq<char>, text: Seq<char>, entry: JsonTree) -> MessageView {
    MessageView {
        idx: 0,
        role: role_named(role),
        content: text,
        timestamp: None,
        author: None,
        tool_calls: Seq::empty(),
        tool_results: Seq::empty(),
        extra: entry,
    }
}

/// The message that a record is; one without text, or with nothing but white
/// space in it, is none.
pub open spec fn message_of_record(entry: JsonTree) -> Option<MessageView> {
    if blank(record_text(entry)) {
        None
    } else {
        Some(said(record_role(entry), record_text(entry), entry))
    }
}

/// The message on a line, if there is one.
pub open spec fn message_on(line: Seq<u8>) -> Option<MessageView> {
    match record_on(line) {
        Some(entry) => message_of_record(entry),
        None => None,
    }
}

/// The messages on the lines, in order.
pub open spec fn messages_on(lines: Seq<Seq<u8>>) -> Seq<MessageView> {
    kept(Seq::new(lines.len(), |i: int| message_on(lines[i])))
}

/// The messages of a transcript, in order and numbered.
pub open spec fn transcript_messages(bytes: Seq<u8>) -> Seq<MessageView> {
    numbered(messages_on(byte_lines(bytes)))
}

/// The session that a transcript is. `stem` is the name of its file without the
/// extension.
pub open spec fn session_of_transcript(
    stem: Option<Seq<char>>,
    bytes: Seq<u8>,
    source_path: Seq<char>,
) -> SessionView {
    SessionView {
        session_id: match stem {
            Some(name) => name,
            None => "unknown"@,
        },
        provider_slug: "qoder"@,
        workspace: None,
        title: title_from(transcript_messages(bytes)),
        started_at: None,
        ended_at: None,
        messages: transcript_messages(bytes),
        metadata: JsonTree::Object(map!["source"@ => JsonTree::Text("qoder"@)]),
        source_path,
        model_name: None,
    }
}

// ---------------------------------------------------------------------------
// What is read back of what is written
// ---------------------------------------------------------------------------

/// The message that is read back of one that was written, if any is: the text
/// as it was written, said by whom it was written for. A blank text is written
/// for the user and the assistant, and not read back.
pub open spec fn read_back(message: MessageView) -> Option<MessageView> {
    match written_as(message) {
        Some((role, text)) => if blank(text) {
            None
        } else {
            Some(said(role, text, record(role, text)))
        },
        None => None,
    }
}

/// The messages that are read back of those of a session, in order and numbered.
pub open spec fn messages_read_back(messages: Seq<MessageView>) -> Seq<MessageView> {
    numbered(kept(Seq::new(messages.len(), |i: int| read_back(messages[i]))))
}

/// Whatever the bytes of a transcript are, its messages are numbered by their
/// places, none of them is blank, and none has a time, an author, or tool calls
/// and results.
pub proof fn law_transcript_messages_are_bare(bytes: Seq<u8>, i: int)
    requires
        0 <= i < transcript_messages(bytes).len(),
    ensures
        transcript_messages(bytes)[i].idx == i,
        !blank(transcript_messages(bytes)[i].content),
        transcript_messages(bytes)[i].timestamp is None,
        transcript_messages(bytes)[i].author is None,
        transcript_messages(bytes)[i].tool_calls.len() == 0,
        transcript_messages(bytes)[i].tool_results.len() == 0,
{
    let lines = byte_lines(bytes);
    let j = lemma_kept_from(Seq::new(lines.len(), |k: int| message_on(lines[k])), i);
    assert(message_on(lines[j]) == Some(messages_on(lines)[i]));
}

/// What is lost in a transcript is lost the first time: messages that were
/// written and read back are, written and read back again, the same.
pub proof fn law_reading_back_again_changes_nothing(messages: Seq<MessageView>)
    ensures
        messages_read_back(messages_read_back(messages)) == messages_read_back(messages),
{
    let found = Seq::new(messages.len(), |i: int| read_back(messages[i]));
    let once = messages_read_back(messages);
    let again = Seq::new(once.len(), |i: int| read_back(once[i]));
    lemma_role_names();
    assert forall|i: int| 0 <= i < again.len() implies #[trigger] again[i] == Some(
        kept(found)[i],
    ) by {
        let j = lemma_kept_from(found, i);
        assert(read_back(messages[j]) == Some(kept(found)[i]));
        assert(once[i].role == kept(found)[i].role);
        assert(read_back(once[i]) == Some(kept(found)[i]));
    }
    lemma_kept_all(again, kept(found));
    assert(messages_read_back(once) =~= once);
}

/// The user and the assistant go by their names.
proof fn lemma_role_names()
    ensures
        role_named("user"@) is User,
        role_named("assistant"@) is Assistant,
{
    reveal_strlit("user");
    reveal_strlit("assistant");
    assert("user"@.len() == 4 && "assistant"@.len() == 9);
}

/// A record says the role and the text it was made of, and is no deeper than is
/// read back.
proof fn lemma_record(role: Seq<char>, text: Seq<char>)
    ensures
        record_role(record(role, text)) == role,
        record_text(record(role, text)) == text,
        record(role, text).reads_back(),
{
    reveal_strlit("role");
    reveal_strlit("message");
    reveal_strlit("content");
    reveal_strlit("type");
    reveal_strlit("text");
    assert("role"@.len() == 4 && "message"@.len() == 7);
    assert("type"@.len() == 4 && "text"@.len() == 4 && "type"@[1] == 'y' && "text"@[1] == 'e');
    let block = JsonTree::Object(
        map!["type"@ => JsonTree::Text("text"@), "text"@ => JsonTree::Text(text)],
    );
    let content = JsonTree::Array(seq![block]);
    let message = JsonTree::Object(map!["content"@ => content]);
    let entry = record(role, text);
    assert(entry.field("message"@) == Some(message));
    assert(entry.field("role"@) == Some(JsonTree::Text(role)));
    assert(message.field("content"@) == Some(content));
    assert(block.field("text"@) == Some(JsonTree::Text(text)));
    let found = Seq::new(1, |i: int| block_text(seq![block][i]));
    lemma_kept_all(found, seq![text]);
    assert(block_texts(seq![block]) == seq![text]);
    reveal_with_fuel(JsonTree::reads_back_within, 2);
    assert(block.reads_back_within(124));
    assert(content.reads_back_within(125));
    assert(message.reads_back_within(126));
}

/// The line of a record, as `serde_json` writes it, says what the record says.
proof fn lemma_message_on_line(line: Seq<char>, role: Seq<char>, text: Seq<char>)
    requires
        line.len() >= 2,
        line[0] == '{',
        line.last() == '}',
        parsed_json(line) == Some(record(role, text)),
    ensures
        message_on(encode_utf8(line)) == (if blank(text) {
            None
        } else {
            Some(said(role, text, record(role, text)))
        }),
{
    vstd::utf8::encode_utf8_valid_utf8(line);
    vstd::utf8::encode_utf8_decode_utf8(line);
    lemma_trimmed_same(line);
    lemma_record(role, text);
}

// ---------------------------------------------------------------------------
// Writing
// ---------------------------------------------------------------------------

/// The record of a text that `role` said.
pub fn record_value(role: &str, text: &str) -> (entry: Json)
    ensures
        entry@ == record(role@, text@),
{
    let mut block: Vec<(String, Json)> = Vec::new();
    put_field(&mut block, "type", text_value("text"));
    put_field(&mut block, "text", text_value(text));
    let mut content: Vec<Json> = Vec::new();
    let ghost block_tree = Json::Object(block)@;
    put_item(&mut content, Json::Object(block));
    assert(item_trees(content@) =~= seq![block_tree]);
    let mut message: Vec<(String, Json)> = Vec::new();
    put_field(&mut message, "content", Json::Array(content));
    let mut entry: Vec<(String, Json)> = Vec::new();
    put_field(&mut entry, "role", text_value(role));
    put_field(&mut entry, "message", Json::Object(message));
    Json::Object(entry)
}

/// A text that the assistant tells with a prefix, or nothing if it is blank.
fn tell(prefix: &str, text: &str) -> (written: Option<(&'static str, String)>)
    ensures
        (match written {
            Some((role, told)) => Some((role@, told@)),
            None => None,
        }) == told(prefix@, text@),
{
    if is_blank(text) {
        None
    } else {
        Some(("assistant", joined(prefix, text)))
    }
}

/// The role and the text under which a message is written, if it is.
pub fn written_form(msg: &CanonicalMessage) -> (written: Option<(&'static str, String)>)
    ensures
        (match written {
            Some((role, text)) => Some((role@, text@)),
            None => None,
        }) == written_as(msg@),
{
    let content = msg.content.as_str();
    match &msg.role {
        MessageRole::User => Some(("user", content.to_owned())),
        MessageRole::Assistant => Some(("assistant", content.to_owned())),
        MessageRole::Tool => tell("[tool] ", content),
        MessageRole::System => tell("[system] ", content),
        MessageRole::Other(_) => tell("[other] ", content),
    }
}

/// The transcript of a session. It is read back as the messages that are not
/// blank, each as it was written.
pub fn build_jsonl(session: &CanonicalSession) -> (bytes: Vec<u8>)
    ensures
        bytes@ == transcript_of(session@),
        transcript_messages(bytes@) == messages_read_back(session@.messages),
{
    let ghost all = session@.messages;
    let ghost records = Seq::new(all.len(), |i: int| record_of(all[i]));
    let ghost backs = Seq::new(all.len(), |i: int| read_back(all[i]));
    let mut text = String::new();
    let mut at: usize = 0;
    proof {
        assert(byte_lines(encode_utf8(text@)) =~= Seq::empty());
        assert(messages_on(Seq::empty()) =~= Seq::empty());
    }
    while at < session.messages.len()
        invariant
            at <= session.messages@.len(),
            all == session@.messages,
            records == Seq::new(all.len(), |i: int| record_of(all[i])),
            backs == Seq::new(all.len(), |i: int| read_back(all[i])),
            text@ == record_lines(kept(records.take(at as int))),
            text@.len() > 0 ==> text@.last() == '\n',
            messages_on(byte_lines(encode_utf8(text@))) == kept(backs.take(at as int)),
        decreases session.messages@.len() - at,
    {
        let msg = &session.messages[at];
        proof {
            assert(all[at as int] == msg@);
            assert(records.take(at + 1).drop_last() =~= records.take(at as int));
            assert(backs.take(at + 1).drop_last() =~= backs.take(at as int));
        }
        if let Some((role, said_text)) = written_form(msg) {
            let entry = record_value(role, said_text.as_str());
            let line = print_json(&entry);
            let ghost before = text@;
            text.append(line.as_str());
            text.push('\n');
            proof {
                assert(text@ =~= before + line@.push('\n'));
                lemma_record(role@, said_text@);
                lemma_line_appended(before, line@);
                lemma_message_on_line(line@, role@, said_text@);
                let lines = byte_lines(encode_utf8(before));
                lemma_messages_on_one_more(lines, encode_utf8(line@));
                let done = kept(records.take(at as int));
                assert(done.push(entry@).drop_last() =~= done);
            }
        }
        at += 1;
    }
    proof {
        assert(records.take(at as int) =~= records);
        assert(backs.take(at as int) =~= backs);
    }
    text.as_str().as_bytes_vec()
}

/// One more line adds the message on it.
proof fn lemma_messages_on_one_more(lines: Seq<Seq<u8>>, line: Seq<u8>)
    ensures
        messages_on(lines.push(line)) == (match message_on(line) {
            Some(message) => messages_on(lines).push(message),
            None => messages_on(lines),
        }),
{
    let longer = lines.push(line);
    let found = Seq::new(longer.len(), |i: int| message_on(longer[i]));
    assert(found.drop_last() =~= Seq::new(lines.len(), |i: int| message_on(lines[i])));
}

// ---------------------------------------------------------------------------
// Reading
// ---------------------------------------------------------------------------

/// `std::str::from_utf8`: the text whose UTF-8 encoding the bytes are, if they
/// are valid UTF-8.
#[verifier::external_body]
fn utf8_text(bytes: &[u8]) -> (text: Option<&str>)
    ensures
        text is Some == valid_utf8(bytes@),
        text matches Some(s) ==> encode_utf8(s@) == bytes@,
{
    std::str::from_utf8(bytes).ok()
}

/// The record on a line, if there is one.
fn record_on_line(line: &[u8]) -> (entry: Option<Json>)
    ensures
        entry is Some == record_on(line@) is Some,
        entry matches Some(e) ==> record_on(line@) == Some(e@),
{
    match utf8_text(line) {
        Some(text) => {
            proof {
                vstd::utf8::encode_utf8_decode_utf8(text@);
            }
            let rest = trim(text);
            if rest.as_str().is_empty() {
                None
            } else {
                parse_json(rest.as_str())
            }
        },
        None => None,
    }
}

/// The message that a record is, before it is numbered, if it is one.
pub fn message_from_record(entry: Json) -> (message: Option<CanonicalMessage>)
    ensures
        message is Some == message_of_record(entry@) is Some,
        message matches Some(m) ==> message_of_record(entry@) == Some(m@),
{
    let role = match entry.get("role") {
        Some(value) => match value.as_text() {
            Some(name) => normalize_role(name),
            None => nobody(),
        },
        None => nobody(),
    };
    let content = match entry.get("message") {
        Some(message) => match message.get("content") {
            Some(content) => flatten_content(content),
            None => String::new(),
        },
        None => String::new(),
    };
    assert(content@ == record_text(entry@));
    if is_blank(content.as_str()) {
        return None;
    }
    let tool_calls: Vec<ToolCall> = Vec::new();
    let tool_results: Vec<ToolResult> = Vec::new();
    proof {
        assert(call_views(tool_calls@) =~= Seq::empty());
        assert(result_views(tool_results@) =~= Seq::empty());
    }
    Some(
        CanonicalMessage {
            idx: 0,
            role,
            content,
            timestamp: None,
            author: None,
            tool_calls,
            tool_results,
            extra: entry,
        },
    )
}

/// The role without a name.
fn nobody() -> (role: MessageRole)
    ensures
        role@ == role_named(Seq::empty()),
{
    proof {
        reveal_strlit("");
        assert(""@ =~= Seq::empty());
    }
    normalize_role("")
}

/// The messages of a transcript, in order and numbered.
pub fn read_messages(bytes: &[u8]) -> (messages: Vec<CanonicalMessage>)
    ensures
        message_views(messages@) == transcript_messages(bytes@),
{
    let mut messages: Vec<CanonicalMessage> = Vec::new();
    let mut from: usize = 0;
    let ghost mut lines: Seq<Seq<u8>> = Seq::empty();
    proof {
        assert(bytes@.skip(0) =~= bytes@);
        assert(message_views(messages@) =~= messages_on(lines));
        assert(byte_lines(bytes@) =~= lines + byte_lines(bytes@));
    }
    while from < bytes.len()
        invariant
            from <= bytes@.len(),
            byte_lines(bytes@) == lines + byte_lines(bytes@.skip(from as int)),
            message_views(messages@) == messages_on(lines),
        decreases bytes@.len() - from,
    {
        let ghost rest = bytes@.skip(from as int);
        let mut end: usize = from;
        while end < bytes.len() && bytes[end] != 10
            invariant
                from <= end <= bytes@.len(),
                rest == bytes@.skip(from as int),
                forall|i: int| 0 <= i < end - from ==> #[trigger] rest[i] != 10,
            decreases bytes@.len() - end,
        {
            assert(rest[end - from] == bytes@[end as int]);
            end += 1;
        }
        let line = vstd::slice::slice_subrange(bytes, from, end);
        proof {
            assert(end < bytes@.len() ==> rest[end - from] == bytes@[end as int]);
            lemma_line_end_is(rest, end - from);
            assert(line@ =~= rest.take(end - from));
            lemma_messages_on_one_more(lines, line@);
            assert(byte_lines(Seq::<u8>::empty()) =~= Seq::empty());
            if end < bytes@.len() {
                assert(rest.skip(end - from + 1) =~= bytes@.skip(end + 1));
                assert(byte_lines(bytes@) =~= lines.push(line@) + byte_lines(bytes@.skip(end + 1)));
            } else {
                assert(line@ =~= rest);
                assert(bytes@.skip(end as int) =~= Seq::empty());
                assert(byte_lines(bytes@) =~= lines.push(line@) + byte_lines(bytes@.skip(end as int)));
            }
        }
        let ghost before = messages@;
        if let Some(entry) = record_on_line(line) {
            if let Some(message) = message_from_record(entry) {
                messages.push(message);
                assert(message_views(messages@) =~= message_views(before).push(message@));
            }
        }
        proof {
            lines = lines.push(line@);
        }
        from = if end < bytes.len() {
            end + 1
        } else {
            end
        };
    }
    proof {
        assert(bytes@.skip(from as int) =~= Seq::empty());
        assert(byte_lines(Seq::<u8>::empty()) =~= Seq::empty());
        assert(byte_lines(bytes@) =~= lines);
    }
    reindex_messages(&mut messages);
    messages
}

} // verus!
