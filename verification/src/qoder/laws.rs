//! What reading and writing Qoder transcripts promises, said of what goes in and
//! what comes out.

use crate::json::{parsed_json, printed_json, JsonTree};
use crate::model::{
    flattened, kept, law_all_that_is_there_is_kept, role_named, title_from, MessageView,
    SessionView,
};
use crate::place::{BaseView, PlaceView};
use crate::qoder::folder::{
    hash_of, is_folder_of, is_newest, is_project_folder, opt_entries, sha256_digest,
    FolderEntry,
};
use crate::qoder::lines::{byte_lines, lemma_encoded_concat, lemma_line_end_is, lemma_lines_concat};
use crate::qoder::transcript::{
    message_on, messages_on, messages_read_back, read_back, record, record_lines, record_of,
    records_of, session_of_transcript, transcript_messages, transcript_of, written_as,
};
use crate::qoder::{
    first8, hex_digits, is_first_holding, is_hex, is_job_for, listed, listed_views,
    projects_dir_of, qoder_home, session_of_entry, sessions_of_project, sessions_of_projects,
    transcript_in_project, transcript_name, transcript_place, write_error, ListedSession, ListedSessionView,
    ProjectEntry, ProjectsProbe, QoderEnv, QoderJob, QoderWriteError, SearchedProject,
};
use crate::text::{blank, lowered, trimmed};
use vstd::prelude::*;
use vstd::utf8::{decode_utf8, encode_utf8, valid_utf8};

verus! {

// ---------------------------------------------------------------------------
// Records
// ---------------------------------------------------------------------------

/// A record has the role and one block with the whole text, and nothing else.
pub proof fn law_record_has_role_and_text(role: Seq<char>, text: Seq<char>)
    ensures
        record(role, text).field("role"@) == Some(JsonTree::Text(role)),
        record(role, text).field("message"@) matches Some(message) && (message.field("content"@)
            matches Some(JsonTree::Array(blocks)) && blocks.len() == 1 && blocks[0].field("type"@)
            == Some(JsonTree::Text("text"@)) && blocks[0].field("text"@) == Some(
            JsonTree::Text(text),
        ) && (forall|key: Seq<char>| #[trigger]
            blocks[0].field(key) is Some ==> key == "type"@ || key == "text"@)) && (forall|
            key: Seq<char>,
        | #[trigger] message.field(key) is Some ==> key == "content"@),
        forall|key: Seq<char>| #[trigger]
            record(role, text).field(key) is Some ==> key == "role"@ || key == "message"@,
{
    reveal_strlit("role");
    reveal_strlit("message");
    reveal_strlit("type");
    reveal_strlit("text");
    assert("role"@.len() == 4 && "message"@.len() == 7);
    assert("type"@.len() == 4 && "text"@.len() == 4 && "type"@[1] == 'y' && "text"@[1] == 'e');
}

/// How a prefix begins tells that what it begins is not blank.
proof fn lemma_prefixed_is_not_blank(content: Seq<char>)
    ensures
        !blank("[tool] "@ + content),
        !blank("[system] "@ + content),
        !blank("[other] "@ + content),
{
    reveal_strlit("[tool] ");
    reveal_strlit("[system] ");
    reveal_strlit("[other] ");
    assert(("[tool] "@ + content)[0] == '[');
    assert(("[system] "@ + content)[0] == '[');
    assert(("[other] "@ + content)[0] == '[');
}

// ---------------------------------------------------------------------------
// What is written
// ---------------------------------------------------------------------------

/// What the user and the assistant said is written whole and as theirs, blank or
/// not; what anyone else said, if it is not blank, whole and behind a prefix.
pub proof fn law_what_is_written_of_a_message(message: MessageView)
    ensures
        message.role is User ==> written_as(message) == Some(("user"@, message.content)),
        message.role is Assistant ==> written_as(message) == Some(("assistant"@, message.content)),
        !(message.role is User) && !(message.role is Assistant) && blank(message.content)
            ==> written_as(message) is None,
        message.role is Tool && !blank(message.content) ==> written_as(message) == Some(
            ("assistant"@, "[tool] "@ + message.content),
        ),
        message.role is System && !blank(message.content) ==> written_as(message) == Some(
            ("assistant"@, "[system] "@ + message.content),
        ),
        message.role is Other && !blank(message.content) ==> written_as(message) == Some(
            ("assistant"@, "[other] "@ + message.content),
        ),
{
}

/// One more message of the user or the assistant is one more line, with the whole
/// of what they said, whatever it is.
pub proof fn law_user_and_assistant_are_written_whole(
    session: SessionView,
    longer: SessionView,
    message: MessageView,
)
    requires
        longer.messages == session.messages.push(message),
    ensures
        message.role is User ==> transcript_of(longer) == transcript_of(session) + encode_utf8(
            printed_json(record("user"@, message.content)) + seq!['\n'],
        ),
        message.role is Assistant ==> transcript_of(longer) == transcript_of(session)
            + encode_utf8(printed_json(record("assistant"@, message.content)) + seq!['\n']),
{
    lemma_transcript_grows(session, longer, message);
}

/// One more message of anyone else is one more line of the assistant, with a
/// prefix that says whose it was before the whole of what they said; and none, if
/// what they said is blank.
pub proof fn law_others_are_written_with_a_prefix(
    session: SessionView,
    longer: SessionView,
    message: MessageView,
)
    requires
        longer.messages == session.messages.push(message),
    ensures
        blank(message.content) && !(message.role is User) && !(message.role is Assistant)
            ==> transcript_of(longer) == transcript_of(session),
        !blank(message.content) && message.role is Tool ==> transcript_of(longer)
            == transcript_of(session) + encode_utf8(
            printed_json(record("assistant"@, "[tool] "@ + message.content)) + seq!['\n'],
        ),
        !blank(message.content) && message.role is System ==> transcript_of(longer)
            == transcript_of(session) + encode_utf8(
            printed_json(record("assistant"@, "[system] "@ + message.content)) + seq!['\n'],
        ),
        !blank(message.content) && message.role is Other ==> transcript_of(longer)
            == transcript_of(session) + encode_utf8(
            printed_json(record("assistant"@, "[other] "@ + message.content)) + seq!['\n'],
        ),
{
    lemma_transcript_grows(session, longer, message);
}

/// A session without messages has an empty transcript.
pub proof fn law_nothing_is_written_of_nothing(session: SessionView)
    requires
        session.messages.len() == 0,
    ensures
        transcript_of(session).len() == 0,
{
    let none = session.messages;
    assert(Seq::new(none.len(), |i: int| record_of(none[i])) =~= Seq::empty());
}

proof fn lemma_transcript_grows(session: SessionView, longer: SessionView, message: MessageView)
    requires
        longer.messages == session.messages.push(message),
    ensures
        transcript_of(longer) == (match record_of(message) {
            Some(entry) => transcript_of(session) + encode_utf8(printed_json(entry) + seq!['\n']),
            None => transcript_of(session),
        }),
{
    let (before, after) = (session.messages, longer.messages);
    let found = Seq::new(before.len(), |i: int| record_of(before[i]));
    let all = Seq::new(after.len(), |i: int| record_of(after[i]));
    assert(all.drop_last() =~= found);
    assert(all.last() == record_of(message));
    if let Some(entry) = record_of(message) {
        let records = records_of(before);
        assert(records_of(after) == records.push(entry));
        assert(records.push(entry).drop_last() =~= records);
        assert(printed_json(entry).push('\n') =~= printed_json(entry) + seq!['\n']);
        lemma_encoded_concat(record_lines(records), printed_json(entry) + seq!['\n']);
    }
}

// ---------------------------------------------------------------------------
// What is read back
// ---------------------------------------------------------------------------

/// One more message that is not blank comes back behind the others, with the
/// whole of its content: the user's as the user's, the assistant's as the
/// assistant's, and anyone else's as the assistant's with a prefix. One that is
/// blank does not come back, and the others come back as they did.
pub proof fn law_read_back_grows_by_message(messages: Seq<MessageView>, message: MessageView)
    ensures
        messages_read_back(Seq::empty()).len() == 0,
        blank(message.content) ==> messages_read_back(messages.push(message))
            == messages_read_back(messages),
        !blank(message.content) ==> {
            let before = messages_read_back(messages);
            let after = messages_read_back(messages.push(message));
            let last = after[before.len() as int];
            &&& after == before.push(last)
            &&& last.idx == before.len()
            &&& (message.role is User ==> last.role is User && last.content == message.content)
            &&& (message.role is Assistant ==> last.role is Assistant && last.content
                == message.content)
            &&& (message.role is Tool ==> last.role is Assistant && last.content == "[tool] "@
                + message.content)
            &&& (message.role is System ==> last.role is Assistant && last.content == "[system] "@
                + message.content)
            &&& (message.role is Other ==> last.role is Assistant && last.content == "[other] "@
                + message.content)
            &&& last.timestamp is None
            &&& last.author is None
            &&& last.tool_calls.len() == 0
            &&& last.tool_results.len() == 0
            &&& last.extra == record(
                if message.role is User {
                    "user"@
                } else {
                    "assistant"@
                },
                last.content,
            )
        },
{
    lemma_prefixed_is_not_blank(message.content);
    crate::model::law_roles_are_known_by_their_names("user"@);
    crate::model::law_roles_are_known_by_their_names("assistant"@);
    let longer = messages.push(message);
    let found = Seq::new(messages.len(), |i: int| read_back(messages[i]));
    let all = Seq::new(longer.len(), |i: int| read_back(longer[i]));
    assert(all.drop_last() =~= found);
    assert(all.last() == read_back(message));
    let none = Seq::<MessageView>::empty();
    assert(Seq::new(none.len(), |i: int| read_back(none[i])) =~= Seq::empty());
    let before = messages_read_back(messages);
    let after = messages_read_back(longer);
    if !blank(message.content) {
        assert(kept(all) == kept(found).push(read_back(message).unwrap()));
        assert(after =~= before.push(after[before.len() as int]));
    }
}

/// Every message that is not blank comes back: behind those that come back of the
/// messages before it, with its content, and with its role if it is the user's or
/// the assistant's.
pub proof fn law_message_comes_back(messages: Seq<MessageView>, i: int)
    requires
        0 <= i < messages.len(),
        !blank(messages[i].content),
    ensures
        ({
            let at = messages_read_back(messages.take(i)).len() as int;
            let back = messages_read_back(messages)[at];
            &&& at < messages_read_back(messages).len()
            &&& (messages[i].role is User ==> back.role is User && back.content
                == messages[i].content)
            &&& (messages[i].role is Assistant ==> back.role is Assistant && back.content
                == messages[i].content)
            &&& (messages[i].role is Tool ==> back.role is Assistant && back.content == "[tool] "@
                + messages[i].content)
            &&& (messages[i].role is System ==> back.role is Assistant && back.content
                == "[system] "@ + messages[i].content)
            &&& (messages[i].role is Other ==> back.role is Assistant && back.content
                == "[other] "@ + messages[i].content)
        }),
    decreases messages.len(),
{
    let rest = messages.drop_last();
    assert(rest.push(messages.last()) =~= messages);
    law_read_back_grows_by_message(rest, messages.last());
    if i < rest.len() {
        law_message_comes_back(rest, i);
        assert(rest.take(i) =~= messages.take(i));
    } else {
        assert(messages.take(i) =~= rest);
    }
}

/// No more messages come back than were written, and each that comes back is not
/// blank.
pub proof fn law_nothing_else_comes_back(messages: Seq<MessageView>)
    ensures
        messages_read_back(messages).len() <= messages.len(),
        (forall|i: int| 0 <= i < messages.len() ==> !blank((#[trigger] messages[i]).content))
            ==> messages_read_back(messages).len() == messages.len(),
    decreases messages.len(),
{
    if messages.len() > 0 {
        let rest = messages.drop_last();
        assert(rest.push(messages.last()) =~= messages);
        law_nothing_else_comes_back(rest);
        law_read_back_grows_by_message(rest, messages.last());
        if forall|i: int| 0 <= i < messages.len() ==> !blank((#[trigger] messages[i]).content) {
            assert forall|i: int| 0 <= i < rest.len() implies !blank(
                (#[trigger] rest[i]).content,
            ) by {
                assert(rest[i] == messages[i]);
            }
            assert(!blank(messages[messages.len() - 1].content));
        }
    } else {
        law_read_back_grows_by_message(messages, arbitrary());
        assert(messages =~= Seq::empty());
    }
}

// ---------------------------------------------------------------------------
// What is read
// ---------------------------------------------------------------------------

/// One more line is read as one more message where it is a record with a content
/// that is not blank: that content, whole, said by the role that the record
/// names. Any other line changes nothing.
pub proof fn law_line_is_read(before: Seq<u8>, line: Seq<u8>)
    requires
        before.len() > 0 ==> before.last() == 10,
        forall|i: int| 0 <= i < line.len() ==> #[trigger] line[i] != 10,
    ensures
        transcript_messages(Seq::empty()).len() == 0,
        line.len() > 0 ==> transcript_messages(before + line) == transcript_messages(
            before + line.push(10),
        ),
        !valid_utf8(line) || trimmed(decode_utf8(line)).len() == 0 || parsed_json(
            trimmed(decode_utf8(line)),
        ) is None ==> transcript_messages(before + line.push(10)) == transcript_messages(before),
        valid_utf8(line) && trimmed(decode_utf8(line)).len() > 0 ==> (parsed_json(
            trimmed(decode_utf8(line)),
        ) matches Some(entry) ==> (entry.field("message"@) is None
            ==> transcript_messages(before + line.push(10)) == transcript_messages(before)) && (
        entry.field("message"@) matches Some(message) ==> (message.field("content"@) is None
            ==> transcript_messages(before + line.push(10)) == transcript_messages(before)) && (
        message.field("content"@) matches Some(content) ==> (blank(flattened(content))
            ==> transcript_messages(before + line.push(10)) == transcript_messages(before)) && (
        !blank(flattened(content)) ==> {
            let old_messages = transcript_messages(before);
            let new_messages = transcript_messages(before + line.push(10));
            let last = new_messages[old_messages.len() as int];
            &&& new_messages == old_messages.push(last)
            &&& last.idx == old_messages.len()
            &&& last.content == flattened(content)
            &&& (entry.field("role"@) matches Some(JsonTree::Text(name)) ==> last.role
                == role_named(name))
            &&& (!(entry.field("role"@) matches Some(JsonTree::Text(_))) ==> last.role
                == role_named(Seq::empty()))
            &&& last.timestamp is None
            &&& last.author is None
            &&& last.tool_calls.len() == 0
            &&& last.tool_results.len() == 0
            &&& last.extra == entry
        })))),
{
    assert(byte_lines(Seq::<u8>::empty()) =~= Seq::empty());
    let fed = line.push(10);
    lemma_line_end_is(fed, line.len() as int);
    assert(fed.take(line.len() as int) =~= line);
    assert(fed.skip(line.len() as int + 1) =~= Seq::empty());
    assert(byte_lines(fed) =~= seq![line]);
    lemma_lines_concat(before, fed);
    if line.len() > 0 {
        lemma_line_end_is(line, line.len() as int);
        lemma_lines_concat(before, line);
        assert(byte_lines(line) =~= seq![line]);
    }
    let lines = byte_lines(before);
    let longer = lines.push(line);
    assert(lines + seq![line] =~= longer);
    let found = Seq::new(lines.len(), |i: int| message_on(lines[i]));
    let all = Seq::new(longer.len(), |i: int| message_on(longer[i]));
    assert(all.drop_last() =~= found);
    assert(all.last() == message_on(line));
    let none = Seq::<Seq<u8>>::empty();
    assert(Seq::new(none.len(), |i: int| message_on(none[i])) =~= Seq::empty());
    crate::text::law_blank_grows_by_white(Seq::empty(), ' ');
    let old_messages = transcript_messages(before);
    let new_messages = transcript_messages(before + fed);
    if let Some(message) = message_on(line) {
        assert(messages_on(longer) == messages_on(lines).push(message));
        assert(new_messages =~= old_messages.push(new_messages[old_messages.len() as int]));
    } else {
        assert(messages_on(longer) == messages_on(lines));
    }
}

/// A transcript is the session of the name of its file, with its messages and
/// what the user said first as its title, and with nothing that a transcript does
/// not keep.
pub proof fn law_session_is_read_from_its_transcript(
    stem: Seq<char>,
    bytes: Seq<u8>,
    source_path: Seq<char>,
)
    ensures
        session_of_transcript(Some(stem), bytes, source_path).session_id == stem,
        session_of_transcript(None, bytes, source_path).session_id == "unknown"@,
        ({
            let session = session_of_transcript(Some(stem), bytes, source_path);
            let nameless = session_of_transcript(None, bytes, source_path);
            &&& nameless == (SessionView { session_id: "unknown"@, ..session })
            &&& session.provider_slug == "qoder"@
            &&& session.messages == transcript_messages(bytes)
            &&& session.title == title_from(transcript_messages(bytes))
            &&& session.workspace is None
            &&& session.started_at is None
            &&& session.ended_at is None
            &&& session.model_name is None
            &&& session.source_path == source_path
            &&& session.metadata.field("source"@) == Some(JsonTree::Text("qoder"@))
            &&& forall|key: Seq<char>| #[trigger]
                session.metadata.field(key) is Some ==> key == "source"@
        }),
{
}

// ---------------------------------------------------------------------------
// Folders
// ---------------------------------------------------------------------------

/// An entry is a folder of a workspace exactly when it is a directory and its
/// name is that of the workspace, a hyphen, and something or nothing.
pub proof fn law_folder_is_a_directory_named_so(entry: FolderEntry, name: Seq<char>)
    ensures
        is_folder_of(entry, name) <==> entry.is_dir && (entry.name matches Some(text) && exists|
            more: Seq<char>,
        | #[trigger] (name + seq!['-'] + more) == text@),
{
    assert(name.push('-') =~= name + seq!['-']);
    if let Some(text) = entry.name {
        if name.push('-').is_prefix_of(text@) {
            let more = text@.skip(name.len() as int + 1);
            assert(name + seq!['-'] + more =~= text@);
        }
        if exists|more: Seq<char>| #[trigger] (name + seq!['-'] + more) == text@ {
            let more = choose|more: Seq<char>| #[trigger] (name + seq!['-'] + more) == text@;
            assert(text@.take(name.len() as int + 1) =~= name.push('-'));
        }
    }
}

/// All entries that were found are looked at.
pub proof fn law_all_entries_are_looked_at(entries: Vec<FolderEntry>)
    ensures
        opt_entries(Some(&entries)) == Some(entries@),
        opt_entries(None) is None,
{
}

/// A folder is not taken where another of the workspace was changed later, nor
/// where one before it was changed at the same time. What is not known of a time
/// counts as the epoch.
pub proof fn law_older_folder_is_not_taken(
    entries: Seq<FolderEntry>,
    name: Seq<char>,
    i: int,
    j: int,
)
    requires
        is_newest(entries, name, i),
        0 <= j < entries.len(),
        is_folder_of(entries[j], name),
    ensures
        0 <= i < entries.len(),
        is_folder_of(entries[i], name),
        entries[i].modified matches Some(a) ==> (entries[j].modified matches Some(b) ==> b <= a && (
        j < i ==> b < a)),
        entries[i].modified matches Some(a) ==> (entries[j].modified is None ==> 0 <= a && (j < i
            ==> 0 < a)),
        entries[i].modified is None ==> (entries[j].modified matches Some(b) ==> b <= 0 && (j < i
            ==> b < 0)),
        entries[i].modified is None && entries[j].modified is None ==> i <= j,
{
}

/// Where no folder of the workspace was changed later, and none before it at the
/// same time, a folder is the newest.
pub proof fn law_newest_folder_is_taken(entries: Seq<FolderEntry>, name: Seq<char>, i: int)
    requires
        0 <= i < entries.len(),
        is_folder_of(entries[i], name),
        forall|j: int|
            0 <= j < entries.len() && is_folder_of(#[trigger] entries[j], name) ==> {
                let a: int = match entries[i].modified {
                    Some(nanos) => nanos as int,
                    None => 0,
                };
                let b: int = match entries[j].modified {
                    Some(nanos) => nanos as int,
                    None => 0,
                };
                b <= a && (j < i ==> b < a)
            },
    ensures
        is_newest(entries, name, i),
{
}

/// A workspace has a folder exactly when its path has a last name that is not
/// empty: one of those that are there, the newest, under its own name; and where
/// there is none, its name, a hyphen and its hash.
pub proof fn law_workspace_has_one_folder(
    folder: Option<Seq<char>>,
    workspace: Option<Seq<char>>,
    basename: Option<Seq<char>>,
    entries: Option<Seq<FolderEntry>>,
)
    ensures
        is_project_folder(folder, workspace, basename, entries) ==> {
            &&& (folder is None <==> workspace is None || basename is None
                || basename.unwrap().len() == 0)
            &&& (folder is Some ==> (entries matches Some(all) ==> (forall|j: int|
                #![trigger all[j]]
                0 <= j < all.len() && is_folder_of(all[j], basename.unwrap()) ==> exists|i: int|
                    #![trigger all[i]]
                    is_newest(all, basename.unwrap(), i) && (all[i].name matches Some(text)
                        && folder == Some(text@)))))
            &&& (folder is Some && (entries matches Some(all) ==> (forall|j: int|
                0 <= j < all.len() ==> !is_folder_of(#[trigger] all[j], basename.unwrap())))
                ==> folder == Some(basename.unwrap() + seq!['-'] + hash_of(workspace.unwrap())))
        },
{
    if is_project_folder(folder, workspace, basename, entries) && folder is Some {
        let name = basename.unwrap();
        assert(name.push('-') =~= name + seq!['-']);
        if let Some(all) = entries {
            assert forall|j: int|
                #![trigger all[j]]
                0 <= j < all.len() && is_folder_of(all[j], name) implies exists|i: int|
                #![trigger all[i]]
                is_newest(all, name, i) && (all[i].name matches Some(text) && folder == Some(
                    text@,
                )) by {
                let i = choose|i: int| #[trigger]
                    is_newest(all, name, i) && folder == Some(all[i].name.unwrap()@);
                assert(is_folder_of(all[i], name));
            }
        }
    }
}

/// The hash of a workspace is the first four bytes of the digest of its path in
/// small letters, each as two hexadecimal digits, the higher first.
pub proof fn law_hash_shows_four_bytes(path: Seq<char>, i: int)
    requires
        0 <= i < 4,
    ensures
        sha256_digest(encode_utf8(lowered(path))).len() >= 4 ==> hash_of(path).len() == 8 && {
            let byte = sha256_digest(encode_utf8(lowered(path)))[i] as int;
            &&& hash_of(path)[2 * i] as int == (if byte / 16 < 10 {
                48 + byte / 16
            } else {
                87 + byte / 16
            })
            &&& hash_of(path)[2 * i + 1] as int == (if byte % 16 < 10 {
                48 + byte % 16
            } else {
                87 + byte % 16
            })
        },
{
    assert((2 * i) / 2 == i && (2 * i) % 2 == 0 && (2 * i + 1) / 2 == i && (2 * i + 1) % 2 == 1);
}

// ---------------------------------------------------------------------------
// Identifiers and places
// ---------------------------------------------------------------------------

/// The digits of a text are those of its characters that are one, in order.
pub proof fn law_digits_grow_by_digit(text: Seq<char>, c: char)
    ensures
        is_hex(c) <==> 48 <= c as int <= 57 || 65 <= c as int <= 70 || 97 <= c as int <= 102,
        hex_digits(Seq::empty()).len() == 0,
        is_hex(c) ==> hex_digits(text.push(c)) == hex_digits(text).push(c),
        !is_hex(c) ==> hex_digits(text.push(c)) == hex_digits(text),
{
    let longer = text.push(c);
    let found = Seq::new(text.len(), |i: int| if is_hex(text[i]) { Some(text[i]) } else { None });
    let all = Seq::new(
        longer.len(),
        |i: int| if is_hex(longer[i]) { Some(longer[i]) } else { None },
    );
    assert(all.drop_last() =~= found);
    let none = Seq::<char>::empty();
    assert(Seq::new(
        none.len(),
        |i: int| if is_hex(none[i]) { Some(none[i]) } else { None },
    ) =~= Seq::empty());
}

/// A session goes by the first eight digits of its identifier, in small letters,
/// and by nothing where it has fewer.
pub proof fn law_session_goes_by_eight_digits(id: Seq<char>)
    ensures
        first8(id) is Some <==> hex_digits(id).len() >= 8,
        first8(id) matches Some(digits) ==> digits.len() == 8 && forall|i: int|
            0 <= i < 8 ==> #[trigger] digits[i] == lowered(hex_digits(id))[i],
{
}

/// The projects are below the directory that is named, or below the home of the
/// user, and the transcript of a session has its place in them.
pub proof fn law_places_of_transcripts(env: QoderEnv, folder: Seq<char>, digits: Seq<char>)
    ensures
        env.qoder_home matches Some(home) ==> qoder_home(env) == Some(
            PlaceView { base: BaseView::Named(home@), parts: Seq::empty() },
        ) && projects_dir_of(env) == Some(
            PlaceView { base: BaseView::Named(home@), parts: seq!["cache"@, "projects"@] },
        ),
        env.qoder_home is None && env.has_user_home ==> qoder_home(env) == Some(
            PlaceView { base: BaseView::UserHome, parts: seq![".qoder"@] },
        ) && projects_dir_of(env) == Some(
            PlaceView {
                base: BaseView::UserHome,
                parts: seq![".qoder"@, "cache"@, "projects"@],
            },
        ),
        env.qoder_home is None && !env.has_user_home ==> qoder_home(env) is None
            && projects_dir_of(env) is None,
        transcript_name(digits) == digits + ".jsonl"@,
        transcript_in_project(digits) == seq![
            "conversation-history"@,
            digits,
            digits + ".jsonl"@,
        ],
        transcript_place(folder, digits).base == BaseView::ProjectsDir,
        transcript_place(folder, digits).parts == seq![
            folder,
            "conversation-history"@,
            digits,
            digits + ".jsonl"@,
        ],
{
    assert(transcript_place(folder, digits).parts =~= seq![
        folder,
        "conversation-history"@,
        digits,
        digits + ".jsonl"@,
    ]);
    if let Some(home) = qoder_home(env) {
        let dir = projects_dir_of(env).unwrap();
        if env.qoder_home is Some {
            assert(dir.parts =~= seq!["cache"@, "projects"@]);
            assert(home.parts =~= Seq::empty());
        } else {
            assert(home.parts =~= seq![".qoder"@]);
            assert(dir.parts =~= seq![".qoder"@, "cache"@, "projects"@]);
        }
    }
}

/// A session is written wherever its projects, the digits of its identifier and
/// the name of its workspace are known, and for want of the first of these that
/// is not known it is not.
pub proof fn law_what_cannot_be_written(
    env: QoderEnv,
    id: Seq<char>,
    session: SessionView,
    basename: Option<Seq<char>>,
)
    ensures
        ({
            let placed = env.qoder_home is Some || env.has_user_home;
            let known = hex_digits(id).len() >= 8;
            let named = session.workspace is Some && (basename matches Some(name) && name.len()
                > 0);
            &&& (write_error(env, id, session, basename) is None <==> placed && known && named)
            &&& (!placed ==> write_error(env, id, session, basename) == Some(
                QoderWriteError::NoProjectsDir,
            ))
            &&& (placed && !known ==> write_error(env, id, session, basename) == Some(
                QoderWriteError::IdTooShort,
            ))
            &&& (placed && known && !named ==> write_error(env, id, session, basename) == Some(
                QoderWriteError::NoProjectFolder,
            ))
        }),
{
}

/// What is written of a session is its whole transcript, to the place where the
/// session is looked for by its identifier, in the folder of its workspace.
pub proof fn law_session_is_written_in_its_place(
    job: QoderJob,
    session: SessionView,
    basename: Option<Seq<char>>,
    entries: Option<Seq<FolderEntry>>,
)
    ensures
        is_job_for(job, session, basename, entries) ==> {
            &&& job.bytes@ == transcript_of(session)
            &&& transcript_messages(job.bytes@) == messages_read_back(session.messages)
            &&& job.target@.base == BaseView::ProjectsDir
            &&& job.target@.parts.len() == 4
            &&& is_project_folder(
                Some(job.target@.parts[0]),
                session.workspace,
                basename,
                entries,
            )
            &&& job.target@.parts[1] == "conversation-history"@
            &&& first8(job.session_id@) == Some(job.target@.parts[2])
            &&& job.target@.parts[3] == job.target@.parts[2] + ".jsonl"@
        },
{
    if is_job_for(job, session, basename, entries) {
        let digits = first8(job.session_id@).unwrap();
        let folder = choose|folder: Seq<char>| #[trigger]
            is_project_folder(Some(folder), session.workspace, basename, entries) && first8(
                job.session_id@,
            ) is Some && job.target@ == transcript_place(folder, digits);
        law_places_of_transcripts(arbitrary(), folder, digits);
        assert(job.target@.parts[0] == folder);
    }
}

// ---------------------------------------------------------------------------
// Searching and listing
// ---------------------------------------------------------------------------

/// The project that has a transcript is a directory with the transcript in it,
/// and the first; where none is found, there is none.
pub proof fn law_first_project_with_the_transcript(
    found: Option<usize>,
    entries: Seq<SearchedProject>,
)
    ensures
        is_first_holding(found, entries) <==> match found {
            Some(at) => at < entries.len() && entries[at as int].is_dir
                && entries[at as int].has_transcript && forall|i: int|
                0 <= i < at && (#[trigger] entries[i]).is_dir ==> !entries[i].has_transcript,
            None => forall|i: int|
                0 <= i < entries.len() && (#[trigger] entries[i]).is_dir
                    ==> !entries[i].has_transcript,
        },
{
    match found {
        Some(at) => {
            if is_first_holding(found, entries) {
                assert forall|i: int| 0 <= i < at && (#[trigger] entries[i]).is_dir implies
                    !entries[i].has_transcript by {
                    assert(!crate::qoder::holds_transcript(entries[i]));
                }
            }
        },
        None => {
            if is_first_holding(found, entries) {
                assert forall|i: int|
                    0 <= i < entries.len() && (#[trigger] entries[i]).is_dir implies
                    !entries[i].has_transcript by {
                    assert(!crate::qoder::holds_transcript(entries[i]));
                }
            }
        },
    }
}

/// In the history of the project there is, at `entry`, a directory with a name
/// that is text and with the transcript named after it.
pub open spec fn is_session_at(entries: Seq<ProjectEntry>, project: int, entry: int) -> bool {
    &&& 0 <= project < entries.len()
    &&& entries[project].is_dir
    &&& entries[project].history_is_dir
    &&& entries[project].sessions matches Some(sessions) && 0 <= entry < sessions@.len()
        && sessions@[entry].is_dir && sessions@[entry].has_transcript && sessions@[entry].name is Some
}

/// Every session that is in the projects is listed under its name, however many
/// there are, and nothing else is; they stand project by project, and in each in
/// the order of its history.
pub proof fn law_every_session_is_listed(entries: Seq<ProjectEntry>)
    ensures
        forall|k: int|
            #![trigger sessions_of_projects(entries)[k]]
            0 <= k < sessions_of_projects(entries).len() ==> {
                let found = sessions_of_projects(entries)[k];
                &&& is_session_at(entries, found.project, found.entry)
                &&& found.id == entries[found.project].sessions.unwrap()@[found.entry].name.unwrap()@
            },
        forall|project: int, entry: int| #[trigger]
            is_session_at(entries, project, entry) ==> exists|k: int|
                #![trigger sessions_of_projects(entries)[k]]
                0 <= k < sessions_of_projects(entries).len() && sessions_of_projects(
                    entries,
                )[k].project == project && sessions_of_projects(entries)[k].entry == entry,
        forall|k: int, l: int|
            #![trigger sessions_of_projects(entries)[k], sessions_of_projects(entries)[l]]
            0 <= k < l < sessions_of_projects(entries).len() ==> {
                let (a, b) = (sessions_of_projects(entries)[k], sessions_of_projects(entries)[l]);
                a.project < b.project || (a.project == b.project && a.entry < b.entry)
            },
    decreases entries.len(),
{
    let all = sessions_of_projects(entries);
    if entries.len() > 0 {
        let rest = entries.drop_last();
        let last = entries.len() - 1;
        law_every_session_is_listed(rest);
        let before = sessions_of_projects(rest);
        let added = sessions_of_project(entries[last], last);
        assert(all == before + added);
        lemma_sessions_of_project(entries[last], last);
        assert forall|k: int| #![trigger all[k]] 0 <= k < all.len() implies ({
            let found = all[k];
            &&& is_session_at(entries, found.project, found.entry)
            &&& found.id == entries[found.project].sessions.unwrap()@[found.entry].name.unwrap()@
        }) by {
            if k < before.len() {
                assert(all[k] == before[k]);
                assert(is_session_at(rest, before[k].project, before[k].entry));
                assert(rest[before[k].project] == entries[before[k].project]);
            } else {
                assert(all[k] == added[k - before.len()]);
            }
        }
        assert forall|project: int, entry: int| #[trigger]
            is_session_at(entries, project, entry) implies exists|k: int|
            #![trigger all[k]]
            0 <= k < all.len() && all[k].project == project && all[k].entry == entry by {
            if project < last {
                assert(rest[project] == entries[project]);
                assert(is_session_at(rest, project, entry));
                let k = choose|k: int|
                    #![trigger before[k]]
                    0 <= k < before.len() && before[k].project == project && before[k].entry
                        == entry;
                assert(all[k] == before[k]);
            } else {
                assert(is_session_at(seq![entries[last]], 0, entry));
                let k = choose|k: int|
                    #![trigger added[k]]
                    0 <= k < added.len() && added[k].entry == entry;
                assert(all[before.len() + k] == added[k]);
            }
        }
        assert forall|k: int, l: int| #![trigger all[k], all[l]] 0 <= k < l < all.len() implies
            all[k].project < all[l].project || (all[k].project == all[l].project && all[k].entry
            < all[l].entry) by {
            if l < before.len() {
                assert(all[k] == before[k] && all[l] == before[l]);
            } else if k < before.len() {
                assert(all[k] == before[k] && all[l] == added[l - before.len()]);
                assert(is_session_at(rest, before[k].project, before[k].entry));
            } else {
                assert(all[k] == added[k - before.len()] && all[l] == added[l - before.len()]);
            }
        }
    }
}

proof fn lemma_sessions_of_project(entry: ProjectEntry, project: int)
    ensures
        ({
            let found = sessions_of_project(entry, project);
            let here = seq![entry];
            &&& forall|k: int|
                #![trigger found[k]]
                0 <= k < found.len() ==> found[k].project == project && is_session_at(
                    here,
                    0,
                    found[k].entry,
                ) && found[k].id == entry.sessions.unwrap()@[found[k].entry].name.unwrap()@
            &&& forall|at: int| #[trigger]
                is_session_at(here, 0, at) ==> exists|k: int|
                    #![trigger found[k]]
                    0 <= k < found.len() && found[k].entry == at
            &&& forall|k: int, l: int|
                #![trigger found[k], found[l]]
                0 <= k < l < found.len() ==> found[k].entry < found[l].entry
        }),
{
    let found = sessions_of_project(entry, project);
    let here = seq![entry];
    if entry.is_dir && entry.history_is_dir && entry.sessions is Some {
        let sessions = entry.sessions.unwrap()@;
        let values = Seq::new(
            sessions.len(),
            |i: int| session_of_entry(sessions[i], project, i),
        );
        let at = law_all_that_is_there_is_kept(values);
        assert(found == kept(values));
        assert forall|k: int| #![trigger found[k]] 0 <= k < found.len() implies found[k].project
            == project && found[k].entry == at[k] && is_session_at(here, 0, found[k].entry)
            && found[k].id == sessions[found[k].entry].name.unwrap()@ by {
            assert(values[at[k]] == Some(found[k]));
        }
        assert forall|i: int| #[trigger] is_session_at(here, 0, i) implies exists|k: int|
            #![trigger found[k]]
            0 <= k < found.len() && found[k].entry == i by {
            assert(values[i] is Some);
            assert(at.contains(i));
            let k = choose|k: int| 0 <= k < at.len() && at[k] == i;
            assert(found[k].entry == i);
        }
        assert forall|k: int, l: int|
            #![trigger found[k], found[l]]
            0 <= k < l < found.len() implies found[k].entry < found[l].entry by {
            assert(found[k].entry == at[k] && found[l].entry == at[l]);
        }
    }
}

/// The sessions of the projects are listed where these were found; none where
/// there is no directory, and there is no list where it is not known or could not
/// be read.
pub proof fn law_what_is_listed(entries: Vec<ProjectEntry>, sessions: Seq<ListedSession>)
    ensures
        listed(Some(ProjectsProbe::Entries(entries))) == Some(sessions_of_projects(entries@)),
        listed(Some(ProjectsProbe::NotADir)) == Some(Seq::<ListedSessionView>::empty()),
        listed(Some(ProjectsProbe::Unreadable)) is None,
        listed(None) is None,
        listed_views(sessions).len() == sessions.len(),
        forall|i: int|
            #![trigger sessions[i]]
            0 <= i < sessions.len() ==> listed_views(sessions)[i].id == sessions[i].id@
                && listed_views(sessions)[i].project == sessions[i].project && listed_views(
                sessions,
            )[i].entry == sessions[i].entry,
{
}

} // verus!
