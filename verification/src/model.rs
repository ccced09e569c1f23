//! The canonical model: one form for the sessions of every agent, and what the
//! providers share in bringing a session into that form.

use crate::json::{Json, JsonTree};
use crate::place::Place;
use crate::text::{chars_of, same_text, text_between};
use vstd::prelude::*;
use vstd::string::StringExecFns;

verus! {

// ---------------------------------------------------------------------------
// Sessions and messages
// ---------------------------------------------------------------------------

/// Who speaks in a message.
#[derive(Debug, PartialEq)]
pub enum MessageRole {
    User,
    Assistant,
    Tool,
    System,
    Other(String),
}

/// A call of a tool that an assistant made.
#[derive(Debug, PartialEq)]
pub struct ToolCall {
    pub id: Option<String>,
    pub name: String,
    pub arguments: Json,
}

/// What a tool answered.
#[derive(Debug, PartialEq)]
pub struct ToolResult {
    pub call_id: Option<String>,
    pub content: String,
    pub is_error: bool,
}

/// One message of a session. Times are milliseconds since the epoch.
#[derive(Debug, PartialEq)]
pub struct CanonicalMessage {
    pub idx: usize,
    pub role: MessageRole,
    pub content: String,
    pub timestamp: Option<i64>,
    pub author: Option<String>,
    pub tool_calls: Vec<ToolCall>,
    pub tool_results: Vec<ToolResult>,
    pub extra: Json,
}

/// A session of any agent. Times are milliseconds since the epoch; paths are
/// their text.
#[derive(Debug, PartialEq)]
pub struct CanonicalSession {
    pub session_id: String,
    pub provider_slug: String,
    pub workspace: Option<String>,
    pub title: Option<String>,
    pub started_at: Option<i64>,
    pub ended_at: Option<i64>,
    pub messages: Vec<CanonicalMessage>,
    pub metadata: Json,
    pub source_path: String,
    pub model_name: Option<String>,
}

/// What was written: where, under which identifier, and how to resume it.
#[derive(Debug, PartialEq)]
pub struct WrittenSession {
    pub paths: Vec<Place>,
    pub session_id: String,
    pub resume_command: String,
    pub backup_path: Option<String>,
}

/// What was found of an agent on this machine.
#[derive(Debug, PartialEq)]
pub struct DetectionResult {
    pub installed: bool,
    pub version: Option<String>,
    pub evidence: Vec<String>,
}

// ---------------------------------------------------------------------------
// What they hold
// ---------------------------------------------------------------------------

/// What a [`MessageRole`] is.
pub enum RoleView {
    User,
    Assistant,
    Tool,
    System,
    Other(Seq<char>),
}

/// What a [`ToolCall`] holds.
#[verifier::ext_equal]
pub struct ToolCallView {
    pub id: Option<Seq<char>>,
    pub name: Seq<char>,
    pub arguments: JsonTree,
}

/// What a [`ToolResult`] holds.
#[verifier::ext_equal]
pub struct ToolResultView {
    pub call_id: Option<Seq<char>>,
    pub content: Seq<char>,
    pub is_error: bool,
}

/// What a [`CanonicalMessage`] holds.
#[verifier::ext_equal]
pub struct MessageView {
    pub idx: nat,
    pub role: RoleView,
    pub content: Seq<char>,
    pub timestamp: Option<i64>,
    pub author: Option<Seq<char>>,
    pub tool_calls: Seq<ToolCallView>,
    pub tool_results: Seq<ToolResultView>,
    pub extra: JsonTree,
}

/// What a [`CanonicalSession`] holds.
#[verifier::ext_equal]
pub struct SessionView {
    pub session_id: Seq<char>,
    pub provider_slug: Seq<char>,
    pub workspace: Option<Seq<char>>,
    pub title: Option<Seq<char>>,
    pub started_at: Option<i64>,
    pub ended_at: Option<i64>,
    pub messages: Seq<MessageView>,
    pub metadata: JsonTree,
    pub source_path: Seq<char>,
    pub model_name: Option<Seq<char>>,
}

/// The text that an optional string holds.
pub open spec fn opt_text(text: Option<String>) -> Option<Seq<char>> {
    match text {
        Some(s) => Some(s@),
        None => None,
    }
}

/// The text that an optional string slice holds.
pub open spec fn opt_str(text: Option<&str>) -> Option<Seq<char>> {
    match text {
        Some(s) => Some(s@),
        None => None,
    }
}

/// The texts that the strings hold.
pub open spec fn texts(strings: Seq<String>) -> Seq<Seq<char>> {
    Seq::new(strings.len(), |i: int| strings[i]@)
}

/// What the calls hold.
pub open spec fn call_views(calls: Seq<ToolCall>) -> Seq<ToolCallView> {
    Seq::new(calls.len(), |i: int| calls[i]@)
}

/// What the results hold.
pub open spec fn result_views(results: Seq<ToolResult>) -> Seq<ToolResultView> {
    Seq::new(results.len(), |i: int| results[i]@)
}

/// What the messages hold.
pub open spec fn message_views(messages: Seq<CanonicalMessage>) -> Seq<MessageView> {
    Seq::new(messages.len(), |i: int| messages[i]@)
}

impl View for MessageRole {
    type V = RoleView;

    open spec fn view(&self) -> RoleView {
        match *self {
            MessageRole::User => RoleView::User,
            MessageRole::Assistant => RoleView::Assistant,
            MessageRole::Tool => RoleView::Tool,
            MessageRole::System => RoleView::System,
            MessageRole::Other(name) => RoleView::Other(name@),
        }
    }
}

impl View for ToolCall {
    type V = ToolCallView;

    open spec fn view(&self) -> ToolCallView {
        ToolCallView { id: opt_text(self.id), name: self.name@, arguments: self.arguments@ }
    }
}

impl View for ToolResult {
    type V = ToolResultView;

    open spec fn view(&self) -> ToolResultView {
        ToolResultView {
            call_id: opt_text(self.call_id),
            content: self.content@,
            is_error: self.is_error,
        }
    }
}

impl View for CanonicalMessage {
    type V = MessageView;

    open spec fn view(&self) -> MessageView {
        MessageView {
            idx: self.idx as nat,
            role: self.role@,
            content: self.content@,
            timestamp: self.timestamp,
            author: opt_text(self.author),
            tool_calls: call_views(self.tool_calls@),
            tool_results: result_views(self.tool_results@),
            extra: self.extra@,
        }
    }
}

impl View for CanonicalSession {
    type V = SessionView;

    open spec fn view(&self) -> SessionView {
        SessionView {
            session_id: self.session_id@,
            provider_slug: self.provider_slug@,
            workspace: opt_text(self.workspace),
            title: opt_text(self.title),
            started_at: self.started_at,
            ended_at: self.ended_at,
            messages: message_views(self.messages@),
            metadata: self.metadata@,
            source_path: self.source_path@,
            model_name: opt_text(self.model_name),
        }
    }
}

// ---------------------------------------------------------------------------
// Shared notions
// ---------------------------------------------------------------------------

/// The values that are there, in order.
pub open spec fn kept<T>(values: Seq<Option<T>>) -> Seq<T>
    decreases values.len(),
{
    if values.len() == 0 {
        Seq::empty()
    } else {
        match values.last() {
            Some(value) => kept(values.drop_last()).push(value),
            None => kept(values.drop_last()),
        }
    }
}

/// Values that are not there add nothing behind those that are.
pub proof fn lemma_kept_none_behind<T>(values: Seq<Option<T>>, n: int)
    requires
        0 <= n <= values.len(),
        forall|i: int| n <= i < values.len() ==> #[trigger] values[i] is None,
    ensures
        kept(values) == kept(values.take(n)),
    decreases values.len(),
{
    if n < values.len() {
        let rest = values.drop_last();
        lemma_kept_none_behind(rest, n);
        assert(rest.take(n) =~= values.take(n));
    } else {
        assert(values.take(n) =~= values);
    }
}

/// Where every value is there, all are kept.
pub proof fn lemma_kept_all<T>(values: Seq<Option<T>>, inner: Seq<T>)
    requires
        values.len() == inner.len(),
        forall|i: int| 0 <= i < values.len() ==> #[trigger] values[i] == Some(inner[i]),
    ensures
        kept(values) == inner,
    decreases values.len(),
{
    if values.len() > 0 {
        lemma_kept_all(values.drop_last(), inner.drop_last());
        assert(inner.drop_last().push(inner.last()) =~= inner);
    } else {
        assert(kept(values) =~= inner);
    }
}

/// What is kept was there: `j` is where it stood.
pub proof fn lemma_kept_from<T>(values: Seq<Option<T>>, i: int) -> (j: int)
    requires
        0 <= i < kept(values).len(),
    ensures
        0 <= j < values.len(),
        values[j] == Some(kept(values)[i]),
    decreases values.len(),
{
    let rest = values.drop_last();
    if i < kept(rest).len() {
        lemma_kept_from(rest, i)
    } else {
        values.len() - 1
    }
}

/// The role that goes by the name `name`.
pub open spec fn role_named(name: Seq<char>) -> RoleView {
    if name == "user"@ {
        RoleView::User
    } else if name == "assistant"@ {
        RoleView::Assistant
    } else if name == "tool"@ {
        RoleView::Tool
    } else if name == "system"@ {
        RoleView::System
    } else {
        RoleView::Other(name)
    }
}

/// The role that goes by the name `role`.
pub fn normalize_role(role: &str) -> (r: MessageRole)
    ensures
        r@ == role_named(role@),
{
    if same_text(role, "user") {
        MessageRole::User
    } else if same_text(role, "assistant") {
        MessageRole::Assistant
    } else if same_text(role, "tool") {
        MessageRole::Tool
    } else if same_text(role, "system") {
        MessageRole::System
    } else {
        MessageRole::Other(role.to_owned())
    }
}

/// The text of one content block: a text is its own, an object has the text
/// that stands under `text`, and any other block has none.
pub open spec fn block_text(block: JsonTree) -> Option<Seq<char>> {
    match block {
        JsonTree::Text(s) => Some(s),
        JsonTree::Object(_) => match block.field("text"@) {
            Some(inner) => inner.text(),
            None => None,
        },
        _ => None,
    }
}

/// The lines, one below the other.
pub open spec fn stacked(lines: Seq<Seq<char>>) -> Seq<char>
    decreases lines.len(),
{
    if lines.len() == 0 {
        Seq::empty()
    } else if lines.len() == 1 {
        lines[0]
    } else {
        stacked(lines.drop_last()).push('\n') + lines.last()
    }
}

/// The texts of the content blocks that have one, in order.
pub open spec fn block_texts(blocks: Seq<JsonTree>) -> Seq<Seq<char>> {
    kept(Seq::new(blocks.len(), |i: int| block_text(blocks[i])))
}

/// The text of a message's content: that of its blocks, one below the other,
/// where it is an array of blocks.
pub open spec fn flattened(content: JsonTree) -> Seq<char> {
    match content {
        JsonTree::Array(blocks) => stacked(block_texts(blocks)),
        _ => match block_text(content) {
            Some(text) => text,
            None => Seq::empty(),
        },
    }
}

/// The first `max` characters of a title.
pub open spec fn title_cut(text: Seq<char>, max: int) -> Seq<char> {
    if text.len() <= max {
        text
    } else {
        text.take(max)
    }
}

/// The content of the first message that the user sent.
pub open spec fn first_user_content(messages: Seq<MessageView>) -> Option<Seq<char>>
    decreases messages.len(),
{
    if messages.len() == 0 {
        None
    } else if messages[0].role is User {
        Some(messages[0].content)
    } else {
        first_user_content(messages.drop_first())
    }
}

/// How many characters of a message a title takes.
pub const TITLE_CHARS: usize = 100;

/// The title that a session takes from what the user said first.
pub open spec fn title_from(messages: Seq<MessageView>) -> Option<Seq<char>> {
    match first_user_content(messages) {
        Some(content) => Some(title_cut(content, TITLE_CHARS as int)),
        None => None,
    }
}

/// The messages, numbered by their places.
pub open spec fn numbered(messages: Seq<MessageView>) -> Seq<MessageView> {
    Seq::new(messages.len(), |i: int| MessageView { idx: i as nat, ..messages[i] })
}

// ---------------------------------------------------------------------------
// Shared operations
// ---------------------------------------------------------------------------

/// A copy of an optional string.
pub fn copy_text(text: &Option<String>) -> (copy: Option<String>)
    ensures
        opt_text(copy) == opt_text(*text),
{
    match text {
        Some(s) => Some(s.clone()),
        None => None,
    }
}

/// The text of one content block.
fn text_of_block(block: &Json) -> (text: Option<&str>)
    ensures
        text is Some == block_text(block@) is Some,
        text matches Some(s) ==> block_text(block@) == Some(s@),
{
    match block {
        Json::Text(s) => Some(s.as_str()),
        Json::Object(_) => match block.get("text") {
            Some(inner) => inner.as_text(),
            None => None,
        },
        _ => None,
    }
}

/// Appends a line to the lines stacked so far; `first` says that there are none.
fn stack_line(stack: &mut String, first: bool, line: &str, Ghost(lines): Ghost<Seq<Seq<char>>>)
    requires
        old(stack)@ == stacked(lines),
        first == (lines.len() == 0),
    ensures
        final(stack)@ == stacked(lines.push(line@)),
{
    if !first {
        stack.push('\n');
    }
    stack.append(line);
    proof {
        assert(lines.push(line@).drop_last() =~= lines);
        if first {
            assert(stack@ =~= line@);
        }
    }
}

/// The text of a message's content, which is a text, a content block or an
/// array of content blocks.
pub fn flatten_content(content: &Json) -> (text: String)
    ensures
        text@ == flattened(content@),
{
    match content {
        Json::Array(blocks) => {
            let ghost all = crate::json::item_trees(blocks@);
            let mut text = String::new();
            let mut first: bool = true;
            let ghost mut lines: Seq<Seq<char>> = Seq::empty();
            let mut at: usize = 0;
            proof {
                crate::json::lemma_item_trees(blocks@);
            }
            let ghost found = Seq::new(all.len(), |i: int| block_text(all[i]));
            while at < blocks.len()
                invariant
                    at <= blocks@.len(),
                    all.len() == blocks@.len(),
                    forall|i: int| 0 <= i < all.len() ==> #[trigger] all[i] == blocks@[i]@,
                    found == Seq::new(all.len(), |i: int| block_text(all[i])),
                    lines == kept(found.take(at as int)),
                    text@ == stacked(lines),
                    first == (lines.len() == 0),
                decreases blocks@.len() - at,
            {
                assert(found.take(at + 1).drop_last() =~= found.take(at as int));
                assert(found.take(at + 1).last() == block_text(blocks@[at as int]@));
                if let Some(line) = text_of_block(&blocks[at]) {
                    stack_line(&mut text, first, line, Ghost(lines));
                    first = false;
                    proof {
                        lines = lines.push(line@);
                    }
                }
                at += 1;
            }
            assert(found.take(at as int) =~= found);
            text
        },
        _ => match text_of_block(content) {
            Some(text) => text.to_owned(),
            None => String::new(),
        },
    }
}

/// The first `max` characters of `text`.
pub fn truncate_title(text: &str, max: usize) -> (title: String)
    ensures
        title@ == title_cut(text@, max as int),
{
    let chars = chars_of(text);
    if chars.len() <= max {
        text.to_owned()
    } else {
        let title = text_between(&chars, 0, max);
        assert(title@ =~= text@.take(max as int));
        title
    }
}

/// Numbers the messages by their places.
pub fn reindex_messages(messages: &mut Vec<CanonicalMessage>)
    ensures
        message_views(final(messages)@) == numbered(message_views(old(messages)@)),
{
    let mut at: usize = 0;
    while at < messages.len()
        invariant
            at <= messages@.len(),
            messages@.len() == old(messages)@.len(),
            forall|i: int|
                0 <= i < at ==> (#[trigger] messages@[i])@ == (MessageView {
                    idx: i as nat,
                    ..old(messages)@[i]@
                }),
            forall|i: int| at <= i < messages@.len() ==> #[trigger] messages@[i] == old(messages)@[i],
        decreases messages@.len() - at,
    {
        messages[at].idx = at;
        at += 1;
    }
    assert(message_views(messages@) =~= numbered(message_views(old(messages)@)));
}

/// The title that a session takes from what the user said first.
pub fn session_title(messages: &Vec<CanonicalMessage>) -> (title: Option<String>)
    ensures
        opt_text(title) == title_from(message_views(messages@)),
{
    let ghost all = message_views(messages@);
    let mut at: usize = 0;
    assert(all.skip(0) =~= all);
    while at < messages.len()
        invariant
            at <= messages@.len(),
            all == message_views(messages@),
            first_user_content(all) == first_user_content(all.skip(at as int)),
        decreases messages@.len() - at,
    {
        assert(all.skip(at as int)[0] == messages@[at as int]@);
        assert(all.skip(at as int).drop_first() =~= all.skip(at + 1));
        if let MessageRole::User = messages[at].role {
            return Some(truncate_title(messages[at].content.as_str(), TITLE_CHARS));
        }
        at += 1;
    }
    None
}

// ---------------------------------------------------------------------------
// Laws
// ---------------------------------------------------------------------------

/// Of values some of which are there, all that are there are kept, and no others,
/// in their order: `at` says where each that is kept stood.
pub proof fn law_all_that_is_there_is_kept<T>(values: Seq<Option<T>>) -> (at: Seq<int>)
    ensures
        at.len() == kept(values).len(),
        forall|k: int|
            0 <= k < at.len() ==> 0 <= #[trigger] at[k] < values.len() && values[at[k]] == Some(
                kept(values)[k],
            ),
        forall|k: int, l: int| 0 <= k < l < at.len() ==> #[trigger] at[k] < #[trigger] at[l],
        forall|i: int| 0 <= i < values.len() && #[trigger] values[i] is Some ==> at.contains(i),
    decreases values.len(),
{
    if values.len() == 0 {
        Seq::empty()
    } else {
        let rest = values.drop_last();
        let last = values.len() - 1;
        let before = law_all_that_is_there_is_kept(rest);
        let at = if values[last] is Some {
            before.push(last)
        } else {
            before
        };
        assert forall|i: int| 0 <= i < values.len() && #[trigger] values[i] is Some implies at
            .contains(i) by {
            if i < last {
                assert(rest[i] is Some);
                let k = choose|k: int| 0 <= k < before.len() && before[k] == i;
                assert(at[k] == i);
            } else {
                assert(at[before.len() as int] == last);
            }
        }
        assert forall|k: int| 0 <= k < at.len() implies 0 <= #[trigger] at[k] < values.len()
            && values[at[k]] == Some(kept(values)[k]) by {
            if k < before.len() {
                assert(rest[before[k]] == Some(kept(rest)[k]));
            }
        }
        at
    }
}

/// One more value that is there is kept behind the others, and one that is not
/// there changes nothing.
pub proof fn law_kept_grows_by_what_is_there<T>(values: Seq<Option<T>>, value: T)
    ensures
        kept(Seq::<Option<T>>::empty()) == Seq::<T>::empty(),
        kept(values.push(Some(value))) == kept(values).push(value),
        kept(values.push(None)) == kept(values),
{
    assert(values.push(Some(value)).drop_last() =~= values);
    assert(values.push(None).drop_last() =~= values);
    assert(kept(Seq::<Option<T>>::empty()) =~= Seq::empty());
}

/// The title of a session is the beginning of what the user said first, of a
/// hundred characters at most, whoever spoke before.
pub proof fn law_title_is_what_the_user_said_first(messages: Seq<MessageView>, i: int)
    requires
        0 <= i < messages.len(),
        messages[i].role is User,
        forall|j: int| 0 <= j < i ==> !((#[trigger] messages[j]).role is User),
    ensures
        messages[i].content.len() <= 100 ==> title_from(messages) == Some(messages[i].content),
        messages[i].content.len() > 100 ==> title_from(messages) == Some(
            messages[i].content.take(100),
        ),
    decreases i,
{
    if i > 0 {
        let rest = messages.drop_first();
        assert(!(messages[0].role is User));
        assert forall|j: int| 0 <= j < i - 1 implies !((#[trigger] rest[j]).role is User) by {
            assert(rest[j] == messages[j + 1]);
        }
        law_title_is_what_the_user_said_first(rest, i - 1);
    }
}

/// A title that is cut is the beginning of the text: all of it where it is short
/// enough, and else as much as is allowed.
pub proof fn law_title_is_cut_at_its_length(text: Seq<char>, max: nat)
    ensures
        title_cut(text, max as int).is_prefix_of(text),
        text.len() <= max ==> title_cut(text, max as int).len() == text.len(),
        text.len() > max ==> title_cut(text, max as int).len() == max,
{
}

/// The messages give no title exactly when none of them is the user's.
pub proof fn law_no_title_without_the_user(messages: Seq<MessageView>)
    ensures
        title_from(messages) is None <==> forall|i: int|
            0 <= i < messages.len() ==> !((#[trigger] messages[i]).role is User),
    decreases messages.len(),
{
    if messages.len() > 0 {
        let rest = messages.drop_first();
        law_no_title_without_the_user(rest);
        if messages[0].role is User {
        } else if forall|i: int| 0 <= i < rest.len() ==> !((#[trigger] rest[i]).role is User) {
            assert forall|i: int| 0 <= i < messages.len() implies !((
            #[trigger] messages[i]).role is User) by {
                if i > 0 {
                    assert(rest[i - 1] == messages[i]);
                }
            }
        } else {
            let i = choose|i: int| 0 <= i < rest.len() && (#[trigger] rest[i]).role is User;
            assert(messages[i + 1].role is User);
        }
    }
}

/// A role is known by its name and no other, and an unknown name stays.
pub proof fn law_roles_are_known_by_their_names(name: Seq<char>)
    ensures
        role_named(name) is User <==> name == "user"@,
        role_named(name) is Assistant <==> name == "assistant"@,
        role_named(name) is Tool <==> name == "tool"@,
        role_named(name) is System <==> name == "system"@,
        role_named(name) matches RoleView::Other(other) ==> other == name,
{
    reveal_strlit("user");
    reveal_strlit("assistant");
    reveal_strlit("tool");
    reveal_strlit("system");
    assert("user"@.len() == 4 && "assistant"@.len() == 9 && "tool"@.len() == 4 && "system"@.len()
        == 6);
    assert("user"@[0] == 'u' && "tool"@[0] == 't');
}

/// A text is its own text, an object has the text under `text`, and nothing else
/// has one.
pub proof fn law_text_of_a_block(block: JsonTree, text: Seq<char>)
    ensures
        block == JsonTree::Text(text) ==> block_text(block) == Some(text),
        block.field("text"@) == Some(JsonTree::Text(text)) ==> block_text(block) == Some(text),
        !(block is Text) && !(block.field("text"@) matches Some(JsonTree::Text(_)))
            ==> block_text(block) is None,
        !(block is Array) ==> flattened(block) == (match block_text(block) {
            Some(own) => own,
            None => Seq::empty(),
        }),
{
}

/// One more block puts its text below that of the others, if it has one, and
/// changes nothing if it has none.
pub proof fn law_content_grows_by_the_text_of_a_block(blocks: Seq<JsonTree>, block: JsonTree)
    ensures
        flattened(JsonTree::Array(Seq::empty())) == Seq::<char>::empty(),
        block_text(block) is None ==> flattened(JsonTree::Array(blocks.push(block))) == flattened(
            JsonTree::Array(blocks),
        ),
        block_text(block) matches Some(text) ==> flattened(JsonTree::Array(blocks.push(block)))
            == (if exists|i: int| 0 <= i < blocks.len() && block_text(#[trigger] blocks[i]) is Some {
            flattened(JsonTree::Array(blocks)) + seq!['\n'] + text
        } else {
            text
        }),
{
    let found = Seq::new(blocks.len(), |i: int| block_text(blocks[i]));
    let longer = blocks.push(block);
    let all = Seq::new(longer.len(), |i: int| block_text(longer[i]));
    assert(all.drop_last() =~= found);
    assert(all.last() == block_text(block));
    let none = Seq::<JsonTree>::empty();
    assert(Seq::new(none.len(), |i: int| block_text(none[i])) =~= Seq::empty());
    assert(flattened(JsonTree::Array(none)) =~= Seq::empty());
    let at = law_all_that_is_there_is_kept(found);
    if exists|i: int| 0 <= i < blocks.len() && block_text(#[trigger] blocks[i]) is Some {
        let i = choose|i: int| 0 <= i < blocks.len() && block_text(#[trigger] blocks[i]) is Some;
        assert(found[i] is Some);
        assert(at.len() > 0);
    } else if at.len() > 0 {
        assert(found[at[0]] is Some);
        assert(block_text(blocks[at[0]]) is Some);
    }
    if let Some(text) = block_text(block) {
        let lines = block_texts(blocks);
        assert(block_texts(longer) == lines.push(text));
        assert(lines.push(text).drop_last() =~= lines);
        assert(stacked(lines).push('\n') + text =~= stacked(lines) + seq!['\n'] + text);
    }
}

/// Numbering gives each message its place and changes nothing else.
pub proof fn law_numbering_changes_only_the_numbers(messages: Seq<MessageView>)
    ensures
        numbered(messages).len() == messages.len(),
        forall|i: int|
            #![trigger numbered(messages)[i]]
            0 <= i < messages.len() ==> numbered(messages)[i].idx == i && numbered(messages)[i].role
                == messages[i].role && numbered(messages)[i].content == messages[i].content
                && numbered(messages)[i].timestamp == messages[i].timestamp && numbered(
                messages,
            )[i].author == messages[i].author && numbered(messages)[i].tool_calls
                == messages[i].tool_calls && numbered(messages)[i].tool_results
                == messages[i].tool_results && numbered(messages)[i].extra == messages[i].extra,
{
}

/// Nothing of a message is left out of what it is said to hold.
pub proof fn law_message_holds_its_fields(message: CanonicalMessage)
    ensures
        message@.idx == message.idx,
        message@.content == message.content@,
        message@.timestamp == message.timestamp,
        message.author matches Some(author) ==> message@.author == Some(author@),
        message.author is None ==> message@.author is None,
        message@.extra == message.extra@,
        message@.role is User <==> message.role is User,
        message@.role is Assistant <==> message.role is Assistant,
        message@.role is Tool <==> message.role is Tool,
        message@.role is System <==> message.role is System,
        message.role matches MessageRole::Other(name) ==> message@.role == RoleView::Other(name@),
        message@.tool_calls.len() == message.tool_calls@.len(),
        forall|i: int|
            #![trigger message.tool_calls@[i]]
            0 <= i < message.tool_calls@.len() ==> {
                let (seen, call) = (message@.tool_calls[i], message.tool_calls@[i]);
                &&& seen.name == call.name@
                &&& seen.arguments == call.arguments@
                &&& (call.id matches Some(id) ==> seen.id == Some(id@))
                &&& (call.id is None ==> seen.id is None)
            },
        message@.tool_results.len() == message.tool_results@.len(),
        forall|i: int|
            #![trigger message.tool_results@[i]]
            0 <= i < message.tool_results@.len() ==> {
                let (seen, result) = (message@.tool_results[i], message.tool_results@[i]);
                &&& seen.content == result.content@
                &&& seen.is_error == result.is_error
                &&& (result.call_id matches Some(id) ==> seen.call_id == Some(id@))
                &&& (result.call_id is None ==> seen.call_id is None)
            },
{
}

/// Nothing of a session is left out of what it is said to hold.
pub proof fn law_session_holds_its_fields(session: CanonicalSession)
    ensures
        session@.session_id == session.session_id@,
        session@.provider_slug == session.provider_slug@,
        session.workspace matches Some(path) ==> session@.workspace == Some(path@),
        session.workspace is None ==> session@.workspace is None,
        session.title matches Some(title) ==> session@.title == Some(title@),
        session.title is None ==> session@.title is None,
        session@.started_at == session.started_at,
        session@.ended_at == session.ended_at,
        session@.messages.len() == session.messages@.len(),
        forall|i: int|
            0 <= i < session.messages@.len() ==> session@.messages[i] == (
            #[trigger] session.messages@[i])@,
        session@.metadata == session.metadata@,
        session@.source_path == session.source_path@,
        session.model_name matches Some(model) ==> session@.model_name == Some(model@),
        session.model_name is None ==> session@.model_name is None,
{
}

/// Optional texts and lists of texts hold the texts that they are of.
pub proof fn law_texts_hold_their_strings(text: String, strings: Seq<String>)
    ensures
        opt_text(Some(text)) == Some(text@),
        opt_text(None) is None,
        opt_str(None) is None,
        forall|slice: &str| #[trigger] opt_str(Some(slice)) == Some(slice@),
        texts(strings).len() == strings.len(),
        forall|i: int| 0 <= i < strings.len() ==> #[trigger] texts(strings)[i] == strings[i]@,
{
}

} // verus!
