//! The two tables of a Hermes database as the statements change them, and what
//! that means for the sessions in it, how they are read and how they are listed:
//! a session that is written is added, and nothing else changes.

use crate::hermes::read::{session_of_rows, MessageRowView, SessionRowView};
use crate::hermes::write::{
    inserted_rows, law_write_steps_fill_the_tables, message_insert, session_insert,
    session_read_back, session_rows_read_back, stamp_or, total_tool_calls, tx_after,
    write_steps, written_row, written_rows, written_session_row, MessageInsertView,
    SessionInsertView, Stamp, TxState, WriteStepView,
};
use crate::model::{MessageView, SessionView};
use vstd::prelude::*;

verus! {

// ---------------------------------------------------------------------------
// The tables
// ---------------------------------------------------------------------------

/// A time as it is stored: the stored times are ordered as their ranks, and it
/// is read as so many milliseconds since the epoch.
pub struct StoredTime {
    pub rank: int,
    pub millis: i64,
}

/// A row of the table of sessions. `rank` is that of the stored time of its
/// start.
#[verifier::ext_equal]
pub struct SessionRecord {
    pub row: SessionRowView,
    pub rank: int,
    pub message_count: int,
    pub tool_call_count: int,
}

/// A row of the table of messages. `rank` is that of its stored time.
#[verifier::ext_equal]
pub struct MessageRecord {
    pub session_id: Seq<char>,
    pub rank: int,
    pub row: MessageRowView,
    pub active: bool,
}

/// The two tables: the sessions by their identifiers, the messages in the order
/// in which they were inserted.
#[verifier::ext_equal]
pub struct Tables {
    pub sessions: Map<Seq<char>, SessionRecord>,
    pub messages: Seq<MessageRecord>,
}

/// The row of a session that is inserted. `store` says how a time is stored.
pub open spec fn session_record(
    row: SessionInsertView,
    store: spec_fn(Stamp) -> StoredTime,
) -> SessionRecord {
    SessionRecord {
        row: written_session_row(row, store(row.started_at).millis),
        rank: store(row.started_at).rank,
        message_count: 0,
        tool_call_count: 0,
    }
}

/// The row of a message that is inserted. `store` says how a time is stored.
pub open spec fn message_record(
    row: MessageInsertView,
    store: spec_fn(Stamp) -> StoredTime,
) -> MessageRecord {
    MessageRecord {
        session_id: row.session_id,
        rank: store(row.timestamp).rank,
        row: written_row(row, store(row.timestamp).millis),
        active: true,
    }
}

/// The tables after a step.
pub open spec fn after_step(
    tables: Tables,
    step: WriteStepView,
    store: spec_fn(Stamp) -> StoredTime,
) -> Tables {
    match step {
        WriteStepView::InsertSession(row) => if tables.sessions.contains_key(row.id) {
            tables
        } else {
            Tables { sessions: tables.sessions.insert(row.id, session_record(row, store)), ..tables }
        },
        WriteStepView::InsertMessage(row) => Tables {
            messages: tables.messages.push(message_record(row, store)),
            ..tables
        },
        WriteStepView::CountMessage { session_id, tool_calls } => if tables.sessions.contains_key(
            session_id,
        ) {
            let record = tables.sessions[session_id];
            Tables {
                sessions: tables.sessions.insert(
                    session_id,
                    SessionRecord {
                        message_count: record.message_count + 1,
                        tool_call_count: record.tool_call_count + tool_calls,
                        ..record
                    },
                ),
                ..tables
            }
        } else {
            tables
        },
    }
}

/// The tables after steps, one after the other.
pub open spec fn after_steps(
    tables: Tables,
    steps: Seq<WriteStepView>,
    store: spec_fn(Stamp) -> StoredTime,
) -> Tables
    decreases steps.len(),
{
    if steps.len() == 0 {
        tables
    } else {
        after_step(after_steps(tables, steps.drop_last(), store), steps.last(), store)
    }
}

/// The tables after a session was written under the identifier `id`.
pub open spec fn after_writing(
    tables: Tables,
    session: SessionView,
    id: Seq<char>,
    now_secs: i64,
    store: spec_fn(Stamp) -> StoredTime,
) -> Tables {
    after_steps(tables, write_steps(session, id, now_secs), store)
}

// ---------------------------------------------------------------------------
// The sessions in the tables
// ---------------------------------------------------------------------------

/// The active messages of the session `id`, in the order in which they were
/// inserted.
pub open spec fn live_messages(messages: Seq<MessageRecord>, id: Seq<char>) -> Seq<MessageRecord>
    decreases messages.len(),
{
    if messages.len() == 0 {
        Seq::empty()
    } else {
        let before = live_messages(messages.drop_last(), id);
        if messages.last().session_id == id && messages.last().active {
            before.push(messages.last())
        } else {
            before
        }
    }
}

/// The messages with one more, behind those that are not later than it.
pub open spec fn with_next(ordered: Seq<MessageRecord>, next: MessageRecord) -> Seq<MessageRecord>
    decreases ordered.len(),
{
    if ordered.len() == 0 || ordered.last().rank <= next.rank {
        ordered.push(next)
    } else {
        with_next(ordered.drop_last(), next).push(ordered.last())
    }
}

/// The messages in the order of their times; of those with one time, the one
/// inserted first comes first.
pub open spec fn in_time_order(messages: Seq<MessageRecord>) -> Seq<MessageRecord>
    decreases messages.len(),
{
    if messages.len() == 0 {
        Seq::empty()
    } else {
        with_next(in_time_order(messages.drop_last()), messages.last())
    }
}

/// The rows of the messages.
pub open spec fn rows_of(messages: Seq<MessageRecord>) -> Seq<MessageRowView> {
    messages.map_values(|message: MessageRecord| message.row)
}

/// The session that is read under the identifier `id`, if there is one.
pub open spec fn session_in(tables: Tables, id: Seq<char>, source_path: Seq<char>) -> Option<
    SessionView,
> {
    if tables.sessions.contains_key(id) {
        Some(
            session_of_rows(
                tables.sessions[id].row,
                rows_of(in_time_order(live_messages(tables.messages, id))),
                source_path,
            ),
        )
    } else {
        None
    }
}

/// The session `id` was started last: no other was started later. Where several
/// were started at that time, each is one that was started last.
pub open spec fn is_latest(tables: Tables, id: Seq<char>) -> bool {
    &&& tables.sessions.contains_key(id)
    &&& forall|other: Seq<char>| #[trigger]
        tables.sessions.contains_key(other) ==> tables.sessions[other].rank
            <= tables.sessions[id].rank
}

/// What is read where no session is named is a session that was started last, or
/// nothing where there is none.
pub open spec fn is_latest_in(
    session: Option<SessionView>,
    tables: Tables,
    source_path: Seq<char>,
) -> bool {
    match session {
        Some(_) => exists|id: Seq<char>| #[trigger]
            is_latest(tables, id) && session == session_in(tables, id, source_path),
        None => forall|id: Seq<char>| !#[trigger] tables.sessions.contains_key(id),
    }
}

/// The identifiers list the sessions: each session once, and none before one that
/// was started later.
pub open spec fn is_listing(tables: Tables, ids: Seq<Seq<char>>) -> bool {
    &&& ids.no_duplicates()
    &&& forall|i: int|
        0 <= i < ids.len() ==> tables.sessions.contains_key(#[trigger] ids[i])
    &&& forall|id: Seq<char>| #[trigger]
        tables.sessions.contains_key(id) ==> ids.contains(id)
    &&& forall|i: int, j: int|
        0 <= i <= j < ids.len() ==> tables.sessions[#[trigger] ids[j]].rank
            <= tables.sessions[#[trigger] ids[i]].rank
}

proof fn lemma_live_messages_concat(
    first: Seq<MessageRecord>,
    second: Seq<MessageRecord>,
    id: Seq<char>,
)
    ensures
        live_messages(first + second, id) == live_messages(first, id) + live_messages(second, id),
    decreases second.len(),
{
    if second.len() == 0 {
        assert(first + second =~= first);
        assert(live_messages(first, id) + live_messages(second, id) =~= live_messages(first, id));
    } else {
        lemma_live_messages_concat(first, second.drop_last(), id);
        assert((first + second).drop_last() =~= first + second.drop_last());
        assert(live_messages(first + second, id) =~= live_messages(first, id) + live_messages(
            second,
            id,
        ));
    }
}

/// Messages of other sessions are none of the session's.
proof fn lemma_no_live_messages(messages: Seq<MessageRecord>, id: Seq<char>)
    requires
        forall|i: int| 0 <= i < messages.len() ==> (#[trigger] messages[i]).session_id != id,
    ensures
        live_messages(messages, id) == Seq::<MessageRecord>::empty(),
    decreases messages.len(),
{
    if messages.len() > 0 {
        lemma_no_live_messages(messages.drop_last(), id);
    }
}

/// Active messages of one session are all of the session's.
proof fn lemma_all_live_messages(messages: Seq<MessageRecord>, id: Seq<char>)
    requires
        forall|i: int|
            0 <= i < messages.len() ==> (#[trigger] messages[i]).session_id == id
                && messages[i].active,
    ensures
        live_messages(messages, id) == messages,
    decreases messages.len(),
{
    if messages.len() > 0 {
        lemma_all_live_messages(messages.drop_last(), id);
        assert(messages.drop_last().push(messages.last()) =~= messages);
    } else {
        assert(live_messages(messages, id) =~= messages);
    }
}

/// Messages that were inserted in the order of their times are in that order.
proof fn lemma_in_time_order_already(messages: Seq<MessageRecord>)
    requires
        forall|i: int, j: int|
            0 <= i <= j < messages.len() ==> (#[trigger] messages[i]).rank <= (
            #[trigger] messages[j]).rank,
    ensures
        in_time_order(messages) == messages,
    decreases messages.len(),
{
    if messages.len() > 0 {
        let before = messages.drop_last();
        assert forall|i: int, j: int| 0 <= i <= j < before.len() implies (
        #[trigger] before[i]).rank <= (#[trigger] before[j]).rank by {
            assert(before[i] == messages[i] && before[j] == messages[j]);
        }
        lemma_in_time_order_already(before);
        if before.len() > 0 {
            assert(messages[before.len() - 1].rank <= messages[before.len() as int].rank);
        }
        assert(before.push(messages.last()) =~= messages);
    } else {
        assert(in_time_order(messages) =~= messages);
    }
}

// ---------------------------------------------------------------------------
// What writing does
// ---------------------------------------------------------------------------

/// The rows of messages that writing a session inserts.
pub open spec fn new_messages(
    session: SessionView,
    id: Seq<char>,
    now_secs: i64,
    store: spec_fn(Stamp) -> StoredTime,
) -> Seq<MessageRecord> {
    inserted_rows(write_steps(session, id, now_secs)).map_values(
        |row: MessageInsertView| message_record(row, store),
    )
}

/// The row of a session when it has been written with its messages.
pub open spec fn new_session(
    session: SessionView,
    id: Seq<char>,
    now_secs: i64,
    store: spec_fn(Stamp) -> StoredTime,
) -> SessionRecord {
    SessionRecord {
        message_count: session.messages.len() as int,
        tool_call_count: total_tool_calls(session.messages) as int,
        ..session_record(session_insert(session, id, now_secs), store)
    }
}

/// The tables after the steps for the first `n` messages.
proof fn lemma_after_first(
    tables: Tables,
    session: SessionView,
    id: Seq<char>,
    now_secs: i64,
    store: spec_fn(Stamp) -> StoredTime,
    n: nat,
)
    requires
        !tables.sessions.contains_key(id),
        n <= session.messages.len(),
    ensures
        after_steps(tables, write_steps(session, id, now_secs).take(1 + 2 * n as int), store) == (
        Tables {
            sessions: tables.sessions.insert(
                id,
                SessionRecord {
                    message_count: n as int,
                    tool_call_count: total_tool_calls(session.messages.take(n as int)) as int,
                    ..session_record(session_insert(session, id, now_secs), store)
                },
            ),
            messages: tables.messages + session.messages.take(n as int).map_values(
                |message: MessageView| message_record(message_insert(message, id, now_secs), store),
            ),
        }),
    decreases n,
{
    let all = write_steps(session, id, now_secs);
    let record = |message: MessageView|
        message_record(message_insert(message, id, now_secs), store);
    let now = all.take(1 + 2 * n as int);
    reveal_with_fuel(after_steps, 3);
    if n == 0 {
        assert(now.drop_last() =~= Seq::empty());
        assert(now.last() == all[0]);
        assert(session.messages.take(0).map_values(record) =~= Seq::empty());
        assert(tables.messages + Seq::<MessageRecord>::empty() =~= tables.messages);
    } else {
        let m = (n - 1) as nat;
        lemma_after_first(tables, session, id, now_secs, store, m);
        let k = 1 + 2 * m as int;
        assert((k - 1) / 2 == m && k % 2 == 1);
        assert((k + 1 - 2) / 2 == m && (k + 1) % 2 == 0);
        assert(now.last() == all[k + 1]);
        assert(now.drop_last().last() == all[k]);
        assert(now.drop_last().drop_last() =~= all.take(k));
        let first = session.messages.take(n as int);
        assert(first.drop_last() =~= session.messages.take(m as int));
        let before = after_steps(tables, all.take(k), store);
        assert(tables.messages + first.map_values(record) =~= before.messages.push(
            record(first.last()),
        ));
        assert(after_steps(tables, now, store).sessions =~= tables.sessions.insert(
            id,
            SessionRecord {
                message_count: n as int,
                tool_call_count: total_tool_calls(first) as int,
                ..session_record(session_insert(session, id, now_secs), store)
            },
        ));
    }
}

/// Writing a session under a new identifier only adds: that session is the only
/// one added, the row of every other stays as it was, the messages are those that
/// were there, followed by those of the session; and every other session is read
/// as it was read before.
pub proof fn law_writing_only_adds(
    tables: Tables,
    session: SessionView,
    id: Seq<char>,
    now_secs: i64,
    store: spec_fn(Stamp) -> StoredTime,
)
    requires
        !tables.sessions.contains_key(id),
    ensures
        after_writing(tables, session, id, now_secs, store).sessions == tables.sessions.insert(
            id,
            new_session(session, id, now_secs, store),
        ),
        after_writing(tables, session, id, now_secs, store).messages == tables.messages
            + new_messages(session, id, now_secs, store),
        forall|other: Seq<char>, source_path: Seq<char>|
            other != id ==> #[trigger] session_in(
                after_writing(tables, session, id, now_secs, store),
                other,
                source_path,
            ) == session_in(tables, other, source_path),
{
    lemma_after_writing(tables, session, id, now_secs, store);
    let added = new_messages(session, id, now_secs, store);
    let after = after_writing(tables, session, id, now_secs, store);
    assert forall|other: Seq<char>, source_path: Seq<char>| other != id implies #[trigger]
        session_in(after, other, source_path) == session_in(tables, other, source_path) by {
        lemma_no_live_messages(added, other);
        lemma_live_messages_concat(tables.messages, added, other);
        assert(live_messages(after.messages, other) =~= live_messages(tables.messages, other));
    }
}

proof fn lemma_after_writing(
    tables: Tables,
    session: SessionView,
    id: Seq<char>,
    now_secs: i64,
    store: spec_fn(Stamp) -> StoredTime,
)
    requires
        !tables.sessions.contains_key(id),
    ensures
        after_writing(tables, session, id, now_secs, store) == (Tables {
            sessions: tables.sessions.insert(id, new_session(session, id, now_secs, store)),
            messages: tables.messages + new_messages(session, id, now_secs, store),
        }),
        new_messages(session, id, now_secs, store).len() == session.messages.len(),
        forall|i: int|
            0 <= i < session.messages.len() ==> #[trigger] new_messages(
                session,
                id,
                now_secs,
                store,
            )[i] == message_record(message_insert(session.messages[i], id, now_secs), store),
{
    let all = write_steps(session, id, now_secs);
    lemma_after_first(tables, session, id, now_secs, store, session.messages.len());
    law_write_steps_fill_the_tables(session, id, now_secs);
    assert(all.take(all.len() as int) =~= all);
    assert(session.messages.take(session.messages.len() as int) =~= session.messages);
    assert(new_messages(session, id, now_secs, store) =~= session.messages.map_values(
        |message: MessageView| message_record(message_insert(message, id, now_secs), store),
    ));
}

/// The stored times of a session's messages.
pub open spec fn stored_times(
    session: SessionView,
    now_secs: i64,
    store: spec_fn(Stamp) -> StoredTime,
) -> Seq<StoredTime> {
    Seq::new(
        session.messages.len(),
        |i: int| store(stamp_or(session.messages[i].timestamp, now_secs)),
    )
}

/// What these times are read as, in milliseconds.
pub open spec fn stored_millis(
    session: SessionView,
    now_secs: i64,
    store: spec_fn(Stamp) -> StoredTime,
) -> Seq<i64> {
    stored_times(session, now_secs, store).map_values(|time: StoredTime| time.millis)
}

/// A session that was written under a new identifier, with its messages in the
/// order of their times, is read under it as what its rows are, in the order in
/// which they were written: where these are read back as the session, as the
/// session.
pub proof fn law_written_session_is_read(
    tables: Tables,
    session: SessionView,
    id: Seq<char>,
    now_secs: i64,
    store: spec_fn(Stamp) -> StoredTime,
    source_path: Seq<char>,
)
    requires
        !tables.sessions.contains_key(id),
        forall|i: int|
            0 <= i < tables.messages.len() ==> (#[trigger] tables.messages[i]).session_id != id,
        forall|i: int, j: int|
            0 <= i <= j < session.messages.len() ==> (#[trigger] stored_times(
                session,
                now_secs,
                store,
            )[i]).rank <= (#[trigger] stored_times(session, now_secs, store)[j]).rank,
    ensures
        session_in(after_writing(tables, session, id, now_secs, store), id, source_path) == Some(
            session_of_rows(
                written_session_row(
                    session_insert(session, id, now_secs),
                    store(stamp_or(session.started_at, now_secs)).millis,
                ),
                written_rows(session, id, now_secs, stored_millis(session, now_secs, store)),
                source_path,
            ),
        ),
        session_rows_read_back(session, id, now_secs) ==> session_in(
            after_writing(tables, session, id, now_secs, store),
            id,
            source_path,
        ) == Some(
            session_read_back(
                session,
                id,
                store(stamp_or(session.started_at, now_secs)).millis,
                stored_millis(session, now_secs, store),
                source_path,
            ),
        ),
{
    lemma_after_writing(tables, session, id, now_secs, store);
    let after = after_writing(tables, session, id, now_secs, store);
    let added = new_messages(session, id, now_secs, store);
    let times = stored_times(session, now_secs, store);
    let millis = stored_millis(session, now_secs, store);
    lemma_live_messages_concat(tables.messages, added, id);
    lemma_no_live_messages(tables.messages, id);
    lemma_all_live_messages(added, id);
    assert(live_messages(after.messages, id) =~= added);
    assert forall|i: int, j: int| 0 <= i <= j < added.len() implies (#[trigger] added[i]).rank <= (
    #[trigger] added[j]).rank by {
        assert(added[i].rank == times[i].rank && added[j].rank == times[j].rank);
    }
    lemma_in_time_order_already(added);
    assert(rows_of(added) =~= written_rows(session, id, now_secs, millis));
    let started = store(stamp_or(session.started_at, now_secs)).millis;
    assert(after.sessions[id].row == written_session_row(
        session_insert(session, id, now_secs),
        started,
    ));
}

/// A session that was written with a later start than all others is the one that
/// was started last, and is what is read where no session is named.
pub proof fn law_latest_session_is_read(
    tables: Tables,
    session: SessionView,
    id: Seq<char>,
    now_secs: i64,
    store: spec_fn(Stamp) -> StoredTime,
    source_path: Seq<char>,
)
    requires
        !tables.sessions.contains_key(id),
        forall|other: Seq<char>| #[trigger]
            tables.sessions.contains_key(other) ==> tables.sessions[other].rank < store(
                stamp_or(session.started_at, now_secs),
            ).rank,
    ensures
        forall|other: Seq<char>| #[trigger]
            is_latest(after_writing(tables, session, id, now_secs, store), other) <==> other == id,
        forall|read: Option<SessionView>| #[trigger]
            is_latest_in(read, after_writing(tables, session, id, now_secs, store), source_path)
                <==> read == session_in(
                after_writing(tables, session, id, now_secs, store),
                id,
                source_path,
            ),
{
    lemma_after_writing(tables, session, id, now_secs, store);
    let after = after_writing(tables, session, id, now_secs, store);
    assert(after.sessions.contains_key(id));
    assert forall|other: Seq<char>| #[trigger] is_latest(after, other) implies other == id by {
        if other != id {
            assert(tables.sessions.contains_key(other));
        }
    }
    assert forall|other: Seq<char>| #[trigger]
        after.sessions.contains_key(other) implies after.sessions[other].rank
        <= after.sessions[id].rank by {
        if other != id {
            assert(tables.sessions.contains_key(other));
        }
    }
    assert(is_latest(after, id));
    assert forall|read: Option<SessionView>| #[trigger]
        is_latest_in(read, after, source_path) <==> read == session_in(after, id, source_path) by {}
}

/// A session that was written with an earlier start than some other changes
/// nothing of which session was started last.
pub proof fn law_earlier_session_is_not_latest(
    tables: Tables,
    session: SessionView,
    id: Seq<char>,
    now_secs: i64,
    store: spec_fn(Stamp) -> StoredTime,
    later: Seq<char>,
)
    requires
        !tables.sessions.contains_key(id),
        tables.sessions.contains_key(later),
        tables.sessions[later].rank > store(stamp_or(session.started_at, now_secs)).rank,
    ensures
        forall|other: Seq<char>| #[trigger]
            is_latest(after_writing(tables, session, id, now_secs, store), other) <==> is_latest(
                tables,
                other,
            ),
{
    lemma_after_writing(tables, session, id, now_secs, store);
    let after = after_writing(tables, session, id, now_secs, store);
    assert(after.sessions.contains_key(later));
    assert forall|other: Seq<char>| #[trigger] is_latest(after, other) <==> is_latest(
        tables,
        other,
    ) by {
        if is_latest(after, other) {
            assert forall|x: Seq<char>| #[trigger]
                tables.sessions.contains_key(x) implies tables.sessions[x].rank
                <= tables.sessions[other].rank by {
                assert(after.sessions.contains_key(x));
            }
        }
        if is_latest(tables, other) {
            assert forall|x: Seq<char>| #[trigger]
                after.sessions.contains_key(x) implies after.sessions[x].rank
                <= after.sessions[other].rank by {
                if x != id {
                    assert(tables.sessions.contains_key(x));
                }
            }
        }
    }
}

/// The first of the sessions listed was started last.
pub proof fn law_first_listed_is_latest(tables: Tables, ids: Seq<Seq<char>>)
    requires
        is_listing(tables, ids),
        ids.len() > 0,
    ensures
        is_latest(tables, ids[0]),
{
    assert forall|other: Seq<char>| #[trigger]
        tables.sessions.contains_key(other) implies tables.sessions[other].rank
        <= tables.sessions[ids[0]].rank by {
        assert(ids.contains(other));
        let i = choose|i: int| 0 <= i < ids.len() && ids[i] == other;
        assert(tables.sessions[ids[i]].rank <= tables.sessions[ids[0]].rank);
    }
}

/// Writing a session under a new identifier adds exactly that identifier to the
/// list: it is listed, in one place, and without it the list is one of what was
/// there before.
pub proof fn law_writing_adds_one_to_the_list(
    tables: Tables,
    session: SessionView,
    id: Seq<char>,
    now_secs: i64,
    store: spec_fn(Stamp) -> StoredTime,
    ids: Seq<Seq<char>>,
)
    requires
        !tables.sessions.contains_key(id),
        is_listing(after_writing(tables, session, id, now_secs, store), ids),
    ensures
        exists|i: int|
            0 <= i < ids.len() && #[trigger] ids[i] == id && is_listing(tables, ids.remove(i)),
{
    lemma_after_writing(tables, session, id, now_secs, store);
    let after = after_writing(tables, session, id, now_secs, store);
    assert(after.sessions.contains_key(id));
    let at = choose|i: int| 0 <= i < ids.len() && ids[i] == id;
    let rest = ids.remove(at);
    let origin = |i: int|
        if i < at {
            i
        } else {
            i + 1
        };
    assert forall|i: int| 0 <= i < rest.len() implies #[trigger] rest[i] == ids[origin(i)]
        && rest[i] != id by {
        assert(ids[origin(i)] != ids[at]);
    }
    assert forall|i: int| 0 <= i < rest.len() implies tables.sessions.contains_key(
        #[trigger] rest[i],
    ) by {
        assert(after.sessions.contains_key(ids[origin(i)]));
    }
    assert forall|other: Seq<char>| #[trigger] tables.sessions.contains_key(other) implies rest
        .contains(other) by {
        assert(after.sessions.contains_key(other));
        let i = choose|i: int| 0 <= i < ids.len() && ids[i] == other;
        assert(i != at);
        if i < at {
            assert(rest[i] == other);
        } else {
            assert(rest[i - 1] == other);
        }
    }
    assert forall|i: int, j: int| 0 <= i <= j < rest.len() implies tables.sessions[
        #[trigger] rest[j]
    ].rank <= tables.sessions[#[trigger] rest[i]].rank by {
        assert(rest[i] == ids[origin(i)] && rest[j] == ids[origin(j)]);
        assert(after.sessions[ids[origin(j)]].rank <= after.sessions[ids[origin(i)]].rank);
    }
    assert(is_listing(tables, rest));
    assert(ids[at] == id);
}

/// The place of a session that was started at `rank` in a list of sessions: behind
/// those that were not started earlier.
pub open spec fn place_in_list(tables: Tables, ids: Seq<Seq<char>>, rank: int) -> int
    decreases ids.len(),
{
    if ids.len() == 0 || tables.sessions[ids.last()].rank >= rank {
        ids.len() as int
    } else {
        place_in_list(tables, ids.drop_last(), rank)
    }
}

proof fn lemma_place_in_list(tables: Tables, ids: Seq<Seq<char>>, rank: int)
    requires
        forall|i: int, j: int|
            0 <= i <= j < ids.len() ==> tables.sessions[#[trigger] ids[j]].rank
                <= tables.sessions[#[trigger] ids[i]].rank,
    ensures
        0 <= place_in_list(tables, ids, rank) <= ids.len(),
        forall|i: int|
            0 <= i < place_in_list(tables, ids, rank) ==> tables.sessions[#[trigger] ids[i]].rank
                >= rank,
        forall|i: int|
            place_in_list(tables, ids, rank) <= i < ids.len() ==> tables.sessions[
                #[trigger] ids[i]
            ].rank < rank,
    decreases ids.len(),
{
    if ids.len() > 0 {
        if tables.sessions[ids.last()].rank >= rank {
            assert forall|i: int| 0 <= i < ids.len() implies tables.sessions[
                #[trigger] ids[i]
            ].rank >= rank by {
                assert(tables.sessions[ids[ids.len() - 1]].rank <= tables.sessions[ids[i]].rank);
            }
        } else {
            let rest = ids.drop_last();
            assert forall|i: int, j: int| 0 <= i <= j < rest.len() implies tables.sessions[
                #[trigger] rest[j]
            ].rank <= tables.sessions[#[trigger] rest[i]].rank by {
                assert(rest[i] == ids[i] && rest[j] == ids[j]);
            }
            lemma_place_in_list(tables, rest, rank);
            let p = place_in_list(tables, rest, rank);
            assert forall|i: int| 0 <= i < p implies tables.sessions[#[trigger] ids[i]].rank
                >= rank by {
                assert(rest[i] == ids[i]);
            }
            assert forall|i: int| p <= i < ids.len() implies tables.sessions[
                #[trigger] ids[i]
            ].rank < rank by {
                if i < rest.len() {
                    assert(rest[i] == ids[i]);
                }
            }
        }
    }
}

/// A list of the sessions with the identifier of a session that was written put
/// in its place is a list of the sessions after the writing.
pub proof fn law_list_takes_the_written_session(
    tables: Tables,
    session: SessionView,
    id: Seq<char>,
    now_secs: i64,
    store: spec_fn(Stamp) -> StoredTime,
    ids: Seq<Seq<char>>,
)
    requires
        !tables.sessions.contains_key(id),
        is_listing(tables, ids),
    ensures
        is_listing(
            after_writing(tables, session, id, now_secs, store),
            ids.insert(
                place_in_list(
                    tables,
                    ids,
                    store(stamp_or(session.started_at, now_secs)).rank,
                ),
                id,
            ),
        ),
{
    lemma_after_writing(tables, session, id, now_secs, store);
    let after = after_writing(tables, session, id, now_secs, store);
    let rank = store(stamp_or(session.started_at, now_secs)).rank;
    lemma_place_in_list(tables, ids, rank);
    let at = place_in_list(tables, ids, rank);
    let longer = ids.insert(at, id);
    let origin = |i: int|
        if i < at {
            i
        } else {
            i - 1
        };
    assert(after.sessions[id].rank == rank);
    assert forall|i: int| 0 <= i < longer.len() && i != at implies #[trigger] longer[i]
        == ids[origin(i)] && longer[i] != id && after.sessions.contains_key(longer[i])
        && after.sessions[longer[i]] == tables.sessions[ids[origin(i)]] by {
        assert(tables.sessions.contains_key(ids[origin(i)]));
    }
    assert(longer[at] == id);
    assert forall|other: Seq<char>| #[trigger] after.sessions.contains_key(other) implies longer
        .contains(other) by {
        if other != id {
            assert(tables.sessions.contains_key(other));
            let i = choose|i: int| 0 <= i < ids.len() && ids[i] == other;
            if i < at {
                assert(longer[i] == other);
            } else {
                assert(longer[i + 1] == other);
            }
        }
    }
    assert forall|i: int, j: int| 0 <= i <= j < longer.len() implies after.sessions[
        #[trigger] longer[j]
    ].rank <= after.sessions[#[trigger] longer[i]].rank by {
        if i != at && j != at {
            assert(tables.sessions[ids[origin(j)]].rank <= tables.sessions[ids[origin(i)]].rank);
        } else if i != at {
            assert(tables.sessions[ids[origin(i)]].rank >= rank);
        } else if j != at {
            assert(tables.sessions[ids[origin(j)]].rank < rank);
        }
    }
    assert(longer.no_duplicates());
}

// ---------------------------------------------------------------------------
// What a transaction does
// ---------------------------------------------------------------------------

/// A database as one connection has it: the tables as they were committed, and
/// as they are in the open transaction, if there is one.
#[verifier::ext_equal]
pub struct Database {
    pub committed: Tables,
    pub open: Option<Tables>,
}

impl Database {
    /// The tables that the connection sees.
    pub open spec fn seen(self) -> Tables {
        match self.open {
            Some(tables) => tables,
            None => self.committed,
        }
    }
}

/// The database after `state` of the transaction was done, with success or
/// without. What fails changes nothing.
pub open spec fn after_statement(
    db: Database,
    state: TxState,
    success: bool,
    steps: Seq<WriteStepView>,
    store: spec_fn(Stamp) -> StoredTime,
) -> Database {
    if !success {
        db
    } else {
        match state {
            TxState::Begin => Database { open: Some(db.committed), ..db },
            TxState::Step(at) => Database {
                open: Some(after_step(db.seen(), steps[at as int], store)),
                ..db
            },
            TxState::Commit => Database { committed: db.seen(), open: None },
            TxState::Rollback => Database { open: None, ..db },
            TxState::Done => db,
            TxState::Failed => db,
        }
    }
}

/// The database after what was done in the transaction of these steps turned out
/// as `outcomes` say.
pub open spec fn after_transaction(
    db: Database,
    steps: Seq<WriteStepView>,
    outcomes: Seq<bool>,
    store: spec_fn(Stamp) -> StoredTime,
) -> Database
    decreases outcomes.len(),
{
    if outcomes.len() == 0 {
        db
    } else {
        after_statement(
            after_transaction(db, steps, outcomes.drop_last(), store),
            tx_after(outcomes.drop_last(), steps.len()),
            outcomes.last(),
            steps,
            store,
        )
    }
}

/// Where the transaction was to be rolled back, that succeeded.
pub open spec fn rolled_back(outcomes: Seq<bool>, steps: nat) -> bool {
    forall|k: int|
        0 <= k < outcomes.len() && #[trigger] tx_after(outcomes.take(k), steps) is Rollback
            ==> outcomes[k]
}

/// A transaction does all of its steps or nothing: when it is done, the tables
/// are those after all steps; before, and when it has failed, what is committed is
/// what it was. When it has failed, at whatever statement, and was rolled back
/// where it had begun, the database is what it was, outside any transaction.
pub proof fn law_transaction_does_all_or_nothing(
    db: Database,
    steps: Seq<WriteStepView>,
    outcomes: Seq<bool>,
    store: spec_fn(Stamp) -> StoredTime,
)
    requires
        db.open is None,
        steps.len() <= usize::MAX,
    ensures
        tx_after(outcomes, steps.len()) is Done ==> after_transaction(db, steps, outcomes, store)
            == (Database { committed: after_steps(db.committed, steps, store), open: None }),
        !(tx_after(outcomes, steps.len()) is Done) ==> after_transaction(
            db,
            steps,
            outcomes,
            store,
        ).committed == db.committed,
        tx_after(outcomes, steps.len()) is Failed && rolled_back(outcomes, steps.len())
            ==> after_transaction(db, steps, outcomes, store) == db,
{
    lemma_transaction(db, steps, outcomes, store);
}

/// How far the transaction has come in each state.
proof fn lemma_transaction(
    db: Database,
    steps: Seq<WriteStepView>,
    outcomes: Seq<bool>,
    store: spec_fn(Stamp) -> StoredTime,
)
    requires
        db.open is None,
        steps.len() <= usize::MAX,
    ensures
        ({
            let now = after_transaction(db, steps, outcomes, store);
            match tx_after(outcomes, steps.len()) {
                TxState::Begin => now == db,
                TxState::Step(at) => at < steps.len() && now == (Database {
                    open: Some(after_steps(db.committed, steps.take(at as int), store)),
                    ..db
                }),
                TxState::Commit => now == (Database {
                    open: Some(after_steps(db.committed, steps, store)),
                    ..db
                }),
                TxState::Rollback => now.committed == db.committed,
                TxState::Done => now == (Database {
                    committed: after_steps(db.committed, steps, store),
                    open: None,
                }),
                TxState::Failed => now.committed == db.committed && (rolled_back(
                    outcomes,
                    steps.len(),
                ) ==> now == db),
            }
        }),
    decreases outcomes.len(),
{
    if outcomes.len() > 0 {
        let before = outcomes.drop_last();
        lemma_transaction(db, steps, before, store);
        let last = before.len() as int;
        assert(outcomes.take(last) =~= before);
        if rolled_back(outcomes, steps.len()) {
            assert forall|k: int|
                0 <= k < before.len() && #[trigger] tx_after(before.take(k), steps.len())
                    is Rollback implies before[k] by {
                assert(outcomes.take(k) =~= before.take(k));
                assert(outcomes[k] == before[k]);
            }
        }
        match tx_after(before, steps.len()) {
            TxState::Begin => {
                assert(steps.take(0) =~= Seq::empty());
                if steps.len() == 0 {
                    assert(steps =~= Seq::empty());
                }
            },
            TxState::Step(at) => {
                let next = steps.take(at + 1);
                assert(next.drop_last() =~= steps.take(at as int));
                assert(next.last() == steps[at as int]);
                if at + 1 == steps.len() {
                    assert(next =~= steps);
                }
            },
            TxState::Rollback => {
                assert(tx_after(outcomes.take(last), steps.len()) is Rollback);
            },
            _ => {},
        }
    }
}

} // verus!
