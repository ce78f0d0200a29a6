//! The tables that are written to, what each write does to them, and what holds of them.
use vstd::prelude::*;

use crate::store::{
    before_message, behind_message, channel_syncs, mention_writes, message_itself, step_behind,
    thread_of, ChannelView, LocalView, SaveStep, StoredView, WriteView,
};

verus! {

/// A recorded thread.
pub struct ThreadRow {
    pub id: i64,
    pub tag: Seq<char>,
}

/// A recorded message.
pub struct MessageRow {
    pub id: i64,
    pub user_id: Option<Seq<char>>,
    pub thread_id: Option<i64>,
    pub text: Seq<char>,
    pub note: Option<Seq<char>>,
}

/// What is recorded: users and channels by id, threads and messages by channel and
/// timestamp, and the pairs of message and mentioned user.
#[verifier::ext_equal]
pub struct Tables {
    pub users: Map<Seq<char>, Seq<char>>,
    pub channels: Map<Seq<char>, (Seq<char>, Seq<char>)>,
    pub threads: Map<(Seq<char>, Seq<char>), ThreadRow>,
    pub messages: Map<(Seq<char>, Seq<char>), MessageRow>,
    pub mentions: Set<(i64, Seq<char>)>,
}

/// What a write does to the tables, `id` being the row id that it answers where it
/// answers one.
pub open spec fn written(t: Tables, w: WriteView, id: i64) -> Tables {
    match w {
        WriteView::UpsertUser { id: user, name } => Tables { users: t.users.insert(user, name), ..t },
        WriteView::UpsertChannel { id: channel, name, kind } => Tables {
            channels: t.channels.insert(channel, (name, kind)),
            ..t
        },
        WriteView::EnsureChannel { id: channel } => if t.channels.contains_key(channel) {
            t
        } else {
            Tables { channels: t.channels.insert(channel, (channel, "unknown"@)), ..t }
        },
        WriteView::EnsureUser { id: user } => if t.users.contains_key(user) {
            t
        } else {
            Tables { users: t.users.insert(user, user), ..t }
        },
        WriteView::UpsertThread { channel_id, thread_ts, tag } => Tables {
            threads: t.threads.insert((channel_id, thread_ts), ThreadRow { id, tag }),
            ..t
        },
        WriteView::UpsertMessage { channel_id, ts, user_id, thread_id, text, note } => Tables {
            messages: t.messages.insert(
                (channel_id, ts),
                MessageRow { id, user_id, thread_id, text, note },
            ),
            ..t
        },
        WriteView::ClearMentions { message_id } => Tables {
            mentions: t.mentions.filter(|p: (i64, Seq<char>)| p.0 != message_id),
            ..t
        },
        WriteView::AddMention { message_id, user_id } => Tables {
            mentions: t.mentions.insert((message_id, user_id)),
            ..t
        },
    }
}

/// What a series of writes that answer nothing does to the tables.
pub open spec fn all_written(t: Tables, writes: Seq<WriteView>) -> Tables
    decreases writes.len(),
{
    if writes.len() == 0 {
        t
    } else {
        written(all_written(t, writes.drop_last()), writes.last(), 0)
    }
}

/// Whether `id` is what a database answers to an upsert: the id of the row that is
/// there, or one that no row of that table has.
pub open spec fn answers(t: Tables, w: WriteView, id: i64) -> bool {
    match w {
        WriteView::UpsertThread { channel_id, thread_ts, tag } => {
            let key = (channel_id, thread_ts);
            if t.threads.contains_key(key) {
                id == t.threads[key].id
            } else {
                forall|k: (Seq<char>, Seq<char>)| #[trigger]
                    t.threads.contains_key(k) ==> t.threads[k].id != id
            }
        },
        WriteView::UpsertMessage { channel_id, ts, user_id, thread_id, text, note } => {
            let key = (channel_id, ts);
            if t.messages.contains_key(key) {
                id == t.messages[key].id
            } else {
                forall|k: (Seq<char>, Seq<char>)| #[trigger]
                    t.messages.contains_key(k) ==> t.messages[k].id != id
            }
        },
        _ => true,
    }
}

/// The row of the thread of a message that `thread_id` was answered for.
pub open spec fn thread_row(m: StoredView, thread_id: i64) -> Option<i64> {
    if thread_of(m) is Some {
        Some(thread_id)
    } else {
        None
    }
}

/// The tables when the channel, the user and the thread of a message have been written.
pub open spec fn prepared(t: Tables, m: StoredView, thread_id: i64) -> Tables {
    let ensured = all_written(t, before_message(m));
    match thread_of(m) {
        Some(w) => written(ensured, w, thread_id),
        None => ensured,
    }
}

/// The tables when a message has been recorded, with the row ids that were answered.
pub open spec fn saved(t: Tables, m: StoredView, thread_id: i64, message_id: i64) -> Tables {
    all_written(
        written(
            prepared(t, m, thread_id),
            message_itself(m, thread_row(m, thread_id)),
            message_id,
        ),
        behind_message(m, message_id),
    )
}

/// Whether a database answers these row ids when a message is recorded.
pub open spec fn save_answers(t: Tables, m: StoredView, thread_id: i64, message_id: i64) -> bool {
    &&& thread_of(m) matches Some(w) ==> answers(all_written(t, before_message(m)), w, thread_id)
    &&& answers(
        prepared(t, m, thread_id),
        message_itself(m, thread_row(m, thread_id)),
        message_id,
    )
}

/// Whether the tables fit together: row ids tell rows apart, and whatever a row refers to
/// is there.
pub open spec fn consistent(t: Tables) -> bool {
    &&& forall|a: (Seq<char>, Seq<char>), b: (Seq<char>, Seq<char>)|
        #![trigger t.threads.contains_key(a), t.threads.contains_key(b)]
        t.threads.contains_key(a) && t.threads.contains_key(b) && t.threads[a].id
            == t.threads[b].id ==> a == b
    &&& forall|a: (Seq<char>, Seq<char>), b: (Seq<char>, Seq<char>)|
        #![trigger t.messages.contains_key(a), t.messages.contains_key(b)]
        t.messages.contains_key(a) && t.messages.contains_key(b) && t.messages[a].id
            == t.messages[b].id ==> a == b
    &&& forall|k: (Seq<char>, Seq<char>)| #[trigger]
        t.threads.contains_key(k) ==> t.channels.contains_key(k.0)
    &&& forall|k: (Seq<char>, Seq<char>)| #[trigger]
        t.messages.contains_key(k) ==> t.channels.contains_key(k.0) && (t.messages[k].user_id
            matches Some(user) ==> t.users.contains_key(user)) && (t.messages[k].thread_id
            matches Some(id) ==> thread_with_id(t, id) is Some)
    &&& forall|p: (i64, Seq<char>)| #[trigger]
        t.mentions.contains(p) ==> t.users.contains_key(p.1) && message_with_id(t, p.0) is Some
}

/// The key of the thread in row `id`.
pub open spec fn thread_with_id(t: Tables, id: i64) -> Option<(Seq<char>, Seq<char>)> {
    if exists|k: (Seq<char>, Seq<char>)| #[trigger] t.threads.contains_key(k) && t.threads[k].id == id {
        Some(
            choose|k: (Seq<char>, Seq<char>)| #[trigger]
                t.threads.contains_key(k) && t.threads[k].id == id,
        )
    } else {
        None
    }
}

/// The key of the message in row `id`.
pub open spec fn message_with_id(t: Tables, id: i64) -> Option<(Seq<char>, Seq<char>)> {
    if exists|k: (Seq<char>, Seq<char>)| #[trigger] t.messages.contains_key(k) && t.messages[k].id
        == id {
        Some(
            choose|k: (Seq<char>, Seq<char>)| #[trigger]
                t.messages.contains_key(k) && t.messages[k].id == id,
        )
    } else {
        None
    }
}

/// The message of a channel and timestamp, read back together with its thread.
pub open spec fn read_back(t: Tables, channel_id: Seq<char>, ts: Seq<char>) -> Option<LocalView> {
    if t.messages.contains_key((channel_id, ts)) {
        let row = t.messages[(channel_id, ts)];
        Some(
            LocalView {
                id: row.id,
                ts,
                channel_id,
                user_id: row.user_id,
                text: row.text,
                note: row.note,
                thread_ts: match row.thread_id {
                    Some(id) => match thread_with_id(t, id) {
                        Some(key) => Some(key.1),
                        None => None,
                    },
                    None => None,
                },
            },
        )
    } else {
        None
    }
}

/// The names that are read back of the channels.
pub open spec fn channel_names_in(t: Tables) -> Map<Seq<char>, Seq<char>> {
    t.channels.map_values(|c: (Seq<char>, Seq<char>)| c.0)
}

// ---------------------------------------------------------------------------
// What recording a message comes to.
// ---------------------------------------------------------------------------

/// `names` with each of `ids` that has no name named by itself.
pub open spec fn with_placeholders(
    names: Map<Seq<char>, Seq<char>>,
    ids: Seq<Seq<char>>,
) -> Map<Seq<char>, Seq<char>> {
    Map::new(
        |id: Seq<char>| names.contains_key(id) || ids.contains(id),
        |id: Seq<char>|
            if names.contains_key(id) {
                names[id]
            } else {
                id
            },
    )
}

/// The users that a message refers to: its author and those it mentions.
pub open spec fn users_in(m: StoredView) -> Seq<Seq<char>> {
    match m.user_id {
        Some(user) => seq![user] + m.mentions,
        None => m.mentions,
    }
}

proof fn lemma_writes_in_turn(t: Tables, a: Seq<WriteView>, b: Seq<WriteView>)
    ensures
        all_written(t, a + b) == all_written(all_written(t, a), b),
    decreases b.len(),
{
    if b.len() == 0 {
        assert(a + b =~= a);
    } else {
        assert((a + b).drop_last() =~= a + b.drop_last());
        assert((a + b).last() == b.last());
        lemma_writes_in_turn(t, a, b.drop_last());
    }
}

proof fn lemma_mentions_written(t: Tables, mentions: Seq<Seq<char>>, message_id: i64, n: nat)
    requires
        n <= mentions.len(),
    ensures
        all_written(t, mention_writes(mentions, message_id, n)) == (Tables {
            users: with_placeholders(t.users, mentions.take(n as int)),
            mentions: Set::new(
                |p: (i64, Seq<char>)|
                    t.mentions.contains(p) || (p.0 == message_id && mentions.take(
                        n as int,
                    ).contains(p.1)),
            ),
            ..t
        }),
    decreases n,
{
    let r = all_written(t, mention_writes(mentions, message_id, n));
    let listed = mentions.take(n as int);
    let users = with_placeholders(t.users, listed);
    let pairs = Set::new(
        |p: (i64, Seq<char>)|
            t.mentions.contains(p) || (p.0 == message_id && listed.contains(p.1)),
    );
    if n == 0 {
        assert(r.users =~= users);
        assert(r.mentions =~= pairs);
    } else {
        let earlier = mention_writes(mentions, message_id, (n - 1) as nat);
        let user = mentions[n - 1];
        let before = mentions.take(n - 1);
        lemma_mentions_written(t, mentions, message_id, (n - 1) as nat);
        let one = WriteView::EnsureUser { id: user };
        let two = WriteView::AddMention { message_id, user_id: user };
        assert(earlier.push(one).push(two).drop_last() =~= earlier.push(one));
        assert(earlier.push(one).drop_last() =~= earlier);
        let s = all_written(t, earlier);
        reveal_with_fuel(all_written, 3);
        assert(r == written(written(s, one, 0), two, 0));
        assert(listed =~= before.push(user));
        assert forall|u: Seq<char>| #[trigger] listed.contains(u) <==> (before.contains(u) || u
            == user) by {
            if before.contains(u) {
                let k = choose|k: int| 0 <= k < before.len() && before[k] == u;
                assert(listed[k] == u);
            }
            if u == user {
                assert(listed[n - 1] == u);
            }
            if listed.contains(u) {
                let k = choose|k: int| 0 <= k < listed.len() && listed[k] == u;
                if k < n - 1 {
                    assert(before[k] == u);
                }
            }
        }
        assert(r.users =~= users);
        assert(r.mentions =~= pairs);
    }
}

/// What recording a message comes to: its row, its thread's row, a placeholder for
/// everything that it refers to and that was not there, and its mentions in place of those
/// that it had.
pub open spec fn recorded_in(t: Tables, m: StoredView, thread_id: i64, message_id: i64) -> Tables {
    Tables {
        users: with_placeholders(t.users, users_in(m)),
        channels: if t.channels.contains_key(m.channel_id) {
            t.channels
        } else {
            t.channels.insert(m.channel_id, (m.channel_id, "unknown"@))
        },
        threads: match thread_of(m) {
            Some(w) => t.threads.insert(
                (m.channel_id, m.thread_ts->0),
                ThreadRow { id: thread_id, tag: m.thread_tag->0 },
            ),
            None => t.threads,
        },
        messages: t.messages.insert(
            (m.channel_id, m.ts),
            MessageRow {
                id: message_id,
                user_id: m.user_id,
                thread_id: thread_row(m, thread_id),
                text: m.text,
                note: m.note,
            },
        ),
        mentions: Set::new(
            |p: (i64, Seq<char>)|
                if p.0 == message_id {
                    m.mentions.contains(p.1)
                } else {
                    t.mentions.contains(p)
                },
        ),
    }
}

proof fn lemma_prepared(t: Tables, m: StoredView, thread_id: i64)
    ensures
        prepared(t, m, thread_id) == (Tables {
            users: with_placeholders(
                t.users,
                match m.user_id {
                    Some(user) => seq![user],
                    None => Seq::empty(),
                },
            ),
            channels: recorded_in(t, m, thread_id, 0).channels,
            threads: recorded_in(t, m, thread_id, 0).threads,
            ..t
        }),
{
    let channel = WriteView::EnsureChannel { id: m.channel_id };
    let ids = match m.user_id {
        Some(user) => seq![user],
        None => Seq::empty(),
    };
    let users = with_placeholders(t.users, ids);
    assert(seq![channel].drop_last() =~= Seq::empty());
    let first = all_written(t, seq![channel]);
    assert(all_written(t, Seq::empty()) == t);
    assert(first == written(t, channel, 0));
    match m.user_id {
        Some(user) => {
            let second = WriteView::EnsureUser { id: user };
            assert(seq![channel].push(second).drop_last() =~= seq![channel]);
            assert(all_written(t, before_message(m)) == written(first, second, 0));
            assert(seq![user][0] == user);
            assert(ids.contains(user));
        },
        None => {},
    }
    assert(all_written(t, before_message(m)).users =~= users);
}

/// The series of writes that records a message comes to one row for the message, one for
/// its thread, placeholders for what it refers to, and exactly its mentions.
pub proof fn law_writes_record_the_message(
    t: Tables,
    m: StoredView,
    thread_id: i64,
    message_id: i64,
)
    ensures
        saved(t, m, thread_id, message_id) == recorded_in(t, m, thread_id, message_id),
{
    lemma_prepared(t, m, thread_id);
    let p = prepared(t, m, thread_id);
    let w = written(p, message_itself(m, thread_row(m, thread_id)), message_id);
    let clear = WriteView::ClearMentions { message_id };
    let c = all_written(w, seq![clear]);
    assert(seq![clear].drop_last() =~= Seq::empty());
    assert(all_written(w, Seq::empty()) == w);
    assert(c == written(w, clear, 0));
    lemma_writes_in_turn(
        w,
        seq![clear],
        mention_writes(m.mentions, message_id, m.mentions.len()),
    );
    lemma_mentions_written(c, m.mentions, message_id, m.mentions.len());
    assert(m.mentions.take(m.mentions.len() as int) =~= m.mentions);
    let r = saved(t, m, thread_id, message_id);
    let e = recorded_in(t, m, thread_id, message_id);
    assert(r.mentions =~= e.mentions);
    assert(r.users =~= e.users) by {
        let ids = users_in(m);
        assert forall|u: Seq<char>| #[trigger] ids.contains(u) <==> (m.user_id == Some(u)
            || m.mentions.contains(u)) by {
            if let Some(user) = m.user_id {
                assert(ids[0] == user);
                if m.mentions.contains(u) {
                    let k = choose|k: int| 0 <= k < m.mentions.len() && m.mentions[k] == u;
                    assert(ids[k + 1] == u);
                }
                if ids.contains(u) {
                    let k = choose|k: int| 0 <= k < ids.len() && ids[k] == u;
                    if k > 0 {
                        assert(m.mentions[k - 1] == u);
                    }
                }
            }
        }
        if let Some(user) = m.user_id {
            assert forall|u: Seq<char>| #[trigger] seq![user].contains(u) <==> u == user by {
                assert(seq![user][0] == user);
            }
        }
    }
    assert(r =~= e);
}

// ---------------------------------------------------------------------------
// Laws.
// ---------------------------------------------------------------------------

/// Recording a message a second time changes nothing.
pub proof fn law_saving_again_changes_nothing(
    t: Tables,
    m: StoredView,
    thread_id: i64,
    message_id: i64,
)
    ensures
        saved(saved(t, m, thread_id, message_id), m, thread_id, message_id) == saved(
            t,
            m,
            thread_id,
            message_id,
        ),
{
    let once = saved(t, m, thread_id, message_id);
    law_writes_record_the_message(t, m, thread_id, message_id);
    law_writes_record_the_message(once, m, thread_id, message_id);
    let twice = recorded_in(once, m, thread_id, message_id);
    assert(twice.users =~= once.users);
    assert(twice.threads =~= once.threads);
    assert(twice.messages =~= once.messages);
    assert(twice.mentions =~= once.mentions);
}

/// Recording a message again, edited or not, hits the row that it has, and the row of its
/// thread: the database answers the same ids.
pub proof fn law_saving_again_hits_the_same_rows(
    t: Tables,
    m: StoredView,
    thread_id: i64,
    message_id: i64,
    again: StoredView,
    thread_again: i64,
    message_again: i64,
)
    requires
        again.channel_id == m.channel_id,
        again.ts == m.ts,
        save_answers(saved(t, m, thread_id, message_id), again, thread_again, message_again),
    ensures
        message_again == message_id,
        thread_of(m) is Some && thread_of(again) is Some && again.thread_ts == m.thread_ts
            ==> thread_again == thread_id,
        saved(saved(t, m, thread_id, message_id), again, thread_again, message_again).messages.dom()
            == saved(t, m, thread_id, message_id).messages.dom(),
{
    let once = saved(t, m, thread_id, message_id);
    law_writes_record_the_message(t, m, thread_id, message_id);
    lemma_prepared(once, again, thread_again);
    law_writes_record_the_message(once, again, thread_again, message_again);
    let ensured = all_written(once, before_message(again));
    assert(ensured.threads == once.threads) by {
        lemma_before_message(once, again);
    }
    assert(saved(once, again, thread_again, message_again).messages.dom()
        =~= once.messages.dom());
}

proof fn lemma_before_message(t: Tables, m: StoredView)
    ensures
        all_written(t, before_message(m)).threads == t.threads,
{
    let channel = WriteView::EnsureChannel { id: m.channel_id };
    assert(seq![channel].drop_last() =~= Seq::empty());
    assert(all_written(t, Seq::empty()) == t);
    assert(all_written(t, seq![channel]) == written(t, channel, 0));
    if let Some(user) = m.user_id {
        let second = WriteView::EnsureUser { id: user };
        assert(seq![channel].push(second).drop_last() =~= seq![channel]);
    }
}

/// Recording a message leaves every other message, and the mentions of every other
/// message, as they are; and it never clobbers the name of a user or a channel.
pub proof fn law_saving_leaves_the_rest(
    t: Tables,
    m: StoredView,
    thread_id: i64,
    message_id: i64,
)
    ensures
        ({
            let r = saved(t, m, thread_id, message_id);
            &&& forall|k: (Seq<char>, Seq<char>)|
                k != (m.channel_id, m.ts) ==> (#[trigger] r.messages.contains_key(k)
                    <==> t.messages.contains_key(k)) && (t.messages.contains_key(k)
                    ==> r.messages[k] == t.messages[k])
            &&& forall|p: (i64, Seq<char>)|
                p.0 != message_id ==> (#[trigger] r.mentions.contains(p) <==> t.mentions.contains(
                    p,
                ))
            &&& forall|id: Seq<char>| #[trigger]
                t.users.contains_key(id) ==> r.users.contains_key(id) && r.users[id] == t.users[id]
            &&& forall|id: Seq<char>| #[trigger]
                t.channels.contains_key(id) ==> r.channels.contains_key(id) && r.channels[id]
                    == t.channels[id]
        }),
{
    law_writes_record_the_message(t, m, thread_id, message_id);
}

/// The mentions of a recorded message are exactly those of its last recording.
pub proof fn law_mentions_are_replaced(
    t: Tables,
    m: StoredView,
    thread_id: i64,
    message_id: i64,
    user: Seq<char>,
)
    ensures
        saved(t, m, thread_id, message_id).mentions.contains((message_id, user))
            <==> m.mentions.contains(user),
{
    law_writes_record_the_message(t, m, thread_id, message_id);
}

/// What a recording leaves behind fits together where the tables did before: row ids tell
/// rows apart, and whatever a row refers to is there.
pub proof fn law_saving_keeps_tables_consistent(
    t: Tables,
    m: StoredView,
    thread_id: i64,
    message_id: i64,
)
    requires
        consistent(t),
        save_answers(t, m, thread_id, message_id),
    ensures
        consistent(saved(t, m, thread_id, message_id)),
{
    law_writes_record_the_message(t, m, thread_id, message_id);
    lemma_prepared(t, m, thread_id);
    lemma_before_message(t, m);
    let r = saved(t, m, thread_id, message_id);
    let key = (m.channel_id, m.ts);
    assert(r.messages.contains_key(key));
    assert forall|id: i64| #[trigger] thread_with_id(t, id) is Some implies thread_with_id(
        r,
        id,
    ) is Some by {
        let k = thread_with_id(t, id)->0;
        assert(t.threads.contains_key(k) && t.threads[k].id == id);
        assert(r.threads.contains_key(k) && r.threads[k].id == id);
    }
    assert forall|id: i64| #[trigger] message_with_id(t, id) is Some implies message_with_id(
        r,
        id,
    ) is Some by {
        let k = message_with_id(t, id)->0;
        assert(t.messages.contains_key(k) && t.messages[k].id == id);
        assert(r.messages.contains_key(k) && r.messages[k].id == id);
    }
    if thread_of(m) is Some {
        let tk = (m.channel_id, m.thread_ts->0);
        assert(r.threads.contains_key(tk) && r.threads[tk].id == thread_id);
        assert(thread_with_id(r, thread_id) is Some);
    }
    assert(message_with_id(r, message_id) is Some);
    let ids = users_in(m);
    if let Some(user) = m.user_id {
        assert(ids[0] == user);
        assert(ids.contains(user));
    }
    assert forall|u: Seq<char>| m.mentions.contains(u) implies r.users.contains_key(u) by {
        let k = choose|k: int| 0 <= k < m.mentions.len() && m.mentions[k] == u;
        if m.user_id is Some {
            assert(ids[k + 1] == u);
        } else {
            assert(ids[k] == u);
        }
    }
    assert forall|k: (Seq<char>, Seq<char>)| #[trigger] r.messages.contains_key(k) implies
        r.channels.contains_key(k.0) && (r.messages[k].user_id matches Some(user)
        ==> r.users.contains_key(user)) && (r.messages[k].thread_id matches Some(id)
        ==> thread_with_id(r, id) is Some) by {
        if k != key {
            assert(t.messages.contains_key(k));
        }
    }
    assert forall|p: (i64, Seq<char>)| #[trigger] r.mentions.contains(p) implies
        r.users.contains_key(p.1) && message_with_id(r, p.0) is Some by {
        if p.0 != message_id {
            assert(t.mentions.contains(p));
            assert(message_with_id(t, p.0) is Some);
        }
    }
}

/// Reading a recorded message gives back what was recorded, its text exactly as it was,
/// under the row id that was answered; its thread too, where it was recorded with a tag.
pub proof fn law_reading_gives_back_what_was_saved(
    t: Tables,
    m: StoredView,
    thread_id: i64,
    message_id: i64,
)
    requires
        consistent(t),
        save_answers(t, m, thread_id, message_id),
    ensures
        read_back(saved(t, m, thread_id, message_id), m.channel_id, m.ts) == Some(
            LocalView {
                id: message_id,
                ts: m.ts,
                channel_id: m.channel_id,
                user_id: m.user_id,
                text: m.text,
                note: m.note,
                thread_ts: if m.thread_tag is Some {
                    m.thread_ts
                } else {
                    None
                },
            },
        ),
        message_with_id(saved(t, m, thread_id, message_id), message_id) == Some(
            (m.channel_id, m.ts),
        ),
{
    let r = saved(t, m, thread_id, message_id);
    law_writes_record_the_message(t, m, thread_id, message_id);
    law_saving_keeps_tables_consistent(t, m, thread_id, message_id);
    let key = (m.channel_id, m.ts);
    assert(r.messages.contains_key(key) && r.messages[key].id == message_id);
    assert(message_with_id(r, message_id) == Some(key));
    if thread_of(m) is Some {
        let tk = (m.channel_id, m.thread_ts->0);
        assert(r.threads.contains_key(tk) && r.threads[tk].id == thread_id);
        assert(thread_with_id(r, thread_id) == Some(tk));
    }
}

proof fn lemma_same_thread_later(
    t: Tables,
    m: StoredView,
    thread_id: i64,
    message_id: i64,
    id: i64,
)
    requires
        consistent(t),
        save_answers(t, m, thread_id, message_id),
        thread_with_id(t, id) is Some,
    ensures
        thread_with_id(saved(t, m, thread_id, message_id), id) == thread_with_id(t, id),
{
    let r = saved(t, m, thread_id, message_id);
    law_saving_keeps_tables_consistent(t, m, thread_id, message_id);
    law_writes_record_the_message(t, m, thread_id, message_id);
    lemma_before_message(t, m);
    let k = thread_with_id(t, id)->0;
    assert(t.threads.contains_key(k) && t.threads[k].id == id);
    assert(r.threads.contains_key(k) && r.threads[k].id == id);
}

/// What was recorded reads the same when other messages have been recorded since.
pub proof fn law_later_saves_leave_what_was_saved(
    t: Tables,
    m: StoredView,
    thread_id: i64,
    message_id: i64,
    channel_id: Seq<char>,
    ts: Seq<char>,
)
    requires
        consistent(t),
        save_answers(t, m, thread_id, message_id),
        (channel_id, ts) != (m.channel_id, m.ts),
    ensures
        read_back(saved(t, m, thread_id, message_id), channel_id, ts) == read_back(
            t,
            channel_id,
            ts,
        ),
{
    law_writes_record_the_message(t, m, thread_id, message_id);
    let key = (channel_id, ts);
    if t.messages.contains_key(key) {
        if let Some(id) = t.messages[key].thread_id {
            lemma_same_thread_later(t, m, thread_id, message_id, id);
        }
    }
}

// ---------------------------------------------------------------------------
// Recording in steps.
// ---------------------------------------------------------------------------

/// What a series of writes does to the tables, `answer` being the row id that the last of
/// them answers where it answers one.
pub open spec fn performed(t: Tables, writes: Seq<WriteView>, answer: i64) -> Tables {
    if writes.len() == 0 {
        t
    } else {
        written(all_written(t, writes.drop_last()), writes.last(), answer)
    }
}

/// The row id that the writes up to a step answer.
pub open spec fn answer_at(step: SaveStep, thread_id: i64, message_id: i64) -> i64 {
    match step {
        SaveStep::Threaded => thread_id,
        SaveStep::Written => message_id,
        _ => 0,
    }
}

/// How many steps may be left.
pub open spec fn steps_left(step: SaveStep) -> nat {
    match step {
        SaveStep::Begun => 4,
        SaveStep::Ensured => 3,
        SaveStep::Threaded => 2,
        SaveStep::Written => 1,
        SaveStep::Done { message_id } => 0,
    }
}

/// The tables when the steps behind `step` have been performed one after the other, and
/// the row that they end in.
pub open spec fn stepped(
    t: Tables,
    m: StoredView,
    step: SaveStep,
    answer: i64,
    thread_id: i64,
    message_id: i64,
) -> (Tables, i64)
    decreases steps_left(step),
{
    match step {
        SaveStep::Done { message_id } => (t, message_id),
        _ => {
            let (next, writes) = step_behind(m, step, answer);
            let got = answer_at(next, thread_id, message_id);
            stepped(performed(t, writes, got), m, next, got, thread_id, message_id)
        },
    }
}

proof fn lemma_performed_without_answer(t: Tables, writes: Seq<WriteView>, answer: i64)
    requires
        writes.len() > 0 ==> !(writes.last() is UpsertThread) && !(writes.last() is UpsertMessage),
    ensures
        performed(t, writes, answer) == all_written(t, writes),
{
}

/// The steps of recording a message, performed one after the other, record it: they leave
/// the tables as `saved` has them, and end in the row of the message.
pub proof fn law_steps_record_the_message(
    t: Tables,
    m: StoredView,
    thread_id: i64,
    message_id: i64,
)
    ensures
        stepped(t, m, SaveStep::Begun, 0, thread_id, message_id) == (
            saved(t, m, thread_id, message_id),
            message_id,
        ),
{
    reveal_with_fuel(stepped, 5);
    let ensured = all_written(t, before_message(m));
    lemma_performed_without_answer(t, before_message(m), 0);
    let itself = message_itself(m, thread_row(m, thread_id));
    assert(seq![itself].drop_last() =~= Seq::empty());
    if let Some(w) = thread_of(m) {
        assert(seq![w].drop_last() =~= Seq::empty());
        assert(performed(ensured, seq![w], thread_id) == prepared(t, m, thread_id));
    }
    let p = prepared(t, m, thread_id);
    assert(performed(p, seq![itself], message_id) == written(p, itself, message_id));
    let behind = behind_message(m, message_id);
    if m.mentions.len() > 0 {
        assert(behind.last() == mention_writes(
            m.mentions,
            message_id,
            m.mentions.len(),
        ).last());
    }
    lemma_performed_without_answer(written(p, itself, message_id), behind, 0);
}

// ---------------------------------------------------------------------------
// Recording a batch.
// ---------------------------------------------------------------------------

/// The key of a message.
pub open spec fn key_of(m: StoredView) -> (Seq<char>, Seq<char>) {
    (m.channel_id, m.ts)
}

/// The tables when the first `n` messages of a batch have been recorded one after the
/// other, with the row ids that were answered.
pub open spec fn batch_saved(
    t: Tables,
    batch: Seq<StoredView>,
    thread_ids: Seq<i64>,
    ids: Seq<i64>,
    n: nat,
) -> Tables
    decreases n,
{
    if n == 0 {
        t
    } else {
        saved(
            batch_saved(t, batch, thread_ids, ids, (n - 1) as nat),
            batch[n - 1],
            thread_ids[n - 1],
            ids[n - 1],
        )
    }
}

/// Whether a database answers these row ids when the first `n` messages of a batch are
/// recorded.
pub open spec fn batch_answers(
    t: Tables,
    batch: Seq<StoredView>,
    thread_ids: Seq<i64>,
    ids: Seq<i64>,
    n: nat,
) -> bool
    decreases n,
{
    n == 0 || (batch_answers(t, batch, thread_ids, ids, (n - 1) as nat) && save_answers(
        batch_saved(t, batch, thread_ids, ids, (n - 1) as nat),
        batch[n - 1],
        thread_ids[n - 1],
        ids[n - 1],
    ))
}

/// Recording a batch answers one id for each message, in order: the id of its row. Two
/// messages get the same id exactly where they are the same message, of one channel and
/// timestamp.
pub proof fn law_batch_ids(
    t: Tables,
    batch: Seq<StoredView>,
    thread_ids: Seq<i64>,
    ids: Seq<i64>,
    n: nat,
)
    requires
        consistent(t),
        n <= batch.len(),
        thread_ids.len() == batch.len(),
        ids.len() == batch.len(),
        batch_answers(t, batch, thread_ids, ids, n),
    ensures
        consistent(batch_saved(t, batch, thread_ids, ids, n)),
        forall|i: int|
            0 <= i < n ==> {
                let after = batch_saved(t, batch, thread_ids, ids, n);
                after.messages.contains_key(key_of(#[trigger] batch[i]))
                    && after.messages[key_of(batch[i])].id == ids[i]
            },
        forall|i: int, j: int|
            0 <= i < n && 0 <= j < n ==> (key_of(#[trigger] batch[i]) == key_of(
                #[trigger] batch[j],
            ) <==> ids[i] == ids[j]),
    decreases n,
{
    if n > 0 {
        let k = (n - 1) as nat;
        law_batch_ids(t, batch, thread_ids, ids, k);
        let before = batch_saved(t, batch, thread_ids, ids, k);
        let m = batch[n - 1];
        law_saving_keeps_tables_consistent(before, m, thread_ids[n - 1], ids[n - 1]);
        law_writes_record_the_message(before, m, thread_ids[n - 1], ids[n - 1]);
        lemma_prepared(before, m, thread_ids[n - 1]);
        let after = batch_saved(t, batch, thread_ids, ids, n);
        assert forall|i: int| 0 <= i < n implies after.messages.contains_key(
            key_of(#[trigger] batch[i]),
        ) && after.messages[key_of(batch[i])].id == ids[i] by {
            if i < n - 1 {
                assert(before.messages.contains_key(key_of(batch[i])));
            }
        }
        assert forall|i: int, j: int| 0 <= i < n && 0 <= j < n implies (key_of(#[trigger] batch[i])
            == key_of(#[trigger] batch[j]) <==> ids[i] == ids[j]) by {
            assert(after.messages.contains_key(key_of(batch[i])));
            assert(after.messages.contains_key(key_of(batch[j])));
        }
    }
}

/// Every message of a batch is read back as it was recorded, unless the batch held it again
/// later.
pub proof fn law_batch_is_read_back(
    t: Tables,
    batch: Seq<StoredView>,
    thread_ids: Seq<i64>,
    ids: Seq<i64>,
    n: nat,
    i: int,
)
    requires
        consistent(t),
        n <= batch.len(),
        thread_ids.len() == batch.len(),
        ids.len() == batch.len(),
        batch_answers(t, batch, thread_ids, ids, n),
        0 <= i < n,
        forall|j: int| i < j < n ==> key_of(#[trigger] batch[j]) != key_of(batch[i]),
    ensures
        read_back(batch_saved(t, batch, thread_ids, ids, n), batch[i].channel_id, batch[i].ts)
            == Some(
            LocalView {
                id: ids[i],
                ts: batch[i].ts,
                channel_id: batch[i].channel_id,
                user_id: batch[i].user_id,
                text: batch[i].text,
                note: batch[i].note,
                thread_ts: if batch[i].thread_tag is Some {
                    batch[i].thread_ts
                } else {
                    None
                },
            },
        ),
    decreases n,
{
    let k = (n - 1) as nat;
    let before = batch_saved(t, batch, thread_ids, ids, k);
    law_batch_ids(t, batch, thread_ids, ids, k);
    if i == n - 1 {
        law_reading_gives_back_what_was_saved(before, batch[i], thread_ids[i], ids[i]);
    } else {
        law_batch_is_read_back(t, batch, thread_ids, ids, k, i);
        assert(key_of(batch[n - 1]) != key_of(batch[i]));
        law_later_saves_leave_what_was_saved(
            before,
            batch[n - 1],
            thread_ids[n - 1],
            ids[n - 1],
            batch[i].channel_id,
            batch[i].ts,
        );
    }
}

/// Saving a message of a thread records the thread under its tag; no other thread changes,
/// and a message of no thread changes none.
pub proof fn law_threads_are_recorded_under_their_tags(
    t: Tables,
    m: StoredView,
    thread_id: i64,
    message_id: i64,
    parent: Seq<char>,
    tag: Seq<char>,
    other: (Seq<char>, Seq<char>),
)
    ensures
        ({
            let r = saved(t, m, thread_id, message_id);
            &&& m.thread_ts == Some(parent) && m.thread_tag == Some(tag) ==> {
                &&& r.threads.contains_key((m.channel_id, parent))
                &&& r.threads[(m.channel_id, parent)].id == thread_id
                &&& r.threads[(m.channel_id, parent)].tag == tag
                &&& r.messages[(m.channel_id, m.ts)].thread_id == Some(thread_id)
            }
            &&& m.thread_ts is None || m.thread_tag is None ==> r.threads == t.threads
                && r.messages[(m.channel_id, m.ts)].thread_id is None
            &&& m.thread_ts == Some(parent) && other != (m.channel_id, parent)
                ==> r.threads.contains_key(other) == t.threads.contains_key(other)
                && r.threads[other] == t.threads[other]
        }),
{
    law_writes_record_the_message(t, m, thread_id, message_id);
}

/// Whom a message refers to is made sure of: a channel that is not there is added as one of
/// unknown kind under its id, and a user under the id. Nobody else is added.
pub proof fn law_placeholders(
    t: Tables,
    m: StoredView,
    thread_id: i64,
    message_id: i64,
    id: Seq<char>,
)
    ensures
        ({
            let r = saved(t, m, thread_id, message_id);
            &&& r.channels.contains_key(m.channel_id)
            &&& !t.channels.contains_key(m.channel_id) ==> r.channels[m.channel_id] == (
                m.channel_id,
                "unknown"@,
            )
            &&& id != m.channel_id ==> r.channels.contains_key(id) == t.channels.contains_key(id)
            &&& m.user_id == Some(id) || m.mentions.contains(id) ==> r.users.contains_key(id)
            &&& !t.users.contains_key(id) && r.users.contains_key(id) ==> r.users[id] == id
            &&& !t.users.contains_key(id) && m.user_id != Some(id) && !m.mentions.contains(id)
                ==> !r.users.contains_key(id)
        }),
{
    law_writes_record_the_message(t, m, thread_id, message_id);
    match m.user_id {
        Some(user) => {
            let all = seq![user] + m.mentions;
            assert(all[0] == user);
            if m.mentions.contains(id) {
                let i = choose|i: int| 0 <= i < m.mentions.len() && m.mentions[i] == id;
                assert(all[i + 1] == id);
            }
            if all.contains(id) && user != id {
                let i = choose|i: int| 0 <= i < all.len() && all[i] == id;
                assert(m.mentions[i - 1] == id);
            }
        },
        None => {},
    }
}

/// A listed channel is recorded with the name and the kind that it is listed with, and
/// other channels stay as they are.
pub proof fn law_listed_channels_keep_their_kind(
    t: Tables,
    rows: Seq<ChannelView>,
    row: ChannelView,
    other: Seq<char>,
)
    ensures
        ({
            let r = all_written(t, channel_syncs(rows.push(row)));
            let earlier = all_written(t, channel_syncs(rows));
            &&& r.channels.contains_key(row.id)
            &&& r.channels[row.id] == (row.name, row.kind)
            &&& other != row.id ==> r.channels.contains_key(other)
                == earlier.channels.contains_key(other) && r.channels[other]
                == earlier.channels[other]
        }),
{
    let w = WriteView::UpsertChannel { id: row.id, name: row.name, kind: row.kind };
    assert(channel_syncs(rows.push(row)) =~= channel_syncs(rows).push(w));
    assert(channel_syncs(rows).push(w).drop_last() =~= channel_syncs(rows));
}

} // verus!
