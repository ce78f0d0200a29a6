//! What is recorded of users, channels, threads and messages, and how it is written.
//!
//! Recording a message is a short series of writes to the tables of a database. Every
//! write is an upsert on one of Slack's own identifiers: a message is its channel and
//! timestamp, a thread is its channel and its parent's timestamp, users and channels are
//! their ids. So overlapping backfills, or a restarted live stream, rewrite the same rows
//! instead of appending duplicates.
use vstd::prelude::*;
use vstd::string::*;

use crate::api::pairs;
use crate::text::{str_opt, text_opt, texts};

verus! {

/// One channel as it is recorded. A direct message is a channel of kind `dm`, so
/// that a message always references exactly one channel.
pub struct ChannelRow {
    pub id: String,
    pub name: String,
    pub kind: &'static str,
}

/// A channel as it is recorded.
pub struct ChannelView {
    pub id: Seq<char>,
    pub name: Seq<char>,
    pub kind: Seq<char>,
}

impl View for ChannelRow {
    type V = ChannelView;

    open spec fn view(&self) -> ChannelView {
        ChannelView { id: self.id@, name: self.name@, kind: self.kind@ }
    }
}

/// The channels of a list of rows.
pub open spec fn channel_views(rows: Seq<ChannelRow>) -> Seq<ChannelView> {
    rows.map_values(|row: ChannelRow| row@)
}

/// A message about to be written. `text` is exactly as Slack sent it.
pub struct StoredMessage<'a> {
    pub channel_id: &'a str,
    pub ts: &'a str,
    pub user_id: Option<&'a str>,
    pub text: &'a str,
    pub note: Option<&'a str>,
    pub thread_ts: Option<&'a str>,
    pub thread_tag: Option<&'a str>,
    pub mentions: Vec<String>,
}

/// What a message about to be written holds.
pub struct StoredView {
    pub channel_id: Seq<char>,
    pub ts: Seq<char>,
    pub user_id: Option<Seq<char>>,
    pub text: Seq<char>,
    pub note: Option<Seq<char>>,
    pub thread_ts: Option<Seq<char>>,
    pub thread_tag: Option<Seq<char>>,
    pub mentions: Seq<Seq<char>>,
}

impl<'a> View for StoredMessage<'a> {
    type V = StoredView;

    open spec fn view(&self) -> StoredView {
        StoredView {
            channel_id: self.channel_id@,
            ts: self.ts@,
            user_id: str_opt(self.user_id),
            text: self.text@,
            note: str_opt(self.note),
            thread_ts: str_opt(self.thread_ts),
            thread_tag: str_opt(self.thread_tag),
            mentions: texts(self.mentions@),
        }
    }
}

/// Just enough of a message to address it: which conversation, which timestamp, and
/// the thread it belongs to, if any.
pub struct MessageRef {
    pub channel_id: String,
    pub ts: String,
    pub thread_ts: Option<String>,
}

/// One stored message, read back for rendering.
pub struct LocalMessage {
    pub id: i64,
    pub ts: String,
    pub channel_id: String,
    pub user_id: Option<String>,
    pub text: String,
    pub note: Option<String>,
    pub thread_ts: Option<String>,
}

/// What a recorded message says when it is read back.
pub struct LocalView {
    pub id: i64,
    pub ts: Seq<char>,
    pub channel_id: Seq<char>,
    pub user_id: Option<Seq<char>>,
    pub text: Seq<char>,
    pub note: Option<Seq<char>>,
    pub thread_ts: Option<Seq<char>>,
}

impl View for LocalMessage {
    type V = LocalView;

    open spec fn view(&self) -> LocalView {
        LocalView {
            id: self.id,
            ts: self.ts@,
            channel_id: self.channel_id@,
            user_id: text_opt(self.user_id),
            text: self.text@,
            note: text_opt(self.note),
            thread_ts: text_opt(self.thread_ts),
        }
    }
}

// ---------------------------------------------------------------------------
// Writes.
// ---------------------------------------------------------------------------

/// One write to the tables.
#[allow(inconsistent_fields)]
pub enum Write<'a> {
    /// Adds a user, or gives it this name.
    UpsertUser { id: &'a str, name: &'a str },
    /// Adds a channel, or gives it this name and kind.
    UpsertChannel { id: &'a str, name: &'a str, kind: &'a str },
    /// Adds a channel of kind `unknown`, named by its id, unless it is there.
    EnsureChannel { id: &'a str },
    /// Adds a user, named by the id, unless one is there.
    EnsureUser { id: &'a str },
    /// Adds a thread, or gives it this tag; answers its row id.
    UpsertThread { channel_id: &'a str, thread_ts: &'a str, tag: &'a str },
    /// Adds a message, or gives it these contents; answers its row id.
    UpsertMessage {
        channel_id: &'a str,
        ts: &'a str,
        user_id: Option<&'a str>,
        thread_id: Option<i64>,
        text: &'a str,
        note: Option<&'a str>,
    },
    /// Removes the mentions of a message.
    ClearMentions { message_id: i64 },
    /// Adds a mention, unless it is there.
    AddMention { message_id: i64, user_id: &'a str },
}

/// One write to the tables.
#[allow(inconsistent_fields)]
pub enum WriteView {
    UpsertUser { id: Seq<char>, name: Seq<char> },
    UpsertChannel { id: Seq<char>, name: Seq<char>, kind: Seq<char> },
    EnsureChannel { id: Seq<char> },
    EnsureUser { id: Seq<char> },
    UpsertThread { channel_id: Seq<char>, thread_ts: Seq<char>, tag: Seq<char> },
    UpsertMessage {
        channel_id: Seq<char>,
        ts: Seq<char>,
        user_id: Option<Seq<char>>,
        thread_id: Option<i64>,
        text: Seq<char>,
        note: Option<Seq<char>>,
    },
    ClearMentions { message_id: i64 },
    AddMention { message_id: i64, user_id: Seq<char> },
}

impl<'a> View for Write<'a> {
    type V = WriteView;

    open spec fn view(&self) -> WriteView {
        match self {
            Write::UpsertUser { id, name } => WriteView::UpsertUser { id: id@, name: name@ },
            Write::UpsertChannel { id, name, kind } => WriteView::UpsertChannel {
                id: id@,
                name: name@,
                kind: kind@,
            },
            Write::EnsureChannel { id } => WriteView::EnsureChannel { id: id@ },
            Write::EnsureUser { id } => WriteView::EnsureUser { id: id@ },
            Write::UpsertThread { channel_id, thread_ts, tag } => WriteView::UpsertThread {
                channel_id: channel_id@,
                thread_ts: thread_ts@,
                tag: tag@,
            },
            Write::UpsertMessage { channel_id, ts, user_id, thread_id, text, note } => {
                WriteView::UpsertMessage {
                    channel_id: channel_id@,
                    ts: ts@,
                    user_id: str_opt(*user_id),
                    thread_id: *thread_id,
                    text: text@,
                    note: str_opt(*note),
                }
            },
            Write::ClearMentions { message_id } => WriteView::ClearMentions {
                message_id: *message_id,
            },
            Write::AddMention { message_id, user_id } => WriteView::AddMention {
                message_id: *message_id,
                user_id: user_id@,
            },
        }
    }
}

/// The writes of a list.
pub open spec fn write_views(writes: Seq<Write>) -> Seq<WriteView> {
    writes.map_values(|w: Write| w@)
}

/// The writes that record the names of users.
pub open spec fn user_syncs(rows: Seq<(Seq<char>, Seq<char>)>) -> Seq<WriteView> {
    rows.map_values(|row: (Seq<char>, Seq<char>)| WriteView::UpsertUser { id: row.0, name: row.1 })
}

/// The writes that record the channels.
pub open spec fn channel_syncs(rows: Seq<ChannelView>) -> Seq<WriteView> {
    rows.map_values(
        |row: ChannelView|
            WriteView::UpsertChannel { id: row.id, name: row.name, kind: row.kind },
    )
}

/// The writes that record the names of users, so that later messages can reference real
/// names instead of ids.
pub fn user_writes(rows: &Vec<(String, String)>) -> (r: Vec<Write<'_>>)
    ensures
        write_views(r@) == user_syncs(pairs(rows@)),
{
    let mut r: Vec<Write<'_>> = Vec::new();
    let mut i: usize = 0;
    while i < rows.len()
        invariant
            i <= rows@.len(),
            r@.len() == i,
            forall|j: int|
                0 <= j < i ==> (#[trigger] r@[j])@ == (WriteView::UpsertUser {
                    id: rows@[j].0@,
                    name: rows@[j].1@,
                }),
        decreases rows@.len() - i,
    {
        r.push(Write::UpsertUser { id: rows[i].0.as_str(), name: rows[i].1.as_str() });
        i += 1;
    }
    assert(write_views(r@) =~= user_syncs(pairs(rows@)));
    r
}

/// The writes that record the channels.
pub fn channel_writes(rows: &Vec<ChannelRow>) -> (r: Vec<Write<'_>>)
    ensures
        write_views(r@) == channel_syncs(channel_views(rows@)),
{
    let mut r: Vec<Write<'_>> = Vec::new();
    let mut i: usize = 0;
    while i < rows.len()
        invariant
            i <= rows@.len(),
            r@.len() == i,
            forall|j: int|
                0 <= j < i ==> (#[trigger] r@[j])@ == (WriteView::UpsertChannel {
                    id: rows@[j].id@,
                    name: rows@[j].name@,
                    kind: rows@[j].kind@,
                }),
        decreases rows@.len() - i,
    {
        let row: &ChannelRow = &rows[i];
        r.push(
            Write::UpsertChannel { id: row.id.as_str(), name: row.name.as_str(), kind: row.kind },
        );
        i += 1;
    }
    assert(write_views(r@) =~= channel_syncs(channel_views(rows@)));
    r
}

/// What is written before a message: its channel and its user have to be there.
pub open spec fn before_message(m: StoredView) -> Seq<WriteView> {
    let channel = seq![WriteView::EnsureChannel { id: m.channel_id }];
    match m.user_id {
        Some(user) => channel.push(WriteView::EnsureUser { id: user }),
        None => channel,
    }
}

/// What is written of the thread of a message, where it is in one that has a tag.
pub open spec fn thread_of(m: StoredView) -> Option<WriteView> {
    match (m.thread_ts, m.thread_tag) {
        (Some(thread_ts), Some(tag)) => Some(
            WriteView::UpsertThread { channel_id: m.channel_id, thread_ts, tag },
        ),
        _ => None,
    }
}

/// What is written of a message itself, `thread_id` being the row of its thread.
pub open spec fn message_itself(m: StoredView, thread_id: Option<i64>) -> WriteView {
    WriteView::UpsertMessage {
        channel_id: m.channel_id,
        ts: m.ts,
        user_id: m.user_id,
        thread_id,
        text: m.text,
        note: m.note,
    }
}

/// What is written behind a message, for its first `n` mentions.
pub open spec fn mention_writes(mentions: Seq<Seq<char>>, message_id: i64, n: nat) -> Seq<WriteView>
    decreases n,
{
    if n == 0 || n > mentions.len() {
        Seq::empty()
    } else {
        mention_writes(mentions, message_id, (n - 1) as nat).push(
            WriteView::EnsureUser { id: mentions[n - 1] },
        ).push(WriteView::AddMention { message_id, user_id: mentions[n - 1] })
    }
}

/// What is written behind a message: an edit can add or remove mentions, so they are
/// replaced wholesale.
pub open spec fn behind_message(m: StoredView, message_id: i64) -> Seq<WriteView> {
    seq![WriteView::ClearMentions { message_id }] + mention_writes(
        m.mentions,
        message_id,
        m.mentions.len(),
    )
}

/// The writes before a message. It can name a channel or user that was not in the
/// listing; a placeholder keeps the references satisfied instead of dropping it.
pub fn writes_before<'a>(m: &StoredMessage<'a>) -> (r: Vec<Write<'a>>)
    ensures
        write_views(r@) == before_message(m@),
{
    let mut r: Vec<Write<'a>> = Vec::new();
    r.push(Write::EnsureChannel { id: m.channel_id });
    if let Some(user) = m.user_id {
        r.push(Write::EnsureUser { id: user });
    }
    assert(write_views(r@) =~= before_message(m@));
    r
}

/// The write of the thread of a message.
pub fn thread_write<'a>(m: &StoredMessage<'a>) -> (r: Option<Write<'a>>)
    ensures
        thread_of(m@) == (match r {
            Some(w) => Some(w@),
            None => None,
        }),
{
    match (m.thread_ts, m.thread_tag) {
        (Some(thread_ts), Some(tag)) => Some(
            Write::UpsertThread { channel_id: m.channel_id, thread_ts, tag },
        ),
        _ => None,
    }
}

/// The write of a message itself, `thread_id` being the row of its thread.
pub fn message_write<'a>(m: &StoredMessage<'a>, thread_id: Option<i64>) -> (r: Write<'a>)
    ensures
        r@ == message_itself(m@, thread_id),
{
    Write::UpsertMessage {
        channel_id: m.channel_id,
        ts: m.ts,
        user_id: m.user_id,
        thread_id,
        text: m.text,
        note: m.note,
    }
}

/// The writes behind a message, `message_id` being its row.
pub fn writes_behind<'b>(m: &'b StoredMessage<'_>, message_id: i64) -> (r: Vec<Write<'b>>)
    ensures
        write_views(r@) == behind_message(m@, message_id),
{
    let mut r: Vec<Write<'b>> = Vec::new();
    r.push(Write::ClearMentions { message_id });
    let ghost head = seq![WriteView::ClearMentions { message_id }];
    let ghost all = texts(m.mentions@);
    let mut i: usize = 0;
    assert(write_views(r@) =~= head + Seq::<WriteView>::empty());
    while i < m.mentions.len()
        invariant
            i <= m.mentions@.len(),
            all == texts(m.mentions@),
            write_views(r@) == head + mention_writes(all, message_id, i as nat),
        decreases m.mentions@.len() - i,
    {
        let user_id: &'b str = m.mentions[i].as_str();
        let ghost done = write_views(r@);
        let ghost one = WriteView::EnsureUser { id: user_id@ };
        let ghost two = WriteView::AddMention { message_id, user_id: user_id@ };
        assert(all[i as int] == user_id@);
        r.push(Write::EnsureUser { id: user_id });
        r.push(Write::AddMention { message_id, user_id });
        assert(write_views(r@) =~= done.push(one).push(two));
        assert(done.push(one).push(two) =~= head + mention_writes(all, message_id, (i + 1) as nat));
        i += 1;
    }
    r
}

// ---------------------------------------------------------------------------
// Steps.
// ---------------------------------------------------------------------------

/// How far the recording of a message has got.
pub enum SaveStep {
    /// Nothing has been written.
    Begun,
    /// The channel and the user of the message are there.
    Ensured,
    /// The thread of the message has been written.
    Threaded,
    /// The message itself has been written.
    Written,
    /// The message has been recorded in row `message_id`.
    Done { message_id: i64 },
}

/// The step behind `step`, and the writes that lead to it; `answer` is the row id that the
/// last write before it answered.
pub open spec fn step_behind(m: StoredView, step: SaveStep, answer: i64) -> (
    SaveStep,
    Seq<WriteView>,
) {
    match step {
        SaveStep::Begun => (SaveStep::Ensured, before_message(m)),
        SaveStep::Ensured => match thread_of(m) {
            Some(w) => (SaveStep::Threaded, seq![w]),
            None => (SaveStep::Written, seq![message_itself(m, None)]),
        },
        SaveStep::Threaded => (SaveStep::Written, seq![message_itself(m, Some(answer))]),
        SaveStep::Written => (SaveStep::Done { message_id: answer }, behind_message(m, answer)),
        SaveStep::Done { message_id } => (step, Seq::empty()),
    }
}

/// The next step of recording a message, and the writes to perform in order to get there;
/// `answer` is the row id that the last write answered.
pub fn save_step<'b>(m: &'b StoredMessage<'_>, step: SaveStep, answer: i64) -> (r: (
    SaveStep,
    Vec<Write<'b>>,
))
    ensures
        (r.0, write_views(r.1@)) == step_behind(m@, step, answer),
{
    let mut writes: Vec<Write<'b>> = Vec::new();
    match step {
        SaveStep::Begun => (SaveStep::Ensured, writes_before(m)),
        SaveStep::Ensured => match thread_write(m) {
            Some(w) => {
                writes.push(w);
                assert(write_views(writes@) =~= seq![w@]);
                (SaveStep::Threaded, writes)
            },
            None => {
                writes.push(message_write(m, None));
                assert(write_views(writes@) =~= seq![message_itself(m@, None)]);
                (SaveStep::Written, writes)
            },
        },
        SaveStep::Threaded => {
            writes.push(message_write(m, Some(answer)));
            assert(write_views(writes@) =~= seq![message_itself(m@, Some(answer))]);
            (SaveStep::Written, writes)
        },
        SaveStep::Written => (SaveStep::Done { message_id: answer }, writes_behind(m, answer)),
        SaveStep::Done { message_id } => {
            assert(write_views(writes@) =~= Seq::empty());
            (SaveStep::Done { message_id }, writes)
        },
    }
}

/// A listing is written row by row, in order: each user with the name, each channel with
/// the name and the kind.
pub proof fn law_listings_are_written_row_by_row(
    users: Seq<(Seq<char>, Seq<char>)>,
    channels: Seq<ChannelView>,
    id: Seq<char>,
    name: Seq<char>,
    kind: Seq<char>,
)
    ensures
        user_syncs(Seq::empty()).len() == 0,
        channel_syncs(Seq::empty()).len() == 0,
        user_syncs(users.push((id, name))) == user_syncs(users).push(
            (WriteView::UpsertUser { id, name }),
        ),
        channel_syncs(channels.push((ChannelView { id, name, kind }))) == channel_syncs(
            channels,
        ).push((WriteView::UpsertChannel { id, name, kind })),
{
    assert(user_syncs(users.push((id, name))) =~= user_syncs(users).push(
        WriteView::UpsertUser { id, name },
    ));
    assert(channel_syncs(channels.push(ChannelView { id, name, kind })) =~= channel_syncs(
        channels,
    ).push(WriteView::UpsertChannel { id, name, kind }));
}

/// Before a message its channel is made sure of, then its author where there is one. Its
/// thread is written where it has one with a tag. The message is written with all its
/// parts. Its mentions are written behind it, in order, each with the user made sure of
/// first and the old ones taken away before.
pub proof fn law_writes_of_a_message(
    m: StoredView,
    user: Seq<char>,
    parent: Seq<char>,
    tag: Seq<char>,
    thread_id: Option<i64>,
    message_id: i64,
    mentions: Seq<Seq<char>>,
)
    ensures
        m.user_id is None ==> before_message(m) == seq![
            (WriteView::EnsureChannel { id: m.channel_id }),
        ],
        m.user_id == Some(user) ==> before_message(m) == seq![
            (WriteView::EnsureChannel { id: m.channel_id }),
            (WriteView::EnsureUser { id: user }),
        ],
        m.thread_ts == Some(parent) && m.thread_tag == Some(tag) ==> thread_of(m) == Some(
            (WriteView::UpsertThread { channel_id: m.channel_id, thread_ts: parent, tag }),
        ),
        m.thread_ts is None || m.thread_tag is None ==> thread_of(m) is None,
        message_itself(m, thread_id) == (WriteView::UpsertMessage {
            channel_id: m.channel_id,
            ts: m.ts,
            user_id: m.user_id,
            thread_id,
            text: m.text,
            note: m.note,
        }),
        m.mentions.len() == 0 ==> behind_message(m, message_id) == seq![
            (WriteView::ClearMentions { message_id }),
        ],
        m.mentions == mentions.push(user) ==> behind_message(m, message_id) == behind_message(
            (StoredView { mentions, ..m }),
            message_id,
        ) + seq![
            (WriteView::EnsureUser { id: user }),
            (WriteView::AddMention { message_id, user_id: user }),
        ],
{
    assert(seq![WriteView::EnsureChannel { id: m.channel_id }].push(
        WriteView::EnsureUser { id: user },
    ) =~= seq![
        WriteView::EnsureChannel { id: m.channel_id },
        WriteView::EnsureUser { id: user },
    ]);
    if m.mentions.len() == 0 {
        assert(behind_message(m, message_id) =~= seq![WriteView::ClearMentions { message_id }]);
    }
    if m.mentions == mentions.push(user) {
        lemma_mentions_in_front(mentions, user, message_id, mentions.len());
        assert(behind_message(m, message_id) =~= behind_message(
            StoredView { mentions, ..m },
            message_id,
        ) + seq![
            WriteView::EnsureUser { id: user },
            WriteView::AddMention { message_id, user_id: user },
        ]);
    }
}

proof fn lemma_mentions_in_front(
    mentions: Seq<Seq<char>>,
    user: Seq<char>,
    message_id: i64,
    n: nat,
)
    requires
        n <= mentions.len(),
    ensures
        mention_writes(mentions.push(user), message_id, n) == mention_writes(
            mentions,
            message_id,
            n,
        ),
    decreases n,
{
    if n > 0 {
        lemma_mentions_in_front(mentions, user, message_id, (n - 1) as nat);
    }
}

/// A message is saved in order: what it refers to first, then its thread where it has one,
/// then the message under the row that its thread got, then its mentions under the row that
/// the message got. A message that is saved takes no further step.
pub proof fn law_order_of_saving(m: StoredView, answer: i64, w: WriteView, id: i64)
    ensures
        step_behind(m, SaveStep::Begun, answer) == (SaveStep::Ensured, before_message(m)),
        thread_of(m) == Some(w) ==> step_behind(m, SaveStep::Ensured, answer) == (
            SaveStep::Threaded,
            seq![w],
        ),
        thread_of(m) is None ==> step_behind(m, SaveStep::Ensured, answer) == (
            SaveStep::Written,
            seq![message_itself(m, None)],
        ),
        step_behind(m, SaveStep::Threaded, answer) == (
            SaveStep::Written,
            seq![message_itself(m, Some(answer))],
        ),
        step_behind(m, SaveStep::Written, answer) == (
            (SaveStep::Done { message_id: answer }),
            behind_message(m, answer),
        ),
        step_behind(m, SaveStep::Done { message_id: id }, answer) == (
            (SaveStep::Done { message_id: id }),
            Seq::<WriteView>::empty(),
        ),
{
}

} // verus!
