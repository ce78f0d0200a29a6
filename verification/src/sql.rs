//! The statements that read and write the database.
//!
//! Text is stored exactly as Slack sent it, references, shortcodes and entities intact:
//! rendering loses them, so that rendered text could not be rendered again.
use vstd::prelude::*;

use crate::store::{Write, WriteView};

verus! {

/// Sets a database up: a single file, and references that are enforced.
pub const PRAGMAS: &'static str = "PRAGMA journal_mode = DELETE; PRAGMA foreign_keys = ON;";

/// Makes the tables that are not there.
pub const SCHEMA: &'static str = "
CREATE TABLE IF NOT EXISTS users (
    id   TEXT PRIMARY KEY,
    name TEXT NOT NULL
);

CREATE TABLE IF NOT EXISTS channels (
    id   TEXT PRIMARY KEY,
    name TEXT NOT NULL,
    kind TEXT NOT NULL          -- 'channel' | 'dm' | 'unknown'
);

CREATE TABLE IF NOT EXISTS threads (
    id         INTEGER PRIMARY KEY,
    channel_id TEXT NOT NULL REFERENCES channels(id),
    thread_ts  TEXT NOT NULL,   -- Slack's own thread key: the parent's ts
    tag        TEXT NOT NULL,   -- the short id shown in the terminal
    UNIQUE (channel_id, thread_ts)
);

CREATE TABLE IF NOT EXISTS messages (
    id         INTEGER PRIMARY KEY,
    channel_id TEXT    NOT NULL REFERENCES channels(id),
    ts         TEXT    NOT NULL,
    ts_epoch   REAL    NOT NULL, -- ts as a number, for range queries
    user_id    TEXT             REFERENCES users(id),
    thread_id  INTEGER          REFERENCES threads(id),
    text       TEXT    NOT NULL, -- exactly as Slack sent it
    note       TEXT,             -- the label of what the text does not say
    UNIQUE (channel_id, ts)
);

-- Workspace-level facts needed to build links, fetched once per database:
-- the team id for slack:// deep links and the domain for web permalinks.
CREATE TABLE IF NOT EXISTS meta (
    key   TEXT PRIMARY KEY,
    value TEXT NOT NULL
);

CREATE TABLE IF NOT EXISTS mentions (
    message_id INTEGER NOT NULL REFERENCES messages(id) ON DELETE CASCADE,
    user_id    TEXT    NOT NULL REFERENCES users(id),
    PRIMARY KEY (message_id, user_id)
);

CREATE INDEX IF NOT EXISTS idx_messages_ts     ON messages (ts_epoch);
CREATE INDEX IF NOT EXISTS idx_messages_thread ON messages (thread_id);
CREATE INDEX IF NOT EXISTS idx_messages_user   ON messages (user_id);
CREATE INDEX IF NOT EXISTS idx_mentions_user   ON mentions (user_id);
";

/// Counts the columns for labels of messages, which a file may lack.
pub const COUNT_NOTE_COLUMNS: &'static str =
    "SELECT COUNT(*) FROM pragma_table_info('messages') WHERE name = 'note'";

/// Adds the column for labels of messages.
pub const ADD_NOTE_COLUMN: &'static str = "ALTER TABLE messages ADD COLUMN note TEXT";

/// Adds or renames a user: id, name.
pub const UPSERT_USER: &'static str = "INSERT INTO users (id, name) VALUES (?1, ?2)
     ON CONFLICT(id) DO UPDATE SET name = excluded.name";

/// Adds or changes a channel: id, name, kind.
pub const UPSERT_CHANNEL: &'static str = "INSERT INTO channels (id, name, kind) VALUES (?1, ?2, ?3)
     ON CONFLICT(id) DO UPDATE SET name = excluded.name, kind = excluded.kind";

/// Adds a channel of unknown kind unless it is there: id.
pub const ENSURE_CHANNEL: &'static str =
    "INSERT INTO channels (id, name, kind) VALUES (?1, ?1, 'unknown') ON CONFLICT(id) DO NOTHING";

/// Adds a user named by the id unless one is there: id.
pub const ENSURE_USER: &'static str =
    "INSERT INTO users (id, name) VALUES (?1, ?1) ON CONFLICT(id) DO NOTHING";

/// Adds or changes a thread and answers its row: channel, timestamp, tag.
pub const UPSERT_THREAD: &'static str =
    "INSERT INTO threads (channel_id, thread_ts, tag) VALUES (?1, ?2, ?3)
     ON CONFLICT(channel_id, thread_ts) DO UPDATE SET tag = excluded.tag
     RETURNING id";

/// Adds or changes a message and answers its row: channel, timestamp, timestamp as a
/// number, user, row of the thread, text, label.
pub const UPSERT_MESSAGE: &'static str =
    "INSERT INTO messages (channel_id, ts, ts_epoch, user_id, thread_id, text, note)
     VALUES (?1, ?2, ?3, ?4, ?5, ?6, ?7)
     ON CONFLICT(channel_id, ts) DO UPDATE SET
         ts_epoch  = excluded.ts_epoch,
         user_id   = excluded.user_id,
         thread_id = excluded.thread_id,
         text      = excluded.text,
         note      = excluded.note
     RETURNING id";

/// Removes the mentions of a message: its row.
pub const CLEAR_MENTIONS: &'static str = "DELETE FROM mentions WHERE message_id = ?1";

/// Adds a mention unless it is there: row of the message, user.
pub const ADD_MENTION: &'static str =
    "INSERT INTO mentions (message_id, user_id) VALUES (?1, ?2) ON CONFLICT DO NOTHING";

/// Sets a fact about the workspace: key, value.
pub const SET_META: &'static str = "INSERT INTO meta (key, value) VALUES (?1, ?2)
     ON CONFLICT(key) DO UPDATE SET value = excluded.value";

/// Reads a fact about the workspace: key.
pub const GET_META: &'static str = "SELECT value FROM meta WHERE key = ?1";

/// Reads the ids and names of all users.
pub const LOAD_USERS: &'static str = "SELECT id, name FROM users";

/// Reads the ids and names of all channels.
pub const LOAD_CHANNELS: &'static str = "SELECT id, name FROM channels";

/// Reads all messages in the order in which they happened, across all channels.
pub const LOAD_MESSAGES: &'static str =
    "SELECT m.id, m.ts, m.channel_id, m.user_id, m.text, m.note, t.thread_ts
     FROM messages m
     LEFT JOIN threads t ON t.id = m.thread_id
     ORDER BY m.ts_epoch, m.ts";

/// Reads all messages like `LOAD_MESSAGES`, from a file without a column for labels.
pub const LOAD_MESSAGES_WITHOUT_NOTES: &'static str =
    "SELECT m.id, m.ts, m.channel_id, m.user_id, m.text, NULL, t.thread_ts
     FROM messages m
     LEFT JOIN threads t ON t.id = m.thread_id
     ORDER BY m.ts_epoch, m.ts";

/// Reads what addresses a message: its row.
pub const MESSAGE_BY_ID: &'static str = "SELECT m.channel_id, m.ts, t.thread_ts
     FROM messages m
     LEFT JOIN threads t ON t.id = m.thread_id
     WHERE m.id = ?1";

/// Reads the row of a message: channel, timestamp.
pub const MESSAGE_ID_BY_TS: &'static str =
    "SELECT id FROM messages WHERE channel_id = ?1 AND ts = ?2";

/// The statement that makes a write.
pub open spec fn statement_of(w: WriteView) -> Seq<char> {
    match w {
        WriteView::UpsertUser { .. } => UPSERT_USER@,
        WriteView::UpsertChannel { .. } => UPSERT_CHANNEL@,
        WriteView::EnsureChannel { .. } => ENSURE_CHANNEL@,
        WriteView::EnsureUser { .. } => ENSURE_USER@,
        WriteView::UpsertThread { .. } => UPSERT_THREAD@,
        WriteView::UpsertMessage { .. } => UPSERT_MESSAGE@,
        WriteView::ClearMentions { .. } => CLEAR_MENTIONS@,
        WriteView::AddMention { .. } => ADD_MENTION@,
    }
}

/// The statement that makes a write.
pub fn statement(w: &Write<'_>) -> (r: &'static str)
    ensures
        r@ == statement_of(w@),
{
    match w {
        Write::UpsertUser { .. } => UPSERT_USER,
        Write::UpsertChannel { .. } => UPSERT_CHANNEL,
        Write::EnsureChannel { .. } => ENSURE_CHANNEL,
        Write::EnsureUser { .. } => ENSURE_USER,
        Write::UpsertThread { .. } => UPSERT_THREAD,
        Write::UpsertMessage { .. } => UPSERT_MESSAGE,
        Write::ClearMentions { .. } => CLEAR_MENTIONS,
        Write::AddMention { .. } => ADD_MENTION,
    }
}

/// Every write has the statement that is made for it.
pub proof fn law_every_write_has_its_statement(
    id: Seq<char>,
    name: Seq<char>,
    kind: Seq<char>,
    user: Option<Seq<char>>,
    row: i64,
    thread: Option<i64>,
)
    ensures
        statement_of(WriteView::UpsertUser { id, name }) == UPSERT_USER@,
        statement_of(WriteView::UpsertChannel { id, name, kind }) == UPSERT_CHANNEL@,
        statement_of(WriteView::EnsureChannel { id }) == ENSURE_CHANNEL@,
        statement_of(WriteView::EnsureUser { id }) == ENSURE_USER@,
        statement_of(WriteView::UpsertThread { channel_id: id, thread_ts: name, tag: kind })
            == UPSERT_THREAD@,
        statement_of(
            WriteView::UpsertMessage {
                channel_id: id,
                ts: name,
                user_id: user,
                thread_id: thread,
                text: kind,
                note: user,
            },
        ) == UPSERT_MESSAGE@,
        statement_of(WriteView::ClearMentions { message_id: row }) == CLEAR_MENTIONS@,
        statement_of(WriteView::AddMention { message_id: row, user_id: id }) == ADD_MENTION@,
{
}

} // verus!
