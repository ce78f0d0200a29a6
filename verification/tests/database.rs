use rusqlite::Connection;

use myslackcli::sql;
use myslackcli::store::{
    channel_writes, save_step, user_writes, ChannelRow, SaveStep, StoredMessage, Write,
};

fn database() -> Connection {
    let conn = Connection::open_in_memory().unwrap();
    conn.execute_batch(sql::PRAGMAS).unwrap();
    conn.execute_batch(sql::SCHEMA).unwrap();
    conn
}

fn perform(conn: &Connection, write: &Write) -> i64 {
    let statement = sql::statement(write);
    match write {
        Write::UpsertUser { id, name } => conn.execute(statement, (id, name)),
        Write::UpsertChannel { id, name, kind } => conn.execute(statement, (id, name, kind)),
        Write::EnsureChannel { id } => conn.execute(statement, (id,)),
        Write::EnsureUser { id } => conn.execute(statement, (id,)),
        Write::UpsertThread { channel_id, thread_ts, tag } => {
            return conn.query_row(statement, (channel_id, thread_ts, tag), |r| r.get(0)).unwrap();
        }
        Write::UpsertMessage { channel_id, ts, user_id, thread_id, text, note } => {
            let epoch = ts.parse::<f64>().unwrap_or(0.0);
            let row = (channel_id, ts, epoch, user_id, thread_id, text, note);
            return conn.query_row(statement, row, |r| r.get(0)).unwrap();
        }
        Write::ClearMentions { message_id } => conn.execute(statement, (message_id,)),
        Write::AddMention { message_id, user_id } => conn.execute(statement, (message_id, user_id)),
    }
    .unwrap();
    0
}

fn save(conn: &Connection, m: &StoredMessage) -> i64 {
    let mut step = SaveStep::Begun;
    let mut answer = 0;
    loop {
        let (next, writes) = save_step(m, step, answer);
        for write in &writes {
            answer = perform(conn, write);
        }
        step = next;
        if let SaveStep::Done { message_id } = step {
            return message_id;
        }
    }
}

fn message<'a>(ts: &'a str, text: &'a str, mentions: &[&str]) -> StoredMessage<'a> {
    StoredMessage {
        channel_id: "C1",
        ts,
        user_id: Some("U1"),
        text,
        note: None,
        thread_ts: None,
        thread_tag: None,
        mentions: mentions.iter().map(|m| m.to_string()).collect(),
    }
}

fn dump(conn: &Connection) -> Vec<String> {
    let mut all = Vec::new();
    for (query, columns) in [
        ("SELECT id, name FROM users ORDER BY id", 2),
        ("SELECT id, name, kind FROM channels ORDER BY id", 3),
        ("SELECT id, channel_id, thread_ts, tag FROM threads ORDER BY id", 4),
        ("SELECT id, channel_id, ts, user_id, thread_id, text, note FROM messages ORDER BY id", 7),
        ("SELECT message_id, user_id FROM mentions ORDER BY message_id, user_id", 2),
    ] {
        let mut stmt = conn.prepare(query).unwrap();
        let mut rows = stmt.query([]).unwrap();
        while let Some(row) = rows.next().unwrap() {
            for i in 0..columns {
                let value: rusqlite::types::Value = row.get(i).unwrap();
                all.push(format!("{value:?}"));
            }
        }
    }
    all
}

fn mentions(conn: &Connection, id: i64) -> Vec<String> {
    let mut stmt =
        conn.prepare("SELECT user_id FROM mentions WHERE message_id = ?1 ORDER BY user_id").unwrap();
    let rows = stmt.query_map((id,), |r| r.get(0)).unwrap();
    rows.map(|r| r.unwrap()).collect()
}

fn name_of_user(conn: &Connection, id: &str) -> String {
    conn.query_row("SELECT name FROM users WHERE id = ?1", (id,), |r| r.get(0)).unwrap()
}

#[test]
fn recording_a_message_twice_changes_nothing() {
    let conn = database();
    let mut m = message("2.0", "hi <@U2>", &["U2"]);
    m.thread_ts = Some("1.5");
    m.thread_tag = Some("eonp");
    m.note = Some("[n]");
    let id = save(&conn, &m);
    let other = save(&conn, &message("3.0", "x", &[]));
    assert_ne!(id, other);
    let before = dump(&conn);
    assert_eq!(save(&conn, &m), id);
    assert_eq!(dump(&conn), before);
}

#[test]
fn a_batch_answers_one_id_for_each_message_in_order() {
    let conn = database();
    let batch = [
        message("3.0", "c", &[]),
        message("1.0", "a", &["U2"]),
        message("3.0", "c again", &[]),
        message("2.0", "b", &[]),
    ];
    let ids: Vec<i64> = batch.iter().map(|m| save(&conn, m)).collect();
    assert_eq!(ids[0], ids[2]);
    assert_ne!(ids[0], ids[1]);
    assert_ne!(ids[0], ids[3]);
    assert_ne!(ids[1], ids[3]);
    for (id, text) in [(ids[1], "a"), (ids[2], "c again"), (ids[3], "b")] {
        let stored: String =
            conn.query_row("SELECT text FROM messages WHERE id = ?1", (id,), |r| r.get(0)).unwrap();
        assert_eq!(stored, text);
    }
}

#[test]
fn an_edit_replaces_text_and_mentions_in_the_same_row() {
    let conn = database();
    let id = save(&conn, &message("2.0", "old", &["U2", "U3"]));
    let other = save(&conn, &message("3.0", "x", &["U3"]));
    assert_eq!(save(&conn, &message("2.0", "new", &["U3", "U4"])), id);
    assert_eq!(mentions(&conn, id), vec!["U3", "U4"]);
    assert_eq!(mentions(&conn, other), vec!["U3"]);
    let text: String =
        conn.query_row("SELECT text FROM messages WHERE id = ?1", (id,), |r| r.get(0)).unwrap();
    assert_eq!(text, "new");
}

#[test]
fn names_survive_the_messages_that_refer_to_them() {
    let conn = database();
    let users = vec![("U1".to_string(), "Ada".to_string()), ("U1".to_string(), "Ada L.".to_string())];
    for write in user_writes(&users) {
        perform(&conn, &write);
    }
    let rows = vec![ChannelRow { id: "C1".to_string(), name: "#general".to_string(), kind: "channel" }];
    for write in channel_writes(&rows) {
        perform(&conn, &write);
    }
    save(&conn, &message("2.0", "<@U1> <@U9>", &["U1", "U9"]));
    assert_eq!(name_of_user(&conn, "U1"), "Ada L.");
    assert_eq!(name_of_user(&conn, "U9"), "U9");
    let kind: String =
        conn.query_row("SELECT kind FROM channels WHERE id = 'C1'", [], |r| r.get(0)).unwrap();
    assert_eq!(kind, "channel");
}

#[test]
fn an_unlisted_channel_gets_a_placeholder() {
    let conn = database();
    save(&conn, &message("2.0", "x", &[]));
    let row: (String, String) = conn
        .query_row("SELECT name, kind FROM channels WHERE id = 'C1'", [], |r| Ok((r.get(0)?, r.get(1)?)))
        .unwrap();
    assert_eq!(row, ("C1".to_string(), "unknown".to_string()));
}

#[test]
fn messages_are_read_back_in_the_order_of_their_times() {
    let conn = database();
    let mut reply = message("10.5", "later", &[]);
    reply.thread_ts = Some("9.0");
    reply.thread_tag = Some("abcd");
    reply.user_id = None;
    reply.note = Some("[n]");
    let later = save(&conn, &reply);
    let earlier = save(&conn, &message("9.0", "&lt;raw&gt; :tada:", &[]));
    let mut stmt = conn.prepare(sql::LOAD_MESSAGES).unwrap();
    let rows: Vec<(i64, String, String, Option<String>, String, Option<String>, Option<String>)> = stmt
        .query_map([], |r| {
            Ok((r.get(0)?, r.get(1)?, r.get(2)?, r.get(3)?, r.get(4)?, r.get(5)?, r.get(6)?))
        })
        .unwrap()
        .map(|r| r.unwrap())
        .collect();
    let text = |s: &str| s.to_string();
    assert_eq!(
        rows,
        vec![
            (earlier, text("9.0"), text("C1"), Some(text("U1")), text("&lt;raw&gt; :tada:"), None, None),
            (later, text("10.5"), text("C1"), None, text("later"), Some(text("[n]")), Some(text("9.0"))),
        ]
    );
}

#[test]
fn a_message_is_found_by_its_row_and_its_time() {
    let conn = database();
    let mut m = message("10.5", "x", &[]);
    m.thread_ts = Some("9.0");
    m.thread_tag = Some("abcd");
    let id = save(&conn, &m);
    let found: (String, String, Option<String>) = conn
        .query_row(sql::MESSAGE_BY_ID, (id,), |r| Ok((r.get(0)?, r.get(1)?, r.get(2)?)))
        .unwrap();
    assert_eq!(found, ("C1".to_string(), "10.5".to_string(), Some("9.0".to_string())));
    let row: i64 = conn.query_row(sql::MESSAGE_ID_BY_TS, ("C1", "10.5"), |r| r.get(0)).unwrap();
    assert_eq!(row, id);
    assert!(conn.query_row(sql::MESSAGE_ID_BY_TS, ("C2", "10.5"), |r| r.get::<usize, i64>(0)).is_err());
    assert!(conn.query_row(sql::MESSAGE_BY_ID, (id + 1,), |r| r.get::<usize, String>(0)).is_err());
}

#[test]
fn facts_about_the_workspace_are_kept() {
    let conn = database();
    conn.execute(sql::SET_META, ("team_id", "T1")).unwrap();
    conn.execute(sql::SET_META, ("team_id", "T2")).unwrap();
    let value: String = conn.query_row(sql::GET_META, ("team_id",), |r| r.get(0)).unwrap();
    assert_eq!(value, "T2");
    assert!(conn.query_row(sql::GET_META, ("workspace_domain",), |r| r.get::<usize, String>(0)).is_err());
}

#[test]
fn a_file_without_labels_gets_the_column() {
    let conn = Connection::open_in_memory().unwrap();
    conn.execute_batch("CREATE TABLE messages (id INTEGER PRIMARY KEY, thread_id INTEGER, user_id TEXT, ts_epoch REAL)")
        .unwrap();
    conn.execute_batch(sql::SCHEMA).unwrap();
    let count = |conn: &Connection| -> i64 {
        conn.query_row(sql::COUNT_NOTE_COLUMNS, [], |r| r.get(0)).unwrap()
    };
    assert_eq!(count(&conn), 0);
    conn.execute_batch(sql::ADD_NOTE_COLUMN).unwrap();
    assert_eq!(count(&conn), 1);
    assert_eq!(count(&database()), 1);
    let read = |statement: &str| database().prepare(statement).is_ok();
    assert!(read(sql::LOAD_USERS) && read(sql::LOAD_CHANNELS) && read(sql::LOAD_MESSAGES_WITHOUT_NOTES));
}
