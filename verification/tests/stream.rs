use myslackcli::event::{event_lines, handle_event, handle_frame, incoming_row, incoming_tag, Event};
use myslackcli::json::{parse_json, Json};
use myslackcli::names::NameMap;
use myslackcli::number::parse_i64;
use myslackcli::render::{print_message, render_message};
use myslackcli::replay::replay_local;
use myslackcli::store::{
    message_write, thread_write, writes_before, writes_behind, LocalMessage, StoredMessage, Write,
};

const TIME: &str = "18.08.26 10:22:32";

fn doc(text: &str) -> Json {
    parse_json(text).expect("a JSON document")
}

fn names(rows: &[(&str, &str)]) -> NameMap {
    let mut map = NameMap::new();
    for (id, name) in rows {
        map.insert(id.to_string(), name.to_string());
    }
    map
}

fn channels() -> NameMap {
    names(&[("C1", "#general")])
}

fn users() -> NameMap {
    names(&[("U1", "Ada Lovelace")])
}

fn lines(id: Option<i64>, text: &str, note: Option<&str>, thread: Option<&str>) -> Vec<String> {
    render_message(id, TIME, "C1", "U1", text, note, thread, &channels(), &users(), false)
}

#[test]
fn a_line_shows_time_channel_thread_and_user() {
    assert_eq!(
        lines(Some(4711), "see the thread", None, Some("1.5")),
        vec!["4711 [18.08.26 10:22:32] [#general] [t:eonp] Ada Lovelace: see the thread"]
    );
    assert_eq!(
        lines(None, "hi", None, None),
        vec!["[18.08.26 10:22:32] [#general] Ada Lovelace: hi"]
    );
}

#[test]
fn references_entities_and_emoji_are_resolved_in_that_order() {
    let shown = lines(None, "&lt;@U1&gt; <@U1> :tada: &amp;lt;", None, None);
    assert_eq!(shown, vec!["[18.08.26 10:22:32] [#general] Ada Lovelace: <@U1> @Ada Lovelace 🎉 &lt;"]);
}

#[test]
fn a_label_leads_the_text_or_is_the_body() {
    assert!(lines(None, "", Some("[kein Text]"), None)[0].ends_with("Ada Lovelace: [kein Text]"));
    assert!(lines(None, "hi", Some("[Upload: x]"), None)[0].ends_with(": [Upload: x] hi"));
}

#[test]
fn every_line_carries_the_id() {
    let shown = lines(Some(-7), "one\ntwo\n", None, None);
    assert_eq!(shown.len(), 3);
    assert!(shown[0].starts_with("-7 [18.08.26"));
    assert_eq!(shown[1], "-7 two");
    assert_eq!(shown[2], "-7 ");
    for line in &shown {
        let word = line.split(' ').next().unwrap();
        assert_eq!(parse_i64(word), Some(-7));
    }
    assert_eq!(lines(None, "one\ntwo", None, None).len(), 1);
}

#[test]
fn colours_are_put_around_the_parts() {
    let shown = render_message(
        None, TIME, "C1", "U9", "x", None, Some("1.5"), &channels(), &users(), true,
    );
    assert_eq!(
        shown,
        vec!["\x1b[32m[18.08.26 10:22:32]\x1b[0m \x1b[34m[#general]\x1b[0m \x1b[35m[t:eonp]\x1b[0m \x1b[36mU9\x1b[0m: x"]
    );
}

#[test]
fn a_message_is_printed_with_its_local_time() {
    let shown = print_message(
        Some(1), Some(1_000_000_000), "C1", "U1", "x", None, None, &channels(), &users(), false,
    );
    assert_eq!(shown.len(), 1);
    assert!(shown[0].starts_with("1 ["));
    assert!(shown[0].ends_with(":40] [#general] Ada Lovelace: x"));
}

#[test]
fn a_message_event_is_recorded_and_shown() {
    let event = doc(
        r#"{"type": "message", "channel": "C1", "user": "U1", "text": "hi <@U2>", "ts": "2.0",
            "thread_ts": "1.5"}"#,
    );
    let event = handle_event(&event, false, &users());
    let m = match &event {
        Event::Message(m) => m,
        _ => panic!("a message"),
    };
    let tag = incoming_tag(m);
    assert_eq!(tag.as_deref(), Some("eonp"));
    let row = incoming_row(m, &tag);
    assert_eq!(row.channel_id, "C1");
    assert_eq!(row.ts, "2.0");
    assert_eq!(row.user_id, Some("U1"));
    assert_eq!(row.text, "hi <@U2>");
    assert_eq!(row.note, None);
    assert_eq!(row.thread_ts, Some("1.5"));
    assert_eq!(row.thread_tag, Some("eonp"));
    assert_eq!(row.mentions, vec!["U2".to_string()]);
    assert_eq!(
        event_lines(&event, Some(3), TIME, &channels(), &users(), false),
        vec!["3 [18.08.26 10:22:32] [#general] [t:eonp] Ada Lovelace: hi @U2"]
    );
}

#[test]
fn what_a_message_event_lacks_is_filled_in() {
    let event = handle_event(&doc(r#"{"type": "message"}"#), false, &users());
    let m = match &event {
        Event::Message(m) => m,
        _ => panic!("a message"),
    };
    assert_eq!(m.channel_id, "?");
    assert_eq!(m.ts, "");
    assert_eq!(m.user_id, "?");
    assert_eq!(m.note.as_deref(), Some("[kein Text]"));
    assert_eq!(incoming_tag(m), None);
    // The stand-in for an unknown user is not recorded as one.
    assert_eq!(incoming_row(m, &None).user_id, None);
    assert_eq!(
        event_lines(&event, None, TIME, &channels(), &users(), false),
        vec!["[18.08.26 10:22:32] [?] ?: [kein Text]"]
    );
}

#[test]
fn a_reaction_is_shown_with_the_message_that_it_was_left_on() {
    let event = handle_event(
        &doc(
            r#"{"type": "reaction_added", "user": "U1", "reaction": "tada", "event_ts": "9",
                "item": {"channel": "C1", "ts": "2.0"}}"#,
        ),
        false,
        &users(),
    );
    match &event {
        Event::Reaction(x) => {
            assert_eq!(x.channel_id, "C1");
            assert_eq!(x.target_ts, "2.0");
            assert_eq!(x.ts, "9");
            assert_eq!(x.text, ":tada:");
        }
        _ => panic!("a reaction"),
    }
    assert_eq!(
        event_lines(&event, Some(5), TIME, &channels(), &users(), false),
        vec!["5 [18.08.26 10:22:32] [#general] Ada Lovelace: [Reaktion] 🎉"]
    );
    match handle_event(&doc(r#"{"type": "reaction_added"}"#), false, &users()) {
        Event::Reaction(x) => {
            assert_eq!((x.channel_id.as_str(), x.target_ts.as_str()), ("?", ""));
            assert_eq!((x.user_id.as_str(), x.ts.as_str(), x.text.as_str()), ("?", "", "::"));
        }
        _ => panic!("a reaction"),
    }
}

fn notice(text: &str, verbose: bool) -> Option<String> {
    match handle_frame(text, verbose, &users()) {
        Some(Event::Notice(line)) => Some(line),
        Some(Event::Nothing) => None,
        _ => panic!("a notice or nothing"),
    }
}

#[test]
fn other_events_are_reported_only_when_verbose() {
    assert_eq!(notice(r#"{"type": "hello"}"#, true).as_deref(), Some("(connected — hello received)"));
    assert_eq!(notice(r#"{"type": "hello"}"#, false), None);
    assert_eq!(notice(r#"{"type": "user_typing"}"#, true).as_deref(), Some("(user_typing event)"));
    assert_eq!(notice(r#"{"type": "user_typing"}"#, false), None);
    assert_eq!(notice(r#"{"ok": true}"#, true), None);
    assert_eq!(notice(r#"{"type": ""}"#, true), None);
    assert_eq!(notice("", true), None);
    assert_eq!(notice("not JSON", true), None);
    let event = handle_event(&doc(r#"{"type": "hello"}"#), true, &users());
    assert_eq!(
        event_lines(&event, Some(1), TIME, &channels(), &users(), true),
        vec!["(connected — hello received)"]
    );
    assert!(event_lines(&Event::Nothing, None, TIME, &channels(), &users(), true).is_empty());
}

#[test]
fn a_frame_whose_call_has_no_length_is_turned_down() {
    let frame = r#"{"type": "message", "subtype": "huddle_thread",
        "room": {"date_start": 9223372036854775807, "date_end": -9223372036854775808}}"#;
    assert!(handle_frame(frame, false, &users()).is_none());
    let other = r#"{"type": "other", "subtype": "huddle_thread",
        "room": {"date_start": 9223372036854775807, "date_end": -9223372036854775808}}"#;
    assert!(matches!(handle_frame(other, false, &users()), Some(Event::Nothing)));
}

fn stored<'a>(thread_tag: Option<&'a str>) -> StoredMessage<'a> {
    StoredMessage {
        channel_id: "C1",
        ts: "2.0",
        user_id: Some("U1"),
        text: "hi",
        note: Some("[n]"),
        thread_ts: Some("1.5"),
        thread_tag,
        mentions: vec!["U2".to_string(), "U3".to_string()],
    }
}

#[test]
fn recording_a_message_is_a_series_of_writes() {
    let m = stored(Some("eonp"));
    let before = writes_before(&m);
    assert_eq!(before.len(), 2);
    assert!(matches!(&before[0], Write::EnsureChannel { id: "C1" }));
    assert!(matches!(&before[1], Write::EnsureUser { id: "U1" }));
    assert!(matches!(
        thread_write(&m),
        Some(Write::UpsertThread { channel_id: "C1", thread_ts: "1.5", tag: "eonp" })
    ));
    assert!(matches!(
        message_write(&m, Some(4)),
        Write::UpsertMessage {
            channel_id: "C1",
            ts: "2.0",
            user_id: Some("U1"),
            thread_id: Some(4),
            text: "hi",
            note: Some("[n]"),
        }
    ));
    let behind = writes_behind(&m, 9);
    assert_eq!(behind.len(), 5);
    assert!(matches!(&behind[0], Write::ClearMentions { message_id: 9 }));
    assert!(matches!(&behind[1], Write::EnsureUser { id: "U2" }));
    assert!(matches!(&behind[2], Write::AddMention { message_id: 9, user_id: "U2" }));
    assert!(matches!(&behind[3], Write::EnsureUser { id: "U3" }));
    assert!(matches!(&behind[4], Write::AddMention { message_id: 9, user_id: "U3" }));
}

#[test]
fn a_thread_is_recorded_only_with_its_tag() {
    assert!(thread_write(&stored(None)).is_none());
    let mut m = stored(Some("eonp"));
    m.thread_ts = None;
    assert!(thread_write(&m).is_none());
    m.user_id = None;
    m.mentions = Vec::new();
    assert_eq!(writes_before(&m).len(), 1);
    assert_eq!(writes_behind(&m, 1).len(), 1);
}

#[test]
fn what_is_recorded_is_shown_as_it_was_live() {
    let event = handle_event(
        &doc(
            r#"{"type": "message", "channel": "C9", "user": "U1", "ts": "2.0", "thread_ts": "1.5",
                "text": "<@U2> &amp; <#C1> <#C9|foo> <#C9> :tada:\nmore", "files": [{"name": "x"}]}"#,
        ),
        false,
        &users(),
    );
    let m = match &event {
        Event::Message(m) => m,
        _ => panic!("a message"),
    };
    let tag = incoming_tag(m);
    let row = incoming_row(m, &tag);
    let local = LocalMessage {
        id: 12,
        ts: row.ts.to_string(),
        channel_id: row.channel_id.to_string(),
        user_id: row.user_id.map(|u| u.to_string()),
        text: row.text.to_string(),
        note: row.note.map(|n| n.to_string()),
        thread_ts: row.thread_ts.map(|t| t.to_string()),
    };
    // The placeholders that the message added are named by their ids.
    let users_again = names(&[("U1", "Ada Lovelace"), ("U2", "U2")]);
    let channels_again = names(&[("C1", "#general"), ("C9", "C9")]);
    let again =
        replay_local(&vec![local], &vec![TIME.to_string()], "x.db", &channels_again, &users_again, true);
    assert_eq!(again[0], "--- 1 stored message(s) from x.db ---");
    assert_eq!(again[1..], event_lines(&event, Some(12), TIME, &channels(), &users(), true)[..]);
    assert_eq!(again.len(), 3);
}

#[test]
fn an_unknown_user_is_shown_as_a_question_mark() {
    let local = LocalMessage {
        id: 1,
        ts: "1".to_string(),
        channel_id: "C9".to_string(),
        user_id: None,
        text: "x".to_string(),
        note: None,
        thread_ts: None,
    };
    assert_eq!(
        replay_local(&vec![local], &vec![TIME.to_string()], "p", &channels(), &users(), false),
        vec!["--- 1 stored message(s) from p ---", "1 [18.08.26 10:22:32] [C9] ?: x"]
    );
    assert_eq!(
        replay_local(&Vec::new(), &Vec::new(), "p", &channels(), &users(), false),
        vec!["--- 0 stored message(s) from p ---"]
    );
}
