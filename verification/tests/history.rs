use chrono::TimeZone;
use myslackcli::calendar::DAY;
use myslackcli::clock::{
    current_stamp, day_on, day_query, format_all, format_slack_ts, search_query, stamp_on,
    FIRST_SECOND, LAST_SECOND,
};
use myslackcli::history::{
    arrange_history, can_read_page, has_next_page, history_lines, history_rows, history_tags, match_timestamps,
    next_page, search_messages_since, search_url, shown_ids, sort_messages, tag_thread_parents,
    HistMessage,
};
use myslackcli::json::{parse_json, Json};
use myslackcli::names::NameMap;

fn doc(text: &str) -> Json {
    parse_json(text).expect("a JSON document")
}

fn message(order: i64, channel_id: &str, ts_raw: &str, thread_ts: Option<&str>) -> HistMessage {
    HistMessage {
        order,
        ts_raw: ts_raw.to_string(),
        channel_id: channel_id.to_string(),
        user_id: "U1".to_string(),
        text: format!("at {ts_raw}"),
        note: None,
        thread_ts: thread_ts.map(|t| t.to_string()),
    }
}

fn raw(messages: &[HistMessage]) -> Vec<&str> {
    messages.iter().map(|m| m.ts_raw.as_str()).collect()
}

fn threads(messages: &[HistMessage]) -> Vec<Option<&str>> {
    messages.iter().map(|m| m.thread_ts.as_deref()).collect()
}

#[test]
fn a_search_is_asked_for_page_by_page() {
    assert_eq!(
        search_url("after:2026-08-17", 3),
        "https://slack.com/api/search.messages?query=after%3A2026-08-17&count=100&page=3&sort=timestamp&sort_dir=asc"
    );
}

#[test]
fn pages_follow_until_the_last_or_an_empty_one() {
    let page = |count: &str| {
        doc(&format!(r#"{{"messages": {{"matches": [{{}}], "pagination": {{"page_count": {count}}}}}}}"#))
    };
    assert_eq!(next_page(&page("3"), 1), Some(2));
    assert_eq!(next_page(&page("3"), 2), Some(3));
    assert_eq!(next_page(&page("3"), 3), None);
    assert!(has_next_page(&page("3"), 2));
    assert!(!has_next_page(&page("3"), 3));
    assert!(!has_next_page(&page("3"), u32::MAX));
    assert_eq!(next_page(&page("3"), u32::MAX), None);
    assert!(has_next_page(&page("4294967296"), u32::MAX));
    assert_eq!(next_page(&page("-1"), 1), None);
    assert_eq!(next_page(&page("\"9\""), 1), None);
    let empty = doc(r#"{"messages": {"matches": [], "pagination": {"page_count": 9}}}"#);
    assert_eq!(next_page(&empty, 1), None);
    assert_eq!(next_page(&doc("{}"), 1), None);
}

#[test]
fn found_messages_inside_the_window_are_kept() {
    let resp = doc(
        r#"{"messages": {"matches": [
            {"ts": "10.5", "user": "U1", "text": "one", "channel": {"id": "C1"}},
            {"ts": "nine", "user": "U1", "text": "no time"},
            {"ts": "3", "user": "U1", "text": "too old"},
            {"ts": "11", "username": "bot", "text": "", "thread_ts": "10.5",
             "permalink": "https://x/p1?thread_ts=9"},
            {"ts": "12", "permalink": "https://x/p1?thread_ts=9", "text": "reply"}]}}"#,
    );
    assert_eq!(match_timestamps(&resp), vec!["10.5", "nine", "3", "11", "12"]);
    let orders = vec![Some(105), None, Some(30), Some(110), Some(120)];
    assert!(can_read_page(&resp, &orders, 100));
    let mut out = vec![message(1, "C0", "1", None)];
    search_messages_since(&resp, &orders, 100, &NameMap::new(), &mut out);
    assert_eq!(raw(&out), vec!["1", "10.5", "11", "12"]);
    assert_eq!(threads(&out), vec![None, None, Some("10.5"), Some("9")]);
    assert_eq!(out[1].order, 105);
    assert_eq!(out[1].channel_id, "C1");
    assert_eq!(out[1].user_id, "U1");
    assert_eq!(out[1].text, "one");
    assert_eq!(out[1].note, None);
    assert_eq!(out[2].channel_id, "");
    assert_eq!(out[2].user_id, "bot");
    assert_eq!(out[2].note.as_deref(), Some("[kein Text]"));
    assert_eq!(out[3].user_id, "?");
}

#[test]
fn the_window_begins_at_its_oldest_moment() {
    let resp = doc(r#"{"messages": {"matches": [{"ts": "1"}, {"ts": "2"}]}}"#);
    let mut out = Vec::new();
    search_messages_since(&resp, &vec![Some(9), Some(10)], 10, &NameMap::new(), &mut out);
    assert_eq!(raw(&out), vec!["2"]);
}

#[test]
fn a_page_is_readable_where_its_calls_are() {
    let resp = doc(
        r#"{"messages": {"matches": [{"ts": "1", "subtype": "huddle_thread",
            "room": {"date_start": -9223372036854775808, "date_end": 1}}]}}"#,
    );
    assert!(!can_read_page(&resp, &vec![Some(1)], 0));
    // One that is not kept need not be described.
    assert!(can_read_page(&resp, &vec![Some(1)], 2));
    assert!(can_read_page(&resp, &vec![None], 0));
    assert!(!can_read_page(&resp, &Vec::new(), 0));
    assert!(can_read_page(&doc("{}"), &Vec::new(), 0));
}

#[test]
fn history_is_chronological_and_stable() {
    let mut messages = vec![
        message(5, "C1", "e", None),
        message(2, "C1", "b", None),
        message(5, "C2", "f", None),
        message(-1, "C1", "a", None),
        message(2, "C2", "c", None),
    ];
    sort_messages(&mut messages);
    assert_eq!(raw(&messages), vec!["a", "b", "c", "e", "f"]);
    sort_messages(&mut messages);
    assert_eq!(raw(&messages), vec!["a", "b", "c", "e", "f"]);
}

#[test]
fn a_parent_joins_the_thread_of_its_replies() {
    let mut messages = vec![
        message(1, "C1", "1.0", None),
        message(2, "C2", "1.0", None),
        message(3, "C1", "2.0", Some("1.0")),
        message(4, "C1", "3.0", Some("0.5")),
        message(5, "C1", "2.0", None),
    ];
    tag_thread_parents(&mut messages);
    assert_eq!(threads(&messages), vec![Some("1.0"), None, Some("1.0"), Some("0.5"), None]);
    let tags = history_tags(&messages);
    assert_eq!(tags[0], tags[2]);
    assert!(tags[0].is_some());
    assert_eq!(tags[1], None);
    tag_thread_parents(&mut messages);
    assert_eq!(threads(&messages), vec![Some("1.0"), None, Some("1.0"), Some("0.5"), None]);
}

#[test]
fn channels_and_timestamps_are_not_run_together() {
    // "C1" with "23" is not "C12" with "3".
    let mut messages = vec![message(1, "C1", "23", None), message(2, "C12", "9", Some("3"))];
    tag_thread_parents(&mut messages);
    assert_eq!(threads(&messages), vec![None, Some("3")]);
}

#[test]
fn history_is_recorded_as_it_was_found() {
    let mut messages = vec![
        message(2, "C1", "2.0", Some("1.5")),
        message(1, "C1", "1.5", None),
    ];
    messages[0].text = "hi <@U2> &amp; <@U3>".to_string();
    messages[0].note = Some("[Upload: x]".to_string());
    arrange_history(&mut messages);
    let tags = history_tags(&messages);
    let rows = history_rows(&messages, &tags);
    assert_eq!(rows.len(), 2);
    assert_eq!(rows[0].ts, "1.5");
    assert_eq!(rows[0].thread_ts, Some("1.5"));
    assert_eq!(rows[0].thread_tag, Some("eonp"));
    assert_eq!(rows[1].thread_tag, Some("eonp"));
    assert_eq!(rows[1].channel_id, "C1");
    assert_eq!(rows[1].user_id, Some("U1"));
    assert_eq!(rows[1].text, "hi <@U2> &amp; <@U3>");
    assert_eq!(rows[1].note, Some("[Upload: x]"));
    assert_eq!(rows[1].mentions, vec!["U2".to_string(), "U3".to_string()]);
    assert!(rows[0].mentions.is_empty());
}

#[test]
fn history_is_shown_under_a_header() {
    let messages = vec![message(1, "C1", "1.5", Some("1.5")), message(2, "C9", "2", None)];
    let mut channels = NameMap::new();
    channels.insert("C1".to_string(), "#general".to_string());
    let mut users = NameMap::new();
    users.insert("U1".to_string(), "Ada".to_string());
    let times = vec!["01.01.70 00:00:01".to_string(), "01.01.70 00:00:02".to_string()];
    let ids = shown_ids(Some(&vec![7, 8]), 2);
    assert_eq!(ids, vec![Some(7), Some(8)]);
    assert_eq!(
        history_lines(&messages, &ids, &times, "1h", &channels, &users, false),
        vec![
            "--- 2 historical message(s) since 1h ---",
            "7 [01.01.70 00:00:01] [#general] [t:eonp] Ada: at 1.5",
            "8 [01.01.70 00:00:02] [C9] Ada: at 2",
        ]
    );
    let ids = shown_ids(None, 2);
    assert_eq!(ids, vec![None, None]);
    let lines = history_lines(&messages, &ids, &times, "1h", &channels, &users, false);
    assert_eq!(lines[2], "[01.01.70 00:00:02] [C9] Ada: at 2");
}

fn is_stamp(s: &str) -> bool {
    s.len() == 17
        && s.bytes().enumerate().all(|(i, b)| match i {
            2 | 5 => b == b'.',
            8 => b == b' ',
            11 | 14 => b == b':',
            _ => b.is_ascii_digit(),
        })
}

#[test]
fn times_are_written_to_the_second() {
    for seconds in [None, Some(0), Some(-1), Some(1690000000), Some(i64::MAX), Some(i64::MIN)] {
        let shown = format_slack_ts(seconds);
        assert!(is_stamp(&shown), "{shown}");
    }
    for seconds in [FIRST_SECOND, LAST_SECOND, FIRST_SECOND - 1, LAST_SECOND + 1] {
        assert!(is_stamp(&format_slack_ts(Some(seconds))));
    }
    // Zones differ by whole minutes at that time.
    let shown = format_slack_ts(Some(1_000_000_000));
    assert_eq!(&shown[15..], "40");
    assert_ne!(shown, format_slack_ts(Some(1_000_000_001)));
    let all = format_all(&vec![Some(1_000_000_000), None]);
    assert_eq!(all.len(), 2);
    assert_eq!(all[0], shown);
    assert!(is_stamp(&current_stamp()));
}

#[test]
fn a_search_begins_a_day_early() {
    // Noon of 2001-09-09 in UTC: the day before, wherever this runs.
    let query = search_query(1_000_036_800).expect("a query");
    assert!(["after:2001-09-07", "after:2001-09-08", "after:2001-09-09"].contains(&query.as_str()));
    assert_eq!(query.len(), 16);
    assert_eq!(day_query("2026-08-18"), "after:2026-08-18");
    for oldest in [0, DAY, 253_370_764_800] {
        assert_eq!(search_query(oldest).map(|q| q.len()), Some(16));
    }
}

#[test]
fn dates_end_where_the_calendar_does() {
    assert!(search_query(LAST_SECOND).is_some());
    assert_eq!(search_query(LAST_SECOND + 1), None);
    assert!(search_query(FIRST_SECOND + DAY).is_some());
    assert_eq!(search_query(FIRST_SECOND - 1), None);
    assert_eq!(search_query(i64::MAX), None);
    assert_eq!(search_query(i64::MIN), None);
}

#[test]
fn times_are_those_of_the_civil_calendar() {
    for (seconds, offset, stamp, day) in [
        (0, 0, "01.01.70 00:00:00", "1970-01-01"),
        (-1, 0, "31.12.69 23:59:59", "1969-12-31"),
        (1_690_000_000, 0, "22.07.23 04:26:40", "2023-07-22"),
        (1_690_000_000, 7200, "22.07.23 06:26:40", "2023-07-22"),
        (1_690_000_000, -86_399, "21.07.23 04:26:41", "2023-07-21"),
        (951_782_400, 3600, "29.02.00 01:00:00", "2000-02-29"),
        (253_402_300_800, 0, "01.01.00 00:00:00", "+10000-01-01"),
        (-62_167_219_201, 0, "31.12.99 23:59:59", "-0001-12-31"),
        (FIRST_SECOND, -1, "31.12.56 23:59:59", "-262144-12-31"),
        (LAST_SECOND, 1, "01.01.43 00:00:00", "+262143-01-01"),
    ] {
        assert_eq!(stamp_on(seconds, offset).as_deref(), Some(stamp));
        assert_eq!(day_on(seconds, offset).as_deref(), Some(day));
    }
}

#[test]
fn there_is_no_time_without_a_date_or_a_zone() {
    assert_eq!(stamp_on(0, 86_400), None);
    assert_eq!(stamp_on(0, -86_400), None);
    assert!(stamp_on(0, 86_399).is_some());
    assert_eq!(stamp_on(FIRST_SECOND - 1, 0), None);
    assert_eq!(stamp_on(LAST_SECOND + 1, 0), None);
    assert_eq!(day_on(LAST_SECOND + 1, 0), None);
    assert_eq!(day_on(0, 86_400), None);
}

#[test]
fn the_calendar_of_the_dates_is_chronos() {
    assert!(chrono::Local.timestamp_opt(FIRST_SECOND, 0).single().is_some());
    assert!(chrono::Local.timestamp_opt(FIRST_SECOND - 1, 0).single().is_none());
    assert!(chrono::Local.timestamp_opt(LAST_SECOND, 0).single().is_some());
    assert!(chrono::Local.timestamp_opt(LAST_SECOND + 1, 0).single().is_none());
    for seconds in [0, 1_000_000_000, 1_781_248_493] {
        let at = chrono::Local.timestamp_opt(seconds, 0).single().unwrap();
        assert_eq!(format_slack_ts(Some(seconds)), at.format("%d.%m.%y %H:%M:%S").to_string());
        let before = at - chrono::Duration::days(1);
        assert_eq!(search_query(seconds).unwrap(), format!("after:{}", before.format("%Y-%m-%d")));
    }
}
