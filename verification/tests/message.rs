use myslackcli::json::{parse_json, parse_json_bytes, Json};
use myslackcli::message::{
    can_describe, collect_block_text, describe_payload, message_author, message_text,
    text_from_blocks,
};
use myslackcli::names::NameMap;

fn users() -> NameMap {
    let mut names = NameMap::new();
    for (id, name) in [("UD25T8BEW", "Michael"), ("UD0QC5Z8R", "Ole"), ("UD1CGTWUQ", "Johannes")] {
        names.insert(id.to_string(), name.to_string());
    }
    names
}

fn doc(text: &str) -> Json {
    parse_json(text).expect("a JSON document")
}

fn described(m: &Json, text_is_empty: bool) -> Option<String> {
    assert!(can_describe(m));
    describe_payload(m, &users(), text_is_empty)
}

#[test]
fn a_bot_post_is_attributed_to_the_bot_instead_of_questionmark() {
    let m = doc(r#"{"subtype": "bot_message", "text": "hi", "username": "Karma", "bot_id": "BQCJMA6DD"}"#);
    assert_eq!(message_author(&m), "Karma");
}

#[test]
fn a_huddle_is_attributed_to_whoever_started_it_not_to_slackbot() {
    let m = doc(
        r#"{
            "subtype": "huddle_thread", "user": "USLACKBOT", "text": "",
            "room": {"created_by": "UD25T8BEW", "date_start": 1781248493, "date_end": 1781249546,
                     "participant_history": ["UD25T8BEW", "UD0QC5Z8R", "UD1CGTWUQ"]}
        }"#,
    );
    assert_eq!(message_author(&m), "UD25T8BEW");
    assert_eq!(described(&m, true).unwrap(), "[Anruf: Michael, Ole, Johannes — 17m]");
}

#[test]
fn a_huddle_with_more_than_three_participants_counts_the_rest() {
    let m = doc(
        r#"{
            "subtype": "huddle_thread", "user": "USLACKBOT", "text": "",
            "room": {"created_by": "UD25T8BEW", "date_start": 0, "date_end": 60,
                     "participant_history": ["UD25T8BEW", "UD0QC5Z8R", "UD1CGTWUQ", "UX1", "UX2"]}
        }"#,
    );
    assert_eq!(described(&m, true).unwrap(), "[Anruf: Michael, Ole, Johannes +2 — 1m]");
}

#[test]
fn an_upload_reports_its_filename() {
    let m = doc(
        r#"{"text": "", "upload": true, "user": "U03BN4TDFEC",
            "files": [{"name": "Bild von iOS.jpg", "mimetype": "image/jpeg"}]}"#,
    );
    assert_eq!(described(&m, true).unwrap(), "[Upload: Bild von iOS.jpg]");
}

#[test]
fn several_uploads_count_the_remainder() {
    let m = doc(r#"{"text": "", "files": [{"name": "a.mp4"}, {"name": "b.pdf"}]}"#);
    assert_eq!(described(&m, true).unwrap(), "[Upload: a.mp4 +1]");
}

#[test]
fn a_caption_does_not_hide_what_was_uploaded() {
    let m = doc(r#"{"text": "schau mal", "files": [{"name": "image.png", "mimetype": "image/png"}]}"#);
    assert_eq!(described(&m, false).unwrap(), "[Upload: image.png]");
}

#[test]
fn an_unfurl_is_described_only_when_the_message_has_no_text_of_its_own() {
    let empty = doc(r#"{"text": "", "attachments": [{"title": "Internetz-TV", "fallback": "YouTube Video"}]}"#);
    assert_eq!(described(&empty, true).unwrap(), "[Link: Internetz-TV]");

    let with_text = doc(r#"{"text": "<https://youtu.be/x>", "attachments": [{"title": "Internetz-TV"}]}"#);
    assert_eq!(described(&with_text, false), None);
}

#[test]
fn ordinary_text_gets_no_label() {
    let m = doc(r#"{"text": "hello", "user": "UD25T8BEW"}"#);
    assert_eq!(described(&m, false), None);
    assert_eq!(message_author(&m), "UD25T8BEW");
}

#[test]
fn an_empty_message_with_nothing_to_describe_still_says_so() {
    assert_eq!(described(&doc(r#"{"text": ""}"#), true).unwrap(), "[kein Text]");
}

#[test]
fn block_kit_body_is_recovered_when_text_is_empty() {
    let m = doc(
        r#"{"text": "", "username": "jira cloud", "blocks": [
            {"type": "section", "block_id": "no:ih:1", "text": {"type": "mrkdwn",
             "text": "*Marius Exner created a Bug*\n*BCRT-206 Patienten landen*"}}]}"#,
    );
    assert_eq!(message_text(&m), "*Marius Exner created a Bug*\n*BCRT-206 Patienten landen*");
    // With text recovered there is nothing left to label.
    assert_eq!(described(&m, false), None);
}

#[test]
fn inline_runs_stay_on_one_line_while_blocks_become_separate_lines() {
    let m = doc(
        r#"{"text": "", "blocks": [
            {"type": "rich_text", "elements": [{"type": "rich_text_section", "elements": [
                {"type": "text", "text": "hello "}, {"type": "text", "text": "world"}]}]},
            {"type": "divider"},
            {"type": "section", "text": {"type": "plain_text", "text": "second"}}]}"#,
    );
    assert_eq!(message_text(&m), "hello world\nsecond");
}

#[test]
fn a_present_text_field_wins_over_blocks() {
    let m = doc(
        r#"{"text": "real", "blocks": [
            {"type": "section", "text": {"type": "mrkdwn", "text": "block"}}]}"#,
    );
    assert_eq!(message_text(&m), "real");
}

#[test]
fn an_author_falls_back_step_by_step() {
    assert_eq!(message_author(&doc(r#"{"bot_id": "B1"}"#)), "B1");
    assert_eq!(message_author(&doc(r#"{"user": 7, "username": "u"}"#)), "u");
    assert_eq!(message_author(&doc(r#"{"user": "", "username": "u"}"#)), "?");
    assert_eq!(message_author(&doc("{}")), "?");
    assert_eq!(message_author(&doc(r#"{"subtype": "huddle_thread", "room": {}, "user": "U1"}"#)), "U1");
    assert_eq!(
        message_author(&doc(r#"{"subtype": "huddle_thread", "room": {"created_by": ""}}"#)),
        ""
    );
}

#[test]
fn a_call_counts_whole_minutes_and_never_fewer_than_none() {
    let backwards = doc(r#"{"subtype": "huddle_thread", "room": {"date_start": 500, "date_end": 20}}"#);
    assert_eq!(described(&backwards, true).unwrap(), "[Anruf: niemand — 0m]");
    let short = doc(
        r#"{"subtype": "huddle_thread",
            "room": {"date_start": 1, "date_end": 120, "participant_history": ["UX", 3, "UD0QC5Z8R"]}}"#,
    );
    assert_eq!(described(&short, false).unwrap(), "[Anruf: UX, Ole — 1m]");
    assert_eq!(described(&doc(r#"{"subtype": "huddle_thread"}"#), true), None);
}

#[test]
fn a_call_span_out_of_range_cannot_be_described() {
    let m = doc(
        r#"{"subtype": "huddle_thread",
            "room": {"date_start": -9223372036854775808, "date_end": 9223372036854775807}}"#,
    );
    assert!(!can_describe(&m));
}

#[test]
fn labels_fall_back_where_names_are_missing() {
    assert_eq!(described(&doc(r#"{"files": [{"title": "T"}]}"#), true).unwrap(), "[Upload: T]");
    // A name that is there but is no string hides the title.
    assert_eq!(described(&doc(r#"{"files": [{"name": 1, "title": "T"}]}"#), true).unwrap(), "[Upload: Datei]");
    assert_eq!(described(&doc(r#"{"attachments": [{"fallback": "F"}]}"#), true).unwrap(), "[Link: F]");
    assert_eq!(described(&doc(r#"{"attachments": [{}]}"#), true).unwrap(), "[Link: Anhang]");
    assert_eq!(described(&doc(r#"{"files": [], "attachments": []}"#), true).unwrap(), "[kein Text]");
}

#[test]
fn blank_blocks_give_no_text() {
    let m = doc(r#"{"blocks": [{"type": "text", "text": " \n\t"}, {"type": "divider"}]}"#);
    assert_eq!(text_from_blocks(&m), None);
    assert_eq!(message_text(&m), "");
    assert_eq!(text_from_blocks(&doc(r#"{"blocks": {}}"#)), None);
    assert_eq!(text_from_blocks(&doc("{}")), None);
}

#[test]
fn leaves_are_collected_in_order_and_structure_is_descended_into() {
    let v = doc(
        r#"[{"type": "text", "text": "a"}, {"type": "text", "text": ""},
            {"type": "mrkdwn", "text": {"type": "plain_text", "text": "b"}}, "c", 4, null]"#,
    );
    let mut parts = vec!["z".to_string()];
    collect_block_text(&v, &mut parts);
    assert_eq!(parts, vec!["z".to_string(), "a".to_string(), "b".to_string()]);
}

#[test]
fn documents_are_parsed_from_text_and_from_bytes() {
    assert!(parse_json("{").is_none());
    assert!(parse_json_bytes(b"\xff").is_none());
    assert!(matches!(parse_json("null"), Some(Json::Null)));
    assert!(matches!(parse_json_bytes(b" true "), Some(Json::Bool(true))));
    assert!(matches!(parse_json("42"), Some(Json::Number(Some(42)))));
    assert!(matches!(parse_json("1.5"), Some(Json::Number(None))));
    assert!(matches!(parse_json("18446744073709551615"), Some(Json::Number(None))));
    match parse_json(r#"{"b": "x", "a": [1]}"#) {
        Some(Json::Object(fields)) => {
            // Fields come in the order of their names.
            assert_eq!(fields.len(), 2);
            assert_eq!(fields[0].0, "a");
            assert!(matches!(&fields[0].1, Json::Array(items) if items.len() == 1));
            assert!(matches!(&fields[1].1, Json::Text(t) if t == "x"));
        }
        _ => panic!("an object"),
    }
}

#[test]
fn fields_are_read_by_kind() {
    let v = doc(r#"{"t": "x", "n": 3, "l": [1, 2], "yes": true, "no": false}"#);
    assert_eq!(v.text_at("t"), Some("x"));
    assert_eq!(v.text_at("n"), None);
    assert_eq!(v.text_at_or("n", "d"), "d");
    assert_eq!(v.int_at_or("n", 9), 3);
    assert_eq!(v.int_at_or("t", 9), 9);
    assert_eq!(v.items_at("l").map(|l| l.len()), Some(2));
    assert!(v.items_at("t").is_none());
    assert!(v.flag_at("yes"));
    assert!(!v.flag_at("no"));
    assert!(!v.flag_at("t"));
    assert!(v.get("missing").is_none());
    assert!(doc("[]").get("t").is_none());
}
