use myslackcli::api::{
    channel_names, channels_url, fetch_channels, fetch_rtm_url, fetch_user_groups, fetch_users,
    name_map, next_cursor, users_url, workspace_domain, workspace_meta, workspace_meta_missing,
    RtmConnectResponse,
};
use myslackcli::json::{parse_json, Json};
use myslackcli::store::{channel_writes, user_writes, ChannelRow, Write};

fn doc(text: &str) -> Json {
    parse_json(text).expect("a JSON document")
}

fn row(id: &str, name: &str) -> (String, String) {
    (id.to_string(), name.to_string())
}

#[test]
fn addresses_carry_the_encoded_cursor() {
    assert_eq!(users_url(None), "https://slack.com/api/users.list?limit=200");
    assert_eq!(
        users_url(Some("dXNlcjpVMDYx+ä/ ~-._=")),
        "https://slack.com/api/users.list?limit=200&cursor=dXNlcjpVMDYx%2B%C3%A4%2F%20~-._%3D"
    );
    assert_eq!(
        channels_url(Some("a=")),
        "https://slack.com/api/conversations.list?types=public_channel,private_channel,im&exclude_archived=true&limit=200&cursor=a%3D"
    );
    assert_eq!(
        channels_url(None),
        "https://slack.com/api/conversations.list?types=public_channel,private_channel,im&exclude_archived=true&limit=200"
    );
}

#[test]
fn an_empty_cursor_is_none() {
    assert_eq!(next_cursor(&doc(r#"{"response_metadata": {"next_cursor": "x"}}"#)).as_deref(), Some("x"));
    assert_eq!(next_cursor(&doc(r#"{"response_metadata": {"next_cursor": ""}}"#)), None);
    assert_eq!(next_cursor(&doc(r#"{"response_metadata": {"next_cursor": 1}}"#)), None);
    assert_eq!(next_cursor(&doc(r#"{"response_metadata": {}}"#)), None);
    assert_eq!(next_cursor(&doc("{}")), None);
}

#[test]
fn users_are_listed_by_their_best_name() {
    let mut rows = vec![row("U0", "zero")];
    let next = fetch_users(
        &doc(
            r#"{"members": [
                {"id": "U1", "real_name": "Ada", "name": "ada"},
                {"id": "U2", "real_name": "", "name": "bob"},
                {"id": "U3", "real_name": 4},
                {"id": ""}, {"name": "nobody"}],
                "response_metadata": {"next_cursor": "more"}}"#,
        ),
        &mut rows,
    );
    assert_eq!(next.as_deref(), Some("more"));
    assert_eq!(rows, vec![row("U0", "zero"), row("U1", "Ada"), row("U2", "bob"), row("U3", "U3")]);
}

#[test]
fn an_empty_page_ends_the_listing() {
    let mut rows = Vec::new();
    let page = doc(r#"{"members": [], "channels": [], "response_metadata": {"next_cursor": "more"}}"#);
    assert_eq!(fetch_users(&page, &mut rows), None);
    assert!(rows.is_empty());
    let mut channels = Vec::new();
    assert_eq!(fetch_channels(&page, &name_map(&rows), &mut channels), None);
    assert!(channels.is_empty());
}

#[test]
fn groups_are_listed_by_their_handle() {
    let groups = fetch_user_groups(&doc(
        r#"{"usergroups": [
            {"id": "S1", "handle": "qa", "name": "Quality"},
            {"id": "S2", "handle": "", "name": "Devs"},
            {"id": "S3"}, {"handle": "x"}]}"#,
    ));
    assert_eq!(groups, vec![row("S1", "qa"), row("S2", "Devs")]);
    assert!(fetch_user_groups(&doc("{}")).is_empty());
}

#[test]
fn later_names_replace_earlier_ones() {
    let names = name_map(&vec![row("U1", "a"), row("U2", "b"), row("U1", "c")]);
    assert_eq!(names.len(), 2);
    assert_eq!(names.get("U1"), Some("c"));
    assert_eq!(names.get("U2"), Some("b"));
    assert_eq!(names.get("U3"), None);
    assert_eq!(names.name_or_id("U3"), "U3");
}

fn kinds(rows: &[ChannelRow]) -> Vec<(&str, &str, &str)> {
    rows.iter().map(|r| (r.id.as_str(), r.name.as_str(), r.kind)).collect()
}

#[test]
fn channels_and_direct_messages_are_listed_together() {
    let users = name_map(&vec![row("U1", "Ada")]);
    let mut rows = Vec::new();
    let next = fetch_channels(
        &doc(
            r#"{"channels": [
                {"id": "C1", "name": "general"}, {"id": "D1", "user": "U1"},
                {"id": "D2", "user": "U9", "name": ""}, {"id": "G1"}, {"name": "lost"}]}"#,
        ),
        &users,
        &mut rows,
    );
    assert_eq!(next, None);
    assert_eq!(
        kinds(&rows),
        vec![
            ("C1", "#general", "channel"),
            ("D1", "DM: Ada", "dm"),
            ("D2", "DM: U9", "dm"),
            ("G1", "G1", "unknown"),
        ]
    );
    let names = channel_names(&rows);
    assert_eq!(names.len(), 4);
    assert_eq!(names.get("D1"), Some("DM: Ada"));
}

#[test]
fn listings_are_written_row_by_row() {
    let users = vec![row("U1", "Ada"), row("U2", "Bob")];
    let writes = user_writes(&users);
    assert_eq!(writes.len(), 2);
    assert!(matches!(&writes[1], Write::UpsertUser { id: "U2", name: "Bob" }));
    let rows = vec![ChannelRow { id: "C1".to_string(), name: "#x".to_string(), kind: "channel" }];
    let writes = channel_writes(&rows);
    assert_eq!(writes.len(), 1);
    assert!(matches!(&writes[0], Write::UpsertChannel { id: "C1", name: "#x", kind: "channel" }));
}

#[test]
fn a_connection_has_an_address_or_a_reason() {
    let answer = |ok: bool, error: Option<&str>, url: Option<&str>| {
        fetch_rtm_url(RtmConnectResponse {
            ok,
            error: error.map(|s| s.to_string()),
            url: url.map(|s| s.to_string()),
        })
    };
    assert_eq!(answer(true, None, Some("wss://x")), Ok("wss://x".to_string()));
    assert_eq!(answer(true, Some("e"), None), Err("rtm.connect response had no url".to_string()));
    assert_eq!(answer(false, Some("e"), Some("u")), Err("rtm.connect failed: e".to_string()));
    assert_eq!(answer(false, None, None), Err("rtm.connect failed: ".to_string()));
}

#[test]
fn the_workspace_is_known_by_team_and_host() {
    assert_eq!(workspace_domain("https://team.slack.com/"), "team.slack.com");
    assert_eq!(workspace_domain("http://team.slack.com//"), "team.slack.com");
    assert_eq!(workspace_domain("https://https://http://x"), "x");
    assert_eq!(workspace_domain("http://https://x"), "https://x");
    assert_eq!(workspace_domain("x/y"), "x/y");
    assert!(workspace_meta_missing(None, Some("d")));
    assert!(workspace_meta_missing(Some("T"), None));
    assert!(!workspace_meta_missing(Some("T"), Some("d")));
    let (team, domain) = workspace_meta(&doc(r#"{"team_id": "T1", "url": "https://a.b/"}"#));
    assert_eq!(team.as_deref(), Some("T1"));
    assert_eq!(domain.as_deref(), Some("a.b"));
    let (team, domain) = workspace_meta(&doc(r#"{"team_id": 1}"#));
    assert_eq!(team, None);
    assert_eq!(domain, None);
}
