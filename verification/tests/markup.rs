use myslackcli::color::{c, color_enabled, RESET, YELLOW};
use myslackcli::emoji::emoji_for;
use myslackcli::markup::{decode_html_entities, extract_mentions, resolve_emoji, resolve_mentions};
use myslackcli::names::NameMap;
use myslackcli::thread::{thread_tag, thread_ts_from_permalink};

fn names(rows: &[(&str, &str)]) -> NameMap {
    let mut map = NameMap::new();
    for (id, name) in rows {
        map.insert(id.to_string(), name.to_string());
    }
    map
}

fn plain(text: &str) -> String {
    let channels = names(&[("C1", "#general"), ("D1", "DM: Ada")]);
    let users = names(&[("U1", "Ada Lovelace"), ("S1", "team-qa")]);
    resolve_mentions(text, &channels, &users, false)
}

#[test]
fn references_are_shown_by_name() {
    assert_eq!(plain("hi <@U1>!"), "hi @Ada Lovelace!");
    assert_eq!(plain("<@U1|ada> <@S1>"), "@Ada Lovelace @team-qa");
    assert_eq!(plain("<@U9>"), "@U9");
    assert_eq!(plain("see <#C1|foo>"), "see #general");
    assert_eq!(plain("see <#C9|foo>"), "see #foo");
    assert_eq!(plain("see <#C9|foo|bar>"), "see #foo|bar");
    assert_eq!(plain("see <#C9>"), "see #C9");
    assert_eq!(plain("see <#C9|>"), "see #C9");
    assert_eq!(plain("<!here> <!subteam^S1|@qa>"), "@here @subteam^S1|@qa");
}

#[test]
fn an_unresolved_channel_is_shown_by_its_label() {
    let nothing = NameMap::new();
    assert_eq!(resolve_mentions("<#C123|foo>", &nothing, &nothing, false), "#foo");
    assert_eq!(resolve_mentions("<#C123|foo>", &nothing, &nothing, true), "\x1b[33m#foo\x1b[0m");
    assert_eq!(resolve_mentions("<#C123>", &nothing, &nothing, false), "#C123");
    let channels = names(&[("C123", "#general")]);
    assert_eq!(resolve_mentions("<#C123|foo>", &channels, &nothing, false), "#general");
    // A channel that is named by its id alone has no name.
    let placeholder = names(&[("C123", "C123")]);
    assert_eq!(resolve_mentions("<#C123|foo>", &placeholder, &nothing, false), "#foo");
    assert_eq!(resolve_mentions("<#C123>", &placeholder, &nothing, false), "#C123");
}

#[test]
fn what_is_no_reference_is_left_untouched() {
    assert_eq!(plain("<https://x.org|label>"), "<https://x.org|label>");
    assert_eq!(plain("a < b > c"), "a < b > c");
    assert_eq!(plain("<>"), "<>");
    assert_eq!(plain("<@U1"), "<@U1");
    assert_eq!(plain("a > b <@U1 <#C1"), "a > b <@U1 <#C1");
    assert_eq!(plain("ä <@U1> ö"), "ä @Ada Lovelace ö");
    assert_eq!(plain("no markup: at all"), "no markup: at all");
}

#[test]
fn a_link_before_a_reference_does_not_hide_it() {
    assert_eq!(plain("<x <@U1>"), "<x @Ada Lovelace");
    assert_eq!(plain("<#C1<@U1>"), "#C1<@U1");
}

#[test]
fn references_are_yellow_where_output_is_coloured() {
    let users = names(&[("U1", "Ada")]);
    let shown = resolve_mentions("<@U1>", &NameMap::new(), &users, true);
    assert_eq!(shown, "\x1b[33m@Ada\x1b[0m");
    assert_eq!(c(true, YELLOW), YELLOW);
    assert_eq!(c(false, RESET), "");
    assert!(color_enabled(Some(true)));
    assert!(!color_enabled(Some(false)));
    assert!(!color_enabled(None));
}

#[test]
fn mentioned_users_are_listed_once_in_order() {
    assert_eq!(extract_mentions("<@U2> <@U1|x> <@U2>"), vec!["U2".to_string(), "U1".to_string()]);
    assert_eq!(extract_mentions("<#C1> <!here> <@>"), Vec::<String>::new());
    assert_eq!(extract_mentions("<@U1"), Vec::<String>::new());
    assert_eq!(extract_mentions("<x <@U1>>"), vec!["U1".to_string()]);
    assert_eq!(extract_mentions("<@U1 <@U2>"), vec!["U1 <@U2".to_string()]);
    assert_eq!(extract_mentions("ä<@Uö>"), vec!["Uö".to_string()]);
    assert_eq!(extract_mentions(""), Vec::<String>::new());
}

#[test]
fn entities_are_decoded_in_turn() {
    assert_eq!(decode_html_entities("a &lt;b&gt; &amp; c"), "a <b> & c");
    assert_eq!(decode_html_entities("&amp;lt;"), "&lt;");
    assert_eq!(decode_html_entities("&quot; &"), "&quot; &");
    assert_eq!(decode_html_entities("&&lt;;"), "&<;");
}

#[test]
fn decoding_undoes_escaping() {
    let text = "1 < 2 && x > &lt; ä";
    let escaped = text.replace('&', "&amp;").replace('<', "&lt;").replace('>', "&gt;");
    assert_eq!(decode_html_entities(&escaped), text);
}

#[test]
fn known_shortcodes_become_emoji() {
    assert_eq!(resolve_emoji("ship it :rocket::tada:"), "ship it 🚀🎉");
    assert_eq!(resolve_emoji(":+1: :-1:"), "👍 👎");
    assert_eq!(resolve_emoji(":flag-de:"), "🇩🇪");
    assert_eq!(resolve_emoji(":nope:rocket:"), ":nope🚀");
}

#[test]
fn unknown_shortcodes_are_left_as_they_are() {
    assert_eq!(resolve_emoji(":party-parrot:"), ":party-parrot:");
    assert_eq!(resolve_emoji("10:30: 11:45"), "10:30: 11:45");
    assert_eq!(resolve_emoji("::"), "::");
    assert_eq!(resolve_emoji("a : b"), "a : b");
    assert_eq!(resolve_emoji(":wave"), ":wave");
    assert_eq!(resolve_emoji(":wäve:"), ":wäve:");
}

#[test]
fn one_shortcode_between_plain_stretches_is_replaced_where_it_is_known() {
    for (name, shown) in [("tada", "🎉"), ("+1", "👍"), ("nope", ":nope:"), ("", "::"), ("ä", ":ä:")] {
        assert_eq!(resolve_emoji(&format!("ä :{name}: ö")), format!("ä {shown} ö"));
        assert_eq!(emoji_for(name).is_some(), !shown.starts_with(':'));
    }
}

#[test]
fn resolving_emoji_twice_is_resolving_once() {
    for text in [
        "", ":", "::", ":tada:", ":tada::tada:", ":a:tada:smile:", ":smi:rocket:le:", ":tada:tada:",
        "ä:+1:ö:-1:", ":nope:wave", ":x:x:x:x:",
    ] {
        let once = resolve_emoji(text);
        assert_eq!(resolve_emoji(&once), once, "{text}");
    }
}

#[test]
fn every_spelling_of_an_emoji_is_known() {
    for (name, shown) in [
        ("smile", "😄"),
        ("smiley", "😄"),
        ("hankey", "💩"),
        ("frowning_face", "☹️"),
        ("100", "💯"),
        ("heavy_check_mark", "✅"),
        ("email", "✉️"),
        ("envelope", "✉️"),
        ("us", "🇺🇸"),
        ("flag-us", "🇺🇸"),
        ("flag-de", "🇩🇪"),
    ] {
        assert_eq!(emoji_for(name), Some(shown));
    }
    assert_eq!(emoji_for(""), None);
    assert_eq!(emoji_for("Smile"), None);
}

#[test]
fn a_thread_has_one_short_tag() {
    assert_eq!(thread_tag("C123", "1690000000.000100"), "4r4l");
    assert_eq!(thread_tag("", ""), "ntfp");
    assert_eq!(thread_tag("Cä", "1"), "w50c");
    assert_eq!(thread_tag("C1", "1.5"), "eonp");
}

#[test]
fn a_permalink_tells_the_thread_of_a_reply() {
    let reply = "https://team.slack.com/archives/C123/p169?thread_ts=1690000000.000100&cid=C123";
    assert_eq!(thread_ts_from_permalink(reply).as_deref(), Some("1690000000.000100"));
    assert_eq!(thread_ts_from_permalink("https://x/p1?cid=C1&thread_ts=2").as_deref(), Some("2"));
    assert_eq!(thread_ts_from_permalink("https://x/p1"), None);
    assert_eq!(thread_ts_from_permalink("https://x/p1?cid=C1"), None);
    assert_eq!(thread_ts_from_permalink("https://x/p1?thread_ts="), None);
    // Only the first such parameter counts, and nothing behind a second question mark.
    assert_eq!(thread_ts_from_permalink("https://x?thread_ts=&thread_ts=2"), None);
    assert_eq!(thread_ts_from_permalink("https://x?a=1?thread_ts=2"), None);
}
