use myslackcli::cli::{
    backfill_window, choose_mode, default_env_path, duration_complaint, id_complaint, parse_args,
    parse_duration, Mode, Options, Parsed, USAGE,
};
use myslackcli::link::{app_url, meta_key, print_link, web_url};
use myslackcli::number::{parse_i64, parse_u64};
use myslackcli::store::MessageRef;
use myslackcli::thread::thread_ts_from_permalink;

fn parse(args: &[&str]) -> Parsed {
    parse_args(&args.iter().map(|a| a.to_string()).collect())
}

fn options(args: &[&str]) -> Options {
    match parse(args) {
        Parsed::Run(o) => o,
        _ => panic!("options"),
    }
}

fn missing(args: &[&str]) -> String {
    match parse(args) {
        Parsed::Missing(why) => why,
        _ => panic!("a missing value"),
    }
}

#[test]
fn options_are_off_unless_given() {
    let o = options(&[]);
    assert!(!o.verbose && !o.no_color && !o.local_no_sync);
    assert!(o.backfill.is_none() && o.sql_path.is_none() && o.env_path.is_none());
    assert!(o.link_for.is_none());
}

#[test]
fn options_are_read_in_both_spellings() {
    let o = options(&["-v", "--no-color", "-t", "1h", "--sql=slack.db", "--env", "e"]);
    assert!(o.verbose && o.no_color && !o.local_no_sync);
    assert_eq!(o.backfill.as_deref(), Some("1h"));
    assert_eq!(o.sql_path.as_deref(), Some("slack.db"));
    assert_eq!(o.env_path.as_deref(), Some("e"));

    let o = options(&["--verbose", "--time", "2d", "--sql", "x", "--env=f", "--local-no-sync"]);
    assert!(o.verbose && o.local_no_sync);
    assert_eq!(o.backfill.as_deref(), Some("2d"));
    assert_eq!(o.sql_path.as_deref(), Some("x"));
    assert_eq!(o.env_path.as_deref(), Some("f"));
}

#[test]
fn later_options_replace_earlier_ones() {
    assert_eq!(options(&["--sql=a", "--sql", "b"]).sql_path.as_deref(), Some("b"));
    assert_eq!(options(&["--sql="]).sql_path.as_deref(), Some(""));
    assert_eq!(options(&["--sql=--sql=a"]).sql_path.as_deref(), Some("--sql=a"));
    assert_eq!(options(&["--env=--env=a"]).env_path.as_deref(), Some("--env=a"));
    assert_eq!(options(&["--sql", "--verbose"]).sql_path.as_deref(), Some("--verbose"));
}

#[test]
fn link_flags_take_an_id() {
    assert_eq!(options(&["--to-app-url=7"]).link_for, Some(("7".to_string(), false)));
    assert_eq!(options(&["--to-web-url=7=8"]).link_for, Some(("7=8".to_string(), true)));
    assert_eq!(options(&["--to-app-url", "7"]).link_for, Some(("7".to_string(), false)));
    assert_eq!(options(&["--to-web-url", "7"]).link_for, Some(("7".to_string(), true)));
}

#[test]
fn missing_values_are_named() {
    assert_eq!(missing(&["-t"]), "missing value for -t (e.g. -t 1h)");
    assert_eq!(missing(&["--time"]), "missing value for -t (e.g. -t 1h)");
    assert_eq!(missing(&["--sql"]), "missing value for --sql (e.g. --sql=slack.db)");
    assert_eq!(missing(&["--env"]), "missing value for --env (e.g. --env=/path/.env)");
    assert_eq!(missing(&["-v", "--to-app-url"]), "missing message id for --to-app-url");
    assert_eq!(missing(&["--to-web-url"]), "missing message id for --to-web-url");
}

#[test]
fn help_and_unknown_arguments_stop_the_reading() {
    assert!(matches!(parse(&["-h", "--bogus"]), Parsed::Help));
    assert!(matches!(parse(&["--help"]), Parsed::Help));
    assert!(matches!(parse(&["--bogus", "-h"]), Parsed::Unknown(a) if a == "--bogus"));
    assert!(matches!(parse(&[""]), Parsed::Unknown(a) if a.is_empty()));
    assert!(matches!(parse(&["--sqlx=a"]), Parsed::Unknown(_)));
    assert!(USAGE.starts_with("usage: myslackcli [options]\n\n  -t, --time <duration>"));
    assert!(USAGE.ends_with("  -h, --help              show this message\n"));
}

fn refusal(args: &[&str]) -> String {
    match choose_mode(&options(args)) {
        Err(why) => why,
        Ok(_) => panic!("refused"),
    }
}

#[test]
fn the_mode_follows_from_the_options() {
    assert!(matches!(choose_mode(&options(&["-v", "--sql=x"])), Ok(Mode::Stream)));
    assert!(matches!(
        choose_mode(&options(&["--local-no-sync", "--sql=x"])),
        Ok(Mode::Replay { path }) if path == "x"
    ));
    assert!(matches!(
        choose_mode(&options(&["--local-no-sync", "--to-web-url=-4", "--sql=x"])),
        Ok(Mode::Link { path, id: -4, web: true }) if path == "x"
    ));
    assert_eq!(
        refusal(&["--to-app-url=x"]),
        "--to-app-url/--to-web-url look the message up in the database, so they need --sql=<file>"
    );
    assert_eq!(
        refusal(&["--local-no-sync"]),
        "--local-no-sync reads from the database, so it needs --sql=<file>"
    );
}

#[test]
fn ids_and_durations_are_quoted_in_complaints() {
    assert_eq!(
        refusal(&["--sql=x", "--to-app-url=a\"\n"]),
        "message id must be a number, got \"a\\\"\\n\""
    );
    assert_eq!(
        backfill_window("a\tb"),
        Err("invalid -t value: \"a\\tb\" (try e.g. 1h, 30m, 2d)".to_string())
    );
    assert_eq!(backfill_window("2h"), Ok(7200));
    assert_eq!(id_complaint("'x'"), "message id must be a number, got 'x'");
    assert_eq!(duration_complaint("'x'"), "invalid -t value: 'x' (try e.g. 1h, 30m, 2d)");
}

#[test]
fn durations_count_in_their_units() {
    assert_eq!(parse_duration("45s"), Some(45));
    assert_eq!(parse_duration("45"), Some(45));
    assert_eq!(parse_duration("30m"), Some(1800));
    assert_eq!(parse_duration("1h"), Some(3600));
    assert_eq!(parse_duration("3d"), Some(259200));
    assert_eq!(parse_duration("  +2d\n"), Some(172800));
    assert_eq!(parse_duration("0"), Some(0));
    assert_eq!(parse_duration("18446744073709551615"), Some(u64::MAX));
}

#[test]
fn other_durations_are_refused() {
    for bad in [
        "", "   ", "h", "1w", "1 h", "-1h", "1.5h", "1hh", "1ä", "18446744073709551616",
        "18446744073709551615m", "213503982334602d",
    ] {
        assert_eq!(parse_duration(bad), None, "{bad}");
    }
    assert_eq!(parse_duration("213503982334601d"), Some(18446744073709526400));
}

#[test]
fn numbers_are_read_with_their_sign_and_bounds() {
    assert_eq!(parse_i64("-9223372036854775808"), Some(i64::MIN));
    assert_eq!(parse_i64("-9223372036854775809"), None);
    assert_eq!(parse_i64("9223372036854775807"), Some(i64::MAX));
    assert_eq!(parse_i64("9223372036854775808"), None);
    assert_eq!(parse_i64("+07"), Some(7));
    for bad in ["", "+", "-", "--1", "1 ", "１"] {
        assert_eq!(parse_i64(bad), None, "{bad}");
        assert_eq!(parse_u64(bad), None, "{bad}");
    }
    assert_eq!(parse_u64("-0"), None);
}

#[test]
fn credentials_lie_in_the_config_directory() {
    let path = |config: Option<&str>, home: Option<&str>| {
        default_env_path(
            config.map(|s| s.as_bytes().to_vec()),
            home.map(|s| s.as_bytes().to_vec()),
        )
        .map(|bytes| String::from_utf8(bytes).unwrap())
    };
    assert_eq!(path(Some("/cfg"), None).as_deref(), Some("/cfg/myslackcli/.env"));
    assert_eq!(path(Some("/cfg/"), Some("/h")).as_deref(), Some("/cfg/myslackcli/.env"));
    assert_eq!(path(Some(""), Some("/h")).as_deref(), Some("/h/.config/myslackcli/.env"));
    assert_eq!(path(None, Some("/h")).as_deref(), Some("/h/.config/myslackcli/.env"));
    assert_eq!(path(None, Some("")).as_deref(), Some(".config/myslackcli/.env"));
    assert_eq!(path(None, None), None);
    assert_eq!(path(Some(""), None), None);
    // The same as std's own joining of paths.
    for home in ["/h", "/h/", "h//", ""] {
        let joined = std::path::PathBuf::from(home).join(".config").join("myslackcli").join(".env");
        assert_eq!(path(None, Some(home)).as_deref(), joined.to_str());
    }
}

fn message(thread_ts: Option<&str>) -> MessageRef {
    MessageRef {
        channel_id: "C1".to_string(),
        ts: "1690000000.000100".to_string(),
        thread_ts: thread_ts.map(|t| t.to_string()),
    }
}

#[test]
fn links_address_a_message_and_its_thread() {
    assert_eq!(app_url("T1", &message(None)), "slack://channel?team=T1&id=C1&message=1690000000.000100");
    assert_eq!(
        app_url("T1", &message(Some("1.5"))),
        "slack://channel?team=T1&id=C1&message=1690000000.000100&thread_ts=1.5"
    );
    assert_eq!(
        web_url("x.slack.com", &message(None)),
        "https://x.slack.com/archives/C1/p1690000000000100"
    );
    let reply = web_url("x.slack.com", &message(Some("1.5")));
    assert_eq!(reply, "https://x.slack.com/archives/C1/p1690000000000100?thread_ts=1.5&cid=C1");
    assert_eq!(thread_ts_from_permalink(&reply).as_deref(), Some("1.5"));
}

#[test]
fn a_link_needs_the_message_and_the_workspace() {
    assert_eq!(meta_key(true), "workspace_domain");
    assert_eq!(meta_key(false), "team_id");
    assert_eq!(
        print_link("x.db", -3, true, None, Some("d")),
        Err("no message with id -3 in x.db".to_string())
    );
    assert_eq!(
        print_link("x.db", 1, false, Some(message(None)), None),
        Err("team_id isn't recorded in x.db yet — run once with --sql (online) so it can be fetched".to_string())
    );
    assert_eq!(
        print_link("x.db", 1, true, Some(message(None)), None),
        Err("workspace_domain isn't recorded in x.db yet — run once with --sql (online) so it can be fetched".to_string())
    );
    assert_eq!(
        print_link("x.db", 1, true, Some(message(None)), Some("d")),
        Ok("https://d/archives/C1/p1690000000000100".to_string())
    );
    assert_eq!(
        print_link("x.db", 1, false, Some(message(None)), Some("T1")),
        Ok("slack://channel?team=T1&id=C1&message=1690000000.000100".to_string())
    );
}
