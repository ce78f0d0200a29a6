use myslackcli::api::{
    judge_reply, slack_get, Verdict, FALLBACK_RETRY_AFTER, MAX_RATE_LIMIT_WAITS, MAX_RETRY_AFTER,
};
use myslackcli::json::Json;

/// A reply as it comes over the wire.
struct Canned {
    limited: bool,
    retry_after: Option<&'static str>,
    body: &'static str,
}

fn rate_limited() -> Canned {
    Canned { limited: true, retry_after: Some("1"), body: "" }
}

fn ok_body() -> Canned {
    Canned { limited: false, retry_after: None, body: r#"{"ok":true,"value":42}"# }
}

/// Judges the replies in turn, as a request that is sent again after every wait; also
/// returns the waits, in seconds.
fn ask(replies: &[Canned]) -> (Result<Json, String>, Vec<u64>) {
    let mut waits = 0;
    let mut waited = Vec::new();
    for reply in replies {
        match slack_get(waits, reply.limited, reply.retry_after, reply.body.as_bytes()) {
            Verdict::Answer(doc) => return (Ok(doc), waited),
            Verdict::Refused(why) => return (Err(why), waited),
            Verdict::NotJson => return (Err("not JSON".to_string()), waited),
            Verdict::Wait { secs, waits: now } => {
                waited.push(secs);
                waits = now;
            }
        }
    }
    panic!("one more reply was wanted")
}

#[test]
fn a_rate_limit_is_waited_out_rather_than_returned_as_an_error() {
    let (resp, waited) = ask(&[rate_limited(), ok_body()]);
    let resp = resp.expect("should succeed on the retry");
    assert_eq!(resp.get("value").and_then(|v| v.as_i64()), Some(42));
    assert_eq!(waited, vec![1], "Retry-After: 1 should have been honoured");
}

#[test]
fn a_rate_limit_reported_in_the_body_is_treated_the_same() {
    let limited = Canned {
        limited: false,
        retry_after: Some("1"),
        body: r#"{"ok":false,"error":"ratelimited"}"#,
    };
    let (resp, waited) = ask(&[limited, ok_body()]);
    let resp = resp.expect("should succeed on the retry");
    assert_eq!(resp.get("value").and_then(|v| v.as_i64()), Some(42));
    assert_eq!(waited, vec![1]);
}

#[test]
fn the_retry_budget_is_bounded_so_a_persistent_limit_cannot_hang_the_run() {
    // One more refusal than the budget allows.
    let mut replies = Vec::new();
    for _ in 0..MAX_RATE_LIMIT_WAITS + 1 {
        replies.push(rate_limited());
    }
    let (resp, waited) = ask(&replies);
    let err = match resp {
        Ok(_) => panic!("should give up instead of looping forever"),
        Err(why) => why,
    };
    assert!(err.contains("ratelimited"), "got: {err}");
    assert_eq!(err, "Slack API error: ratelimited (gave up after 5 waits)");
    assert_eq!(waited, vec![1, 1, 1, 1, 1]);
}

#[test]
fn other_api_errors_fail_immediately() {
    let refused = Canned {
        limited: false,
        retry_after: None,
        body: r#"{"ok":false,"error":"invalid_auth"}"#,
    };
    let (resp, waited) = ask(&[refused]);
    let err = match resp {
        Ok(_) => panic!("invalid_auth is not retryable"),
        Err(why) => why,
    };
    assert!(err.contains("invalid_auth"), "got: {err}");
    assert_eq!(err, "Slack API error: invalid_auth");
    assert!(waited.is_empty());
}

#[test]
fn an_error_without_a_name_is_unknown() {
    for body in ["{}", r#"{"ok":"true"}"#, "[]"] {
        match slack_get(0, false, None, body.as_bytes()) {
            Verdict::Refused(why) => assert_eq!(why, "Slack API error: unknown_error"),
            _ => panic!("refused"),
        }
    }
}

#[test]
fn a_body_that_is_no_document_is_reported() {
    assert!(matches!(slack_get(0, false, None, b"<html>"), Verdict::NotJson));
    assert!(matches!(judge_reply(0, false, None, None), Verdict::NotJson));
    // With the status 429 the body is not looked at.
    assert!(matches!(judge_reply(0, true, None, None), Verdict::Wait { secs: 5, waits: 1 }));
    assert!(matches!(slack_get(4, true, Some("2"), b"<html>"), Verdict::Wait { secs: 2, waits: 5 }));
    assert!(matches!(slack_get(5, true, Some("2"), b""), Verdict::Refused(_)));
}

#[test]
fn waits_are_kept_within_bounds() {
    for (header, expected) in [
        (None, FALLBACK_RETRY_AFTER),
        (Some("soon"), FALLBACK_RETRY_AFTER),
        (Some(""), FALLBACK_RETRY_AFTER),
        (Some("-3"), FALLBACK_RETRY_AFTER),
        (Some("18446744073709551616"), FALLBACK_RETRY_AFTER),
        (Some("0"), 1),
        (Some("+7"), 7),
        (Some("60"), 60),
        (Some("61"), MAX_RETRY_AFTER),
        (Some("18446744073709551615"), MAX_RETRY_AFTER),
    ] {
        match slack_get(0, true, header, b"") {
            Verdict::Wait { secs, waits } => {
                assert_eq!(secs, expected);
                assert_eq!(waits, 1);
            }
            _ => panic!("a wait"),
        }
    }
}
