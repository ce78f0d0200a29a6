//! Talking to the Slack API: the addresses that are asked, what is made of the
//! answers, and how rate limits are waited out.
use vstd::prelude::*;
use vstd::string::*;
use vstd::utf8::*;

use crate::json::{parse_json_bytes, parsed_bytes, values, Json, JsonValue};
use crate::message::{says, says_something};
use crate::names::{name_or_id, NameMap};
use crate::number::{
    decimal, law_written_numbers_are_read_back, parse_u64, push_unsigned, read_u64,
};
use crate::store::{channel_views, ChannelRow, ChannelView};
use crate::text::{
    after, before, chars_of, law_first_division, law_starting_with, lemma_split, same_text,
    skip_prefixes, split, starts_with, str_opt, strip_prefixes, strip_trailing, text_of, text_opt,
};

verus! {

// ---------------------------------------------------------------------------
// Rate limits.
// ---------------------------------------------------------------------------

/// How often a single request is allowed to wait out a rate limit before giving up.
pub const MAX_RATE_LIMIT_WAITS: u32 = 5;

/// How many seconds are waited where a rate limit names no readable time.
pub const FALLBACK_RETRY_AFTER: u64 = 5;

/// The longest wait, in seconds: a longer one would look like a hang.
pub const MAX_RETRY_AFTER: u64 = 60;

/// What follows a reply to a request.
pub enum Verdict {
    /// The request succeeded with this document.
    Answer(Json),
    /// The request failed for this reason.
    Refused(String),
    /// The request failed: the body of the reply is no JSON document.
    NotJson,
    /// The request is to be sent again after `secs` seconds; it has then waited
    /// `waits` times.
    Wait { secs: u64, waits: u32 },
}

/// What a verdict says.
pub enum VerdictView {
    Answer(JsonValue),
    Refused(Seq<char>),
    NotJson,
    Wait { secs: u64, waits: u32 },
}

impl View for Verdict {
    type V = VerdictView;

    open spec fn view(&self) -> VerdictView {
        match self {
            Verdict::Answer(doc) => VerdictView::Answer(doc@),
            Verdict::Refused(why) => VerdictView::Refused(why@),
            Verdict::NotJson => VerdictView::NotJson,
            Verdict::Wait { secs, waits } => VerdictView::Wait { secs: *secs, waits: *waits },
        }
    }
}

/// The wait that a `Retry-After` header asks for, within bounds.
pub open spec fn wait_secs(retry_after: Option<Seq<char>>) -> u64 {
    let asked = match retry_after {
        Some(header) => match read_u64(header) {
            Some(secs) => secs,
            None => FALLBACK_RETRY_AFTER,
        },
        None => FALLBACK_RETRY_AFTER,
    };
    if asked < 1 {
        1
    } else if asked > MAX_RETRY_AFTER {
        MAX_RETRY_AFTER
    } else {
        asked
    }
}

/// What follows a rate limit, after `waits` waits: one more wait, or giving up.
pub open spec fn limited(waits: u32, retry_after: Option<Seq<char>>) -> VerdictView {
    if waits >= MAX_RATE_LIMIT_WAITS {
        VerdictView::Refused(
            "Slack API error: ratelimited (gave up after "@ + decimal(MAX_RATE_LIMIT_WAITS as int)
                + " waits)"@,
        )
    } else {
        VerdictView::Wait { secs: wait_secs(retry_after), waits: (waits + 1) as u32 }
    }
}

/// What follows a reply, after `waits` waits. `http_limited` tells a reply with the
/// status 429, whose body is not looked at; `body` is the document in the body.
pub open spec fn verdict(
    waits: u32,
    http_limited: bool,
    retry_after: Option<Seq<char>>,
    body: Option<JsonValue>,
) -> VerdictView {
    if http_limited {
        limited(waits, retry_after)
    } else {
        match body {
            None => VerdictView::NotJson,
            Some(doc) => {
                let error = doc.text_or("error"@, "unknown_error"@);
                if doc.is_true("ok"@) {
                    VerdictView::Answer(doc)
                } else if error == "ratelimited"@ {
                    limited(waits, retry_after)
                } else {
                    VerdictView::Refused("Slack API error: "@ + error)
                }
            },
        }
    }
}

/// One more wait, or giving up.
fn wait_or_give_up(waits: u32, retry_after: Option<&str>) -> (r: Verdict)
    ensures
        r@ == limited(waits, str_opt(retry_after)),
{
    if waits >= MAX_RATE_LIMIT_WAITS {
        let mut why: String = "Slack API error: ratelimited (gave up after ".to_owned();
        push_unsigned(&mut why, MAX_RATE_LIMIT_WAITS as u64);
        why.append(" waits)");
        return Verdict::Refused(why);
    }
    let asked: u64 = match retry_after {
        Some(header) => match parse_u64(header) {
            Some(secs) => secs,
            None => FALLBACK_RETRY_AFTER,
        },
        None => FALLBACK_RETRY_AFTER,
    };
    let secs: u64 = if asked < 1 {
        1
    } else if asked > MAX_RETRY_AFTER {
        MAX_RETRY_AFTER
    } else {
        asked
    };
    Verdict::Wait { secs, waits: waits + 1 }
}

/// Judges a reply whose body has been read. A rate limit is no real failure: the
/// request succeeds once the window rolls over, so it is waited out. Slack reports the
/// limit in the body on some paths rather than with the status 429, and both are
/// treated the same way.
pub fn judge_reply(
    waits: u32,
    http_limited: bool,
    retry_after: Option<&str>,
    body: Option<Json>,
) -> (r: Verdict)
    ensures
        r@ == verdict(
            waits,
            http_limited,
            str_opt(retry_after),
            match body {
                Some(doc) => Some(doc@),
                None => None,
            },
        ),
{
    if http_limited {
        return wait_or_give_up(waits, retry_after);
    }
    match body {
        None => Verdict::NotJson,
        Some(doc) => {
            if doc.flag_at("ok") {
                return Verdict::Answer(doc);
            }
            let error: &str = doc.text_at_or("error", "unknown_error");
            if same_text(error, "ratelimited") {
                return wait_or_give_up(waits, retry_after);
            }
            let mut why: String = "Slack API error: ".to_owned();
            why.append(error);
            Verdict::Refused(why)
        },
    }
}

/// Judges a reply from the bytes of its body.
pub fn slack_get(
    waits: u32,
    http_limited: bool,
    retry_after: Option<&str>,
    body: &[u8],
) -> (r: Verdict)
    ensures
        r@ == verdict(waits, http_limited, str_opt(retry_after), parsed_bytes(body@)),
{
    if http_limited {
        return wait_or_give_up(waits, retry_after);
    }
    judge_reply(waits, false, retry_after, parse_json_bytes(body))
}

/// A reply as `slack_get` sees it.
pub struct Reply {
    pub http_limited: bool,
    pub retry_after: Option<Seq<char>>,
    pub body: Option<JsonValue>,
}

/// The verdict that ends a request which gets `replies` one after the other; none where
/// it still waits when they run out.
pub open spec fn outcome(waits: u32, replies: Seq<Reply>) -> Option<VerdictView>
    decreases replies.len(),
{
    if replies.len() == 0 {
        None
    } else {
        let first = replies[0];
        match verdict(waits, first.http_limited, first.retry_after, first.body) {
            VerdictView::Wait { secs, waits } => outcome(waits, replies.drop_first()),
            end => Some(end),
        }
    }
}

/// Whether a reply reports a rate limit, with its status or in its body.
pub open spec fn reports_limit(reply: Reply) -> bool {
    reply.http_limited || (reply.body matches Some(doc) && !doc.is_true("ok"@) && doc.text_or(
        "error"@,
        "unknown_error"@,
    ) == "ratelimited"@)
}

/// The retry budget is bounded: a request is over after one reply more than it may
/// wait, whatever the replies are.
pub proof fn law_retries_are_bounded(waits: u32, replies: Seq<Reply>)
    requires
        waits <= MAX_RATE_LIMIT_WAITS,
        replies.len() > MAX_RATE_LIMIT_WAITS - waits,
    ensures
        outcome(waits, replies) is Some,
    decreases replies.len(),
{
    let first = replies[0];
    match verdict(waits, first.http_limited, first.retry_after, first.body) {
        VerdictView::Wait { secs, waits: next } => {
            law_retries_are_bounded(next, replies.drop_first());
        },
        _ => {},
    }
}

/// A rate limit is waited out rather than returned as an error: up to as many limited
/// replies as the budget allows, and then a good one, end in the answer.
pub proof fn law_limits_are_waited_out(waits: u32, replies: Seq<Reply>, doc: JsonValue)
    requires
        waits <= MAX_RATE_LIMIT_WAITS,
        0 < replies.len() <= MAX_RATE_LIMIT_WAITS - waits + 1,
        forall|i: int| 0 <= i < replies.len() - 1 ==> reports_limit(#[trigger] replies[i]),
        !replies.last().http_limited,
        replies.last().body == Some(doc),
        doc.is_true("ok"@),
    ensures
        outcome(waits, replies) == Some(VerdictView::Answer(doc)),
    decreases replies.len(),
{
    if replies.len() > 1 {
        let rest = replies.drop_first();
        assert(reports_limit(replies[0]));
        assert(rest.last() == replies.last());
        assert forall|i: int| 0 <= i < rest.len() - 1 implies reports_limit(#[trigger] rest[i]) by {
            assert(rest[i] == replies[i + 1]);
        }
        law_limits_are_waited_out((waits + 1) as u32, rest, doc);
    } else {
        assert(replies[0] == replies.last());
    }
}

/// A limit that does not clear ends in an error that says so.
pub proof fn law_persistent_limit_is_refused(waits: u32, replies: Seq<Reply>)
    requires
        waits <= MAX_RATE_LIMIT_WAITS,
        replies.len() > MAX_RATE_LIMIT_WAITS - waits,
        forall|i: int| 0 <= i < replies.len() ==> reports_limit(#[trigger] replies[i]),
    ensures
        outcome(waits, replies) == Some(limited(MAX_RATE_LIMIT_WAITS, None)),
    decreases replies.len(),
{
    assert(reports_limit(replies[0]));
    if waits < MAX_RATE_LIMIT_WAITS {
        let rest = replies.drop_first();
        assert forall|i: int| 0 <= i < rest.len() implies reports_limit(#[trigger] rest[i]) by {
            assert(rest[i] == replies[i + 1]);
        }
        law_persistent_limit_is_refused((waits + 1) as u32, rest);
    }
}

/// A limit in the body is treated like one in the status.
pub proof fn law_limit_in_body_is_a_limit(
    waits: u32,
    retry_after: Option<Seq<char>>,
    body: Option<JsonValue>,
)
    requires
        reports_limit(Reply { http_limited: false, retry_after, body }),
    ensures
        verdict(waits, false, retry_after, body) == verdict(waits, true, retry_after, None),
{
}

/// Only a rate limit is waited for, and never less than a second or more than a minute.
pub proof fn law_only_limits_wait(waits: u32, reply: Reply)
    ensures
        verdict(waits, reply.http_limited, reply.retry_after, reply.body) matches VerdictView::Wait {
            secs,
            waits: next,
        } ==> reports_limit(reply) && 1 <= secs <= 60 && next == waits + 1 && next
            <= MAX_RATE_LIMIT_WAITS,
{
}

/// A stated wait between a second and a minute is honoured to the second.
pub proof fn law_stated_wait_is_honoured(waits: u32, secs: u64, body: Option<JsonValue>)
    requires
        waits < MAX_RATE_LIMIT_WAITS,
        1 <= secs <= MAX_RETRY_AFTER,
    ensures
        verdict(waits, true, Some(decimal(secs as int)), body) == (VerdictView::Wait {
            secs,
            waits: (waits + 1) as u32,
        }),
{
    law_written_numbers_are_read_back(secs as int);
}

// ---------------------------------------------------------------------------
// Addresses.
// ---------------------------------------------------------------------------

/// The bytes that stand for themselves in a query.
pub open spec fn is_unreserved(b: u8) -> bool {
    ||| 0x30 <= b <= 0x39
    ||| 0x41 <= b <= 0x5a
    ||| 0x61 <= b <= 0x7a
    ||| b == 0x2d
    ||| b == 0x2e
    ||| b == 0x5f
    ||| b == 0x7e
}

/// The upper-case hexadecimal digit for `d`.
pub open spec fn hex_digit(d: int) -> char {
    if d < 10 {
        (48 + d) as char
    } else {
        (55 + d) as char
    }
}

/// `bytes` with every byte that does not stand for itself written as `%` and two
/// hexadecimal digits.
pub open spec fn percent_encoded(bytes: Seq<u8>) -> Seq<char>
    decreases bytes.len(),
{
    if bytes.len() == 0 {
        Seq::empty()
    } else {
        let b = bytes.last();
        percent_encoded(bytes.drop_last()) + if is_unreserved(b) {
            seq![b as char]
        } else {
            seq!['%', hex_digit(b as int / 16), hex_digit(b as int % 16)]
        }
    }
}

/// Calls `urlencoding::encode`. Claims that it percent-encodes every byte of the UTF-8
/// text except letters, digits, `-`, `.`, `_` and `~`.
#[verifier::external_body]
pub(crate) fn url_encode(text: &str) -> (r: String)
    ensures
        r@ == percent_encoded(encode_utf8(text@)),
{
    urlencoding::encode(text).into_owned()
}

/// `base`, and behind it the cursor of the page to fetch where there is one.
pub open spec fn page_address(base: Seq<char>, cursor: Option<Seq<char>>) -> Seq<char> {
    match cursor {
        Some(c) => base + "&cursor="@ + percent_encoded(encode_utf8(c)),
        None => base,
    }
}

/// The address of a page of a list.
fn page_url(base: &str, cursor: Option<&str>) -> (r: String)
    ensures
        r@ == page_address(base@, str_opt(cursor)),
{
    let mut url: String = base.to_owned();
    if let Some(c) = cursor {
        url.append("&cursor=");
        let encoded: String = url_encode(c);
        url.append(encoded.as_str());
    }
    url
}

/// The address of a page of the listing of users.
pub open spec fn users_address(cursor: Option<Seq<char>>) -> Seq<char> {
    page_address("https://slack.com/api/users.list?limit=200"@, cursor)
}

/// The address of a page of the listing of channels.
pub open spec fn channels_address(cursor: Option<Seq<char>>) -> Seq<char> {
    page_address(
        "https://slack.com/api/conversations.list?types=public_channel,private_channel,im&exclude_archived=true&limit=200"@,
        cursor,
    )
}

/// The address of a page of the user list.
pub fn users_url(cursor: Option<&str>) -> (r: String)
    ensures
        r@ == page_address("https://slack.com/api/users.list?limit=200"@, str_opt(cursor)),
        r@ == users_address(str_opt(cursor)),
{
    page_url("https://slack.com/api/users.list?limit=200", cursor)
}

/// The address of a page of the channel list.
pub fn channels_url(cursor: Option<&str>) -> (r: String)
    ensures
        r@ == page_address(
            "https://slack.com/api/conversations.list?types=public_channel,private_channel,im&exclude_archived=true&limit=200"@,
            str_opt(cursor),
        ),
        r@ == channels_address(str_opt(cursor)),
{
    page_url(
        "https://slack.com/api/conversations.list?types=public_channel,private_channel,im&exclude_archived=true&limit=200",
        cursor,
    )
}

// ---------------------------------------------------------------------------
// Lists.
// ---------------------------------------------------------------------------

/// The cursor of the page that follows `resp`, where it names a non-empty one.
pub open spec fn cursor_of(resp: JsonValue) -> Option<Seq<char>> {
    match resp.field("response_metadata"@) {
        Some(meta) => match meta.text_field("next_cursor"@) {
            Some(cursor) => if cursor.len() > 0 {
                Some(cursor)
            } else {
                None
            },
            None => None,
        },
        None => None,
    }
}

/// The cursor of the next page.
pub fn next_cursor(resp: &Json) -> (r: Option<String>)
    ensures
        text_opt(r) == cursor_of(resp@),
{
    match resp.get("response_metadata") {
        Some(meta) => match meta.text_at("next_cursor") {
            Some(cursor) => if cursor.is_empty() {
                None
            } else {
                Some(cursor.to_owned())
            },
            None => None,
        },
        None => None,
    }
}

/// The ids and names of a list of pairs.
pub open spec fn pairs(rows: Seq<(String, String)>) -> Seq<(Seq<char>, Seq<char>)> {
    rows.map_values(|row: (String, String)| (row.0@, row.1@))
}

/// What is recorded of a user: the id, and the real name, the account name or the id,
/// the first of them that there is. A user without an id is not recorded.
pub open spec fn user_row(member: JsonValue) -> Option<(Seq<char>, Seq<char>)> {
    let id = member.text_or("id"@, Seq::empty());
    let real_name = member.text_or("real_name"@, Seq::empty());
    if id.len() == 0 {
        None
    } else if real_name.len() > 0 {
        Some((id, real_name))
    } else {
        Some((id, member.text_or("name"@, id)))
    }
}

/// What is recorded of the members of a list, in order.
pub open spec fn user_rows(members: Seq<JsonValue>) -> Seq<(Seq<char>, Seq<char>)>
    decreases members.len(),
{
    if members.len() == 0 {
        Seq::empty()
    } else {
        match user_row(members.last()) {
            Some(row) => user_rows(members.drop_last()).push(row),
            None => user_rows(members.drop_last()),
        }
    }
}

/// The cursor to go on with behind a page: none where the list `key` of the page is
/// empty.
pub open spec fn going_on(resp: JsonValue, key: Seq<char>) -> Option<Seq<char>> {
    if resp.items_or_empty(key).len() == 0 {
        None
    } else {
        cursor_of(resp)
    }
}

/// The string in the field `key` of `v`, where it is one and not empty.
fn filled<'a>(v: &'a Json, key: &str) -> (r: Option<&'a str>)
    ensures
        str_opt(r) == (if v@.text_or(key@, Seq::empty()).len() > 0 {
            Some(v@.text_or(key@, Seq::empty()))
        } else {
            None
        }),
{
    match v.text_at(key) {
        Some(s) => if s.is_empty() {
            None
        } else {
            Some(s)
        },
        None => None,
    }
}

/// Adds the users of a page to `rows`. Returns the cursor of the page to fetch next,
/// or none where the list is complete.
pub fn fetch_users(resp: &Json, rows: &mut Vec<(String, String)>) -> (r: Option<String>)
    ensures
        pairs(final(rows)@) == pairs(old(rows)@) + user_rows(resp@.items_or_empty("members"@)),
        text_opt(r) == going_on(resp@, "members"@),
{
    let ghost before = pairs(rows@);
    let members: &Vec<Json> = match resp.items_at("members") {
        Some(members) => members,
        None => {
            assert(before + user_rows(Seq::empty()) =~= before);
            return None;
        },
    };
    let ghost all = values(members@);
    let mut i: usize = 0;
    assert(before + user_rows(all.take(0)) =~= before);
    while i < members.len()
        invariant
            i <= members@.len(),
            all == values(members@),
            pairs(rows@) == before + user_rows(all.take(i as int)),
        decreases members@.len() - i,
    {
        let m: &Json = &members[i];
        let ghost done = user_rows(all.take(i as int));
        assert(all.take(i + 1).drop_last() =~= all.take(i as int));
        assert(all.take(i + 1).last() == m@);
        if let Some(id) = filled(m, "id") {
            let display: &str = match filled(m, "real_name") {
                Some(name) => name,
                None => m.text_at_or("name", id),
            };
            let ghost kept = pairs(rows@);
            rows.push((id.to_owned(), display.to_owned()));
            assert(pairs(rows@) =~= kept.push((id@, display@)));
            assert(kept.push((id@, display@)) =~= before + done.push((id@, display@)));
        }
        i += 1;
    }
    assert(all.take(i as int) =~= all);
    if members.len() == 0 {
        None
    } else {
        next_cursor(resp)
    }
}

/// What is recorded of a user group: the id, and the handle that Slack displays, or
/// the name where the handle is empty. A group without an id, or without either, is not
/// recorded.
pub open spec fn group_row(group: JsonValue) -> Option<(Seq<char>, Seq<char>)> {
    let id = group.text_or("id"@, Seq::empty());
    let handle = group.text_or("handle"@, Seq::empty());
    if id.len() == 0 {
        None
    } else if handle.len() > 0 {
        Some((id, handle))
    } else {
        match group.text_field("name"@) {
            Some(name) => Some((id, name)),
            None => None,
        }
    }
}

/// What is recorded of the groups of a list, in order.
pub open spec fn group_rows(groups: Seq<JsonValue>) -> Seq<(Seq<char>, Seq<char>)>
    decreases groups.len(),
{
    if groups.len() == 0 {
        Seq::empty()
    } else {
        match group_row(groups.last()) {
            Some(row) => group_rows(groups.drop_last()).push(row),
            None => group_rows(groups.drop_last()),
        }
    }
}

/// The user groups of a response. Groups are mentioned exactly like people, so they come
/// in the same shape.
pub fn fetch_user_groups(resp: &Json) -> (r: Vec<(String, String)>)
    ensures
        pairs(r@) == group_rows(resp@.items_or_empty("usergroups"@)),
{
    let mut rows: Vec<(String, String)> = Vec::new();
    assert(pairs(rows@) =~= Seq::empty());
    let groups: &Vec<Json> = match resp.items_at("usergroups") {
        Some(groups) => groups,
        None => {
            return rows;
        },
    };
    let ghost all = values(groups@);
    let mut i: usize = 0;
    assert(group_rows(all.take(0)) =~= Seq::empty());
    while i < groups.len()
        invariant
            i <= groups@.len(),
            all == values(groups@),
            pairs(rows@) == group_rows(all.take(i as int)),
        decreases groups@.len() - i,
    {
        let g: &Json = &groups[i];
        assert(all.take(i + 1).drop_last() =~= all.take(i as int));
        assert(all.take(i + 1).last() == g@);
        if let Some(id) = filled(g, "id") {
            let handle: Option<&str> = match filled(g, "handle") {
                Some(handle) => Some(handle),
                None => g.text_at("name"),
            };
            if let Some(handle) = handle {
                let ghost kept = pairs(rows@);
                rows.push((id.to_owned(), handle.to_owned()));
                assert(pairs(rows@) =~= kept.push((id@, handle@)));
            }
        }
        i += 1;
    }
    assert(all.take(i as int) =~= all);
    rows
}

/// `names` with the rows added, later ones in place of earlier ones.
pub open spec fn with_names(
    names: Map<Seq<char>, Seq<char>>,
    rows: Seq<(Seq<char>, Seq<char>)>,
) -> Map<Seq<char>, Seq<char>>
    decreases rows.len(),
{
    if rows.len() == 0 {
        names
    } else {
        with_names(names, rows.drop_last()).insert(rows.last().0, rows.last().1)
    }
}

/// The names of the rows.
pub fn name_map(rows: &Vec<(String, String)>) -> (r: NameMap)
    ensures
        r@ == with_names(Map::empty(), pairs(rows@)),
{
    let mut names: NameMap = NameMap::new();
    let ghost all = pairs(rows@);
    let mut i: usize = 0;
    while i < rows.len()
        invariant
            i <= rows@.len(),
            all == pairs(rows@),
            names@ == with_names(Map::empty(), all.take(i as int)),
        decreases rows@.len() - i,
    {
        assert(all.take(i + 1).drop_last() =~= all.take(i as int));
        names.insert(rows[i].0.clone(), rows[i].1.clone());
        i += 1;
    }
    assert(all.take(i as int) =~= all);
    names
}

/// What is recorded of a conversation: a channel by its name behind a `#`, a direct
/// message by the name of the other user, anything else by its id. One without an id is
/// not recorded.
pub open spec fn channel_row(
    item: JsonValue,
    users: Map<Seq<char>, Seq<char>>,
) -> Option<ChannelView> {
    let id = item.text_or("id"@, Seq::empty());
    let name = item.text_or("name"@, Seq::empty());
    if id.len() == 0 {
        None
    } else if name.len() > 0 {
        Some(ChannelView { id, name: "#"@ + name, kind: "channel"@ })
    } else {
        match item.text_field("user"@) {
            Some(user) => Some(
                ChannelView { id, name: "DM: "@ + name_or_id(users, user), kind: "dm"@ },
            ),
            None => Some(ChannelView { id, name: id, kind: "unknown"@ }),
        }
    }
}

/// What is recorded of the conversations of a list, in order.
pub open spec fn channel_rows(
    items: Seq<JsonValue>,
    users: Map<Seq<char>, Seq<char>>,
) -> Seq<ChannelView>
    decreases items.len(),
{
    if items.len() == 0 {
        Seq::empty()
    } else {
        match channel_row(items.last(), users) {
            Some(row) => channel_rows(items.drop_last(), users).push(row),
            None => channel_rows(items.drop_last(), users),
        }
    }
}

/// Adds the conversations of a page to `rows`. Returns the cursor of the page to fetch
/// next, or none where the list is complete.
pub fn fetch_channels(resp: &Json, users: &NameMap, rows: &mut Vec<ChannelRow>) -> (r: Option<
    String,
>)
    ensures
        channel_views(final(rows)@) == channel_views(old(rows)@) + channel_rows(
            resp@.items_or_empty("channels"@),
            users@,
        ),
        text_opt(r) == going_on(resp@, "channels"@),
{
    let ghost before = channel_views(rows@);
    let items: &Vec<Json> = match resp.items_at("channels") {
        Some(items) => items,
        None => {
            assert(before + channel_rows(Seq::empty(), users@) =~= before);
            return None;
        },
    };
    let ghost all = values(items@);
    let mut i: usize = 0;
    assert(before + channel_rows(all.take(0), users@) =~= before);
    while i < items.len()
        invariant
            i <= items@.len(),
            all == values(items@),
            channel_views(rows@) == before + channel_rows(all.take(i as int), users@),
        decreases items@.len() - i,
    {
        let item: &Json = &items[i];
        let ghost done = channel_rows(all.take(i as int), users@);
        assert(all.take(i + 1).drop_last() =~= all.take(i as int));
        assert(all.take(i + 1).last() == item@);
        if let Some(id) = filled(item, "id") {
            let row: ChannelRow = if let Some(name) = filled(item, "name") {
                let mut display: String = "#".to_owned();
                display.append(name);
                ChannelRow { id: id.to_owned(), name: display, kind: "channel" }
            } else if let Some(user) = item.text_at("user") {
                let mut display: String = "DM: ".to_owned();
                display.append(users.name_or_id(user));
                ChannelRow { id: id.to_owned(), name: display, kind: "dm" }
            } else {
                ChannelRow { id: id.to_owned(), name: id.to_owned(), kind: "unknown" }
            };
            assert(Some(row@) == channel_row(item@, users@));
            let ghost kept = channel_views(rows@);
            let ghost new = row@;
            rows.push(row);
            assert(channel_views(rows@) =~= kept.push(new));
            assert(kept.push(new) =~= before + done.push(new));
        }
        i += 1;
    }
    assert(all.take(i as int) =~= all);
    if items.len() == 0 {
        None
    } else {
        next_cursor(resp)
    }
}

/// The ids and names of the channels.
pub open spec fn channel_pairs(rows: Seq<ChannelView>) -> Seq<(Seq<char>, Seq<char>)> {
    rows.map_values(|row: ChannelView| (row.id, row.name))
}

/// The names of the channels.
pub fn channel_names(rows: &Vec<ChannelRow>) -> (r: NameMap)
    ensures
        r@ == with_names(Map::empty(), channel_pairs(channel_views(rows@))),
{
    let mut names: NameMap = NameMap::new();
    let ghost all = channel_pairs(channel_views(rows@));
    let mut i: usize = 0;
    while i < rows.len()
        invariant
            i <= rows@.len(),
            all == channel_pairs(channel_views(rows@)),
            names@ == with_names(Map::empty(), all.take(i as int)),
        decreases rows@.len() - i,
    {
        assert(all.take(i + 1).drop_last() =~= all.take(i as int));
        names.insert(rows[i].id.clone(), rows[i].name.clone());
        i += 1;
    }
    assert(all.take(i as int) =~= all);
    names
}

// ---------------------------------------------------------------------------
// Connecting and workspace details.
// ---------------------------------------------------------------------------

/// The answer to a request for a live connection.
pub struct RtmConnectResponse {
    pub ok: bool,
    pub error: Option<String>,
    pub url: Option<String>,
}

/// The address of the live connection, or why there is none.
pub open spec fn connection(resp: RtmConnectResponse) -> Result<Seq<char>, Seq<char>> {
    if !resp.ok {
        Err(
            "rtm.connect failed: "@ + match text_opt(resp.error) {
                Some(error) => error,
                None => Seq::empty(),
            },
        )
    } else {
        match text_opt(resp.url) {
            Some(url) => Ok(url),
            None => Err("rtm.connect response had no url"@),
        }
    }
}

/// The address of the live connection.
pub fn fetch_rtm_url(resp: RtmConnectResponse) -> (r: Result<String, String>)
    ensures
        connection(resp) == (match r {
            Ok(url) => Ok::<Seq<char>, Seq<char>>(url@),
            Err(why) => Err(why@),
        }),
{
    if !resp.ok {
        let mut why: String = "rtm.connect failed: ".to_owned();
        if let Some(error) = &resp.error {
            why.append(error.as_str());
        }
        assert(why@ =~= connection(resp)->Err_0);
        return Err(why);
    }
    match resp.url {
        Some(url) => Ok(url),
        None => Err("rtm.connect response had no url".to_owned()),
    }
}

/// The host in the address of a workspace: without the scheme and the slashes behind.
pub open spec fn host_of(url: Seq<char>) -> Seq<char> {
    strip_trailing(strip_prefixes(strip_prefixes(url, "https://"@), "http://"@), '/')
}

/// The host in the address of a workspace.
pub fn workspace_domain(url: &str) -> (r: String)
    ensures
        r@ == host_of(url@),
{
    proof {
        reveal_strlit("https://");
        reveal_strlit("http://");
    }
    let chars: Vec<char> = chars_of(url);
    assert(chars@.skip(0) =~= chars@);
    let secure: usize = skip_prefixes(&chars, 0, "https://");
    let from: usize = skip_prefixes(&chars, secure, "http://");
    let mut to: usize = chars.len();
    assert(chars@.subrange(from as int, to as int) =~= chars@.skip(from as int));
    while from < to && chars[to - 1] == '/'
        invariant
            from <= to <= chars@.len(),
            strip_trailing(chars@.subrange(from as int, to as int), '/') == host_of(url@),
        decreases to - from,
    {
        assert(chars@.subrange(from as int, to as int).drop_last() =~= chars@.subrange(
            from as int,
            to - 1,
        ));
        to -= 1;
    }
    text_of(&chars, from, to)
}

/// The team id and the host that the answer to `auth.test` tells.
pub open spec fn facts_in(resp: JsonValue) -> (Option<Seq<char>>, Option<Seq<char>>) {
    (
        resp.text_field("team_id"@),
        match resp.text_field("url"@) {
            Some(url) => Some(host_of(url)),
            None => None,
        },
    )
}

/// Whether the workspace details still have to be fetched: they never change, so once
/// both are recorded no request is made.
pub fn workspace_meta_missing(team_id: Option<&str>, domain: Option<&str>) -> (r: bool)
    ensures
        r == (team_id is None || domain is None),
{
    team_id.is_none() || domain.is_none()
}

/// The workspace details to record from the answer to `auth.test`: the team id and the
/// host of the workspace.
pub fn workspace_meta(resp: &Json) -> (r: (Option<String>, Option<String>))
    ensures
        (text_opt(r.0), text_opt(r.1)) == facts_in(resp@),
{
    let team_id: Option<String> = match resp.text_at("team_id") {
        Some(id) => Some(id.to_owned()),
        None => None,
    };
    let domain: Option<String> = match resp.text_at("url") {
        Some(url) => Some(workspace_domain(url)),
        None => None,
    };
    (team_id, domain)
}

/// A reply with `ok` set is the answer; one without is refused for the reason that it gives,
/// or for none that is known. What is no document is no answer.
pub proof fn law_replies_are_judged(
    waits: u32,
    retry_after: Option<Seq<char>>,
    doc: JsonValue,
    error: Seq<char>,
)
    ensures
        verdict(waits, false, retry_after, None) == VerdictView::NotJson,
        doc.field("ok"@) == Some(JsonValue::Bool(true)) ==> verdict(
            waits,
            false,
            retry_after,
            Some(doc),
        ) == VerdictView::Answer(doc),
        doc.field("ok"@) != Some(JsonValue::Bool(true)) && says(doc, "error"@, error) && error
            != "ratelimited"@ ==> verdict(waits, false, retry_after, Some(doc))
            == VerdictView::Refused("Slack API error: "@ + error),
        doc.field("ok"@) != Some(JsonValue::Bool(true)) && !says_something(doc, "error"@)
            ==> verdict(waits, false, retry_after, Some(doc)) == VerdictView::Refused(
            "Slack API error: unknown_error"@,
        ),
        doc.field("ok"@) != Some(JsonValue::Bool(true)) && says(doc, "error"@, "ratelimited"@)
            ==> verdict(waits, false, retry_after, Some(doc)) == verdict(
            waits,
            true,
            retry_after,
            None,
        ),
{
    reveal_strlit("ratelimited");
    reveal_strlit("unknown_error");
    reveal_strlit("Slack API error: ");
    reveal_strlit("Slack API error: unknown_error");
    assert("ratelimited"@.len() != "unknown_error"@.len());
    assert("Slack API error: "@ + "unknown_error"@ =~= "Slack API error: unknown_error"@);
}

/// The first five limits are waited for, each counted; the sixth is refused.
pub proof fn law_five_waits(
    waits: u32,
    retry_after: Option<Seq<char>>,
    body: Option<JsonValue>,
)
    ensures
        waits < 5 ==> verdict(waits, true, retry_after, body) == (VerdictView::Wait {
            secs: wait_secs(retry_after),
            waits: (waits + 1) as u32,
        }),
        waits >= 5 ==> verdict(waits, true, retry_after, body) == VerdictView::Refused(
            "Slack API error: ratelimited (gave up after 5 waits)"@,
        ),
{
    reveal_strlit("Slack API error: ratelimited (gave up after ");
    reveal_strlit(" waits)");
    reveal_strlit("Slack API error: ratelimited (gave up after 5 waits)");
    assert(decimal(5) =~= seq!['5']);
    assert("Slack API error: ratelimited (gave up after "@ + seq!['5'] + " waits)"@
        =~= "Slack API error: ratelimited (gave up after 5 waits)"@);
}

/// A wait is as long as the reply asks for, but no shorter than a second and no longer than
/// a minute. A reply that asks for nothing readable is waited for five seconds.
pub proof fn law_waits_are_as_asked(header: Seq<char>, secs: u64)
    ensures
        wait_secs(None) == 5,
        read_u64(header) is None ==> wait_secs(Some(header)) == 5,
        read_u64(header) == Some(secs) && 1 <= secs <= 60 ==> wait_secs(Some(header)) == secs,
        read_u64(header) == Some(secs) && secs > 60 ==> wait_secs(Some(header)) == 60,
        read_u64(header) == Some(0u64) ==> wait_secs(Some(header)) == 1,
{
}

/// Bytes are encoded one by one: digits, letters and `-`, `.`, `_`, `~` stand for
/// themselves, every other byte for a percent sign and its two digits to the base sixteen.
pub proof fn law_bytes_are_encoded_one_by_one(bytes: Seq<u8>, b: u8)
    ensures
        percent_encoded(Seq::empty()).len() == 0,
        (0x30 <= b <= 0x39 || 0x41 <= b <= 0x5a || 0x61 <= b <= 0x7a || b == 0x2d || b == 0x2e || b
            == 0x5f || b == 0x7e) ==> percent_encoded(bytes.push(b)) == percent_encoded(bytes).push(
            b as char,
        ),
        !(0x30 <= b <= 0x39 || 0x41 <= b <= 0x5a || 0x61 <= b <= 0x7a || b == 0x2d || b == 0x2e || b
            == 0x5f || b == 0x7e) ==> percent_encoded(bytes.push(b)) == percent_encoded(bytes)
            + seq!['%', "0123456789ABCDEF"@[b as int / 16], "0123456789ABCDEF"@[b as int % 16]],
{
    assert(bytes.push(b).drop_last() =~= bytes);
    lemma_hex_digit(b as int / 16);
    lemma_hex_digit(b as int % 16);
}

proof fn lemma_hex_digit(d: int)
    requires
        0 <= d < 16,
    ensures
        hex_digit(d) == "0123456789ABCDEF"@[d],
{
    reveal_strlit("0123456789ABCDEF");
    assert(d == 0 || d == 1 || d == 2 || d == 3 || d == 4 || d == 5 || d == 6 || d == 7 || d == 8
        || d == 9 || d == 10 || d == 11 || d == 12 || d == 13 || d == 14 || d == 15);
}

/// The first page is asked for by the plain address, every other by its cursor.
pub proof fn law_pages_are_asked_for_by_cursor(base: Seq<char>, cursor: Seq<char>)
    ensures
        page_address(base, None) == base,
        page_address(base, Some(cursor)) == base + "&cursor="@ + percent_encoded(
            encode_utf8(cursor),
        ),
{
}

/// A reply goes on where its metadata hold a cursor that is not empty and its list under
/// `key` holds something.
pub proof fn law_replies_go_on_with_a_cursor(
    resp: JsonValue,
    key: Seq<char>,
    items: Seq<JsonValue>,
    meta: JsonValue,
    cursor: Seq<char>,
)
    ensures
        resp.field("response_metadata"@) == Some(meta) && says(meta, "next_cursor"@, cursor)
            && cursor.len() > 0 ==> cursor_of(resp) == Some(cursor),
        resp.field("response_metadata"@) == Some(meta) && says(
            meta,
            "next_cursor"@,
            Seq::empty(),
        ) ==> cursor_of(resp) is None,
        resp.field("response_metadata"@) == Some(meta) && !says_something(meta, "next_cursor"@)
            ==> cursor_of(resp) is None,
        resp.field("response_metadata"@) is None ==> cursor_of(resp) is None,
        resp.field(key) == Some(JsonValue::Array(items)) && items.len() > 0 ==> going_on(resp, key)
            == cursor_of(resp),
        resp.field(key) == Some(JsonValue::Array(items)) && items.len() == 0 ==> going_on(
            resp,
            key,
        ) is None,
        !(resp.field(key) matches Some(JsonValue::Array(l))) ==> going_on(resp, key) is None,
{
}

/// A user is listed by the id under the real name, under the short name where that is
/// empty or missing, and under the id where both are missing. A user without an id is not
/// listed.
pub proof fn law_users_are_listed(
    members: Seq<JsonValue>,
    member: JsonValue,
    id: Seq<char>,
    real_name: Seq<char>,
    name: Seq<char>,
)
    ensures
        user_rows(Seq::empty()).len() == 0,
        says(member, "id"@, id) && id.len() > 0 && says(member, "real_name"@, real_name)
            && real_name.len() > 0 ==> user_rows(members.push(member)) == user_rows(members).push(
            (id, real_name),
        ),
        says(member, "id"@, id) && id.len() > 0 && (!says_something(member, "real_name"@) || says(
            member,
            "real_name"@,
            Seq::empty(),
        )) && says(member, "name"@, name) ==> user_rows(members.push(member)) == user_rows(
            members,
        ).push((id, name)),
        says(member, "id"@, id) && id.len() > 0 && (!says_something(member, "real_name"@) || says(
            member,
            "real_name"@,
            Seq::empty(),
        )) && !says_something(member, "name"@) ==> user_rows(members.push(member)) == user_rows(
            members,
        ).push((id, id)),
        !says_something(member, "id"@) || says(member, "id"@, Seq::empty()) ==> user_rows(
            members.push(member),
        ) == user_rows(members),
{
    assert(members.push(member).drop_last() =~= members);
}

/// A group is listed by its id under its handle, and under its name where the handle is
/// empty or missing. A group without an id or without both names is not listed.
pub proof fn law_groups_are_listed(
    groups: Seq<JsonValue>,
    group: JsonValue,
    id: Seq<char>,
    handle: Seq<char>,
    name: Seq<char>,
)
    ensures
        group_rows(Seq::empty()).len() == 0,
        says(group, "id"@, id) && id.len() > 0 && says(group, "handle"@, handle) && handle.len()
            > 0 ==> group_rows(groups.push(group)) == group_rows(groups).push((id, handle)),
        says(group, "id"@, id) && id.len() > 0 && (!says_something(group, "handle"@) || says(
            group,
            "handle"@,
            Seq::empty(),
        )) && says(group, "name"@, name) ==> group_rows(groups.push(group)) == group_rows(
            groups,
        ).push((id, name)),
        (!says_something(group, "handle"@) || says(group, "handle"@, Seq::empty()))
            && !says_something(group, "name"@) ==> group_rows(groups.push(group)) == group_rows(
            groups,
        ),
        !says_something(group, "id"@) || says(group, "id"@, Seq::empty()) ==> group_rows(
            groups.push(group),
        ) == group_rows(groups),
{
    assert(groups.push(group).drop_last() =~= groups);
}

/// A channel is listed by its id under its name behind a `#`. A conversation without a name
/// is one with a user and is listed under the name of that user; one that names no user
/// either is listed under its id. One without an id is not listed.
pub proof fn law_channels_are_listed(
    items: Seq<JsonValue>,
    users: Map<Seq<char>, Seq<char>>,
    item: JsonValue,
    id: Seq<char>,
    name: Seq<char>,
    user: Seq<char>,
)
    ensures
        channel_rows(Seq::empty(), users).len() == 0,
        says(item, "id"@, id) && id.len() > 0 && says(item, "name"@, name) && name.len() > 0
            ==> channel_rows(items.push(item), users) == channel_rows(items, users).push(
            (ChannelView { id, name: seq!['#'] + name, kind: "channel"@ }),
        ),
        says(item, "id"@, id) && id.len() > 0 && (!says_something(item, "name"@) || says(
            item,
            "name"@,
            Seq::empty(),
        )) && says(item, "user"@, user) ==> channel_rows(items.push(item), users) == channel_rows(
            items,
            users,
        ).push(
            (ChannelView {
                id,
                name: seq!['D', 'M', ':', ' '] + name_or_id(users, user),
                kind: "dm"@,
            }),
        ),
        says(item, "id"@, id) && id.len() > 0 && (!says_something(item, "name"@) || says(
            item,
            "name"@,
            Seq::empty(),
        )) && !says_something(item, "user"@) ==> channel_rows(items.push(item), users)
            == channel_rows(items, users).push((ChannelView { id, name: id, kind: "unknown"@ })),
        !says_something(item, "id"@) || says(item, "id"@, Seq::empty()) ==> channel_rows(
            items.push(item),
            users,
        ) == channel_rows(items, users),
{
    reveal_strlit("#");
    reveal_strlit("DM: ");
    assert("#"@ =~= seq!['#']);
    assert("DM: "@ =~= seq!['D', 'M', ':', ' ']);
    assert(items.push(item).drop_last() =~= items);
}

/// Of two names for one id the later counts, and other ids keep the names that they had.
pub proof fn law_later_names_count(
    names: Map<Seq<char>, Seq<char>>,
    rows: Seq<(Seq<char>, Seq<char>)>,
    id: Seq<char>,
    name: Seq<char>,
    other: Seq<char>,
)
    ensures
        with_names(names, Seq::empty()) == names,
        name_or_id(with_names(names, rows.push((id, name))), id) == name,
        other != id ==> name_or_id(with_names(names, rows.push((id, name))), other) == name_or_id(
            with_names(names, rows),
            other,
        ),
        other != id ==> with_names(names, rows.push((id, name))).contains_key(other) == with_names(
            names,
            rows,
        ).contains_key(other),
{
    assert(rows.push((id, name)).drop_last() =~= rows);
}

/// The rows of a listing of channels give each channel its name.
pub proof fn law_channels_are_named_by_their_rows(rows: Seq<ChannelView>, row: ChannelView)
    ensures
        channel_pairs(Seq::empty()).len() == 0,
        channel_pairs(rows.push(row)) == channel_pairs(rows).push((row.id, row.name)),
{
    assert(channel_pairs(rows.push(row)) =~= channel_pairs(rows).push((row.id, row.name)));
}

/// A connection is made where the reply agrees and gives an address, to that address. A
/// reply that does not agree says why, whatever else it holds.
pub proof fn law_connections(resp: RtmConnectResponse, url: Seq<char>, error: Seq<char>)
    ensures
        resp.ok && text_opt(resp.url) == Some(url) ==> connection(resp) == Ok::<
            Seq<char>,
            Seq<char>,
        >(url),
        resp.ok && resp.url is None ==> connection(resp) == Err::<Seq<char>, Seq<char>>(
            "rtm.connect response had no url"@,
        ),
        !resp.ok && text_opt(resp.error) == Some(error) ==> connection(resp) == Err::<
            Seq<char>,
            Seq<char>,
        >("rtm.connect failed: "@ + error),
        !resp.ok && resp.error is None ==> connection(resp) == Err::<Seq<char>, Seq<char>>(
            "rtm.connect failed: "@,
        ),
{
    assert("rtm.connect failed: "@ + Seq::<char>::empty() =~= "rtm.connect failed: "@);
}

/// The host of an address is what is left without the scheme in front and the slashes
/// behind.
pub proof fn law_hosts_of_addresses(host: Seq<char>)
    requires
        host.len() > 0,
        host.last() != '/',
        !starts_with(host, "https://"@),
        !starts_with(host, "http://"@),
    ensures
        host_of(host) == host,
        host_of("https://"@ + host) == host,
        host_of("https://"@ + host + seq!['/']) == host,
        host_of("http://"@ + host) == host,
        host_of("http://"@ + host + seq!['/']) == host,
{
    reveal_strlit("https://");
    reveal_strlit("http://");
    let slashed = host + seq!['/'];
    assert(slashed.drop_last() =~= host);
    if starts_with(slashed, "https://"@) {
        assert(slashed.take(8)[7] == '/');
        if slashed.len() > 8 {
            assert(slashed.take(8) =~= host.take(8));
        } else {
            assert(slashed.take(8) =~= slashed);
            assert(host.last() == slashed[6]);
            assert(slashed[6] == "https://"@[6]);
        }
    }
    if starts_with(slashed, "http://"@) {
        if slashed.len() > 7 {
            assert(slashed.take(7) =~= host.take(7));
        } else {
            assert(slashed.take(7) =~= slashed);
            assert(host.last() == slashed[5]);
            assert(slashed[5] == "http://"@[5]);
        }
    }
    lemma_stripped("https://"@, host);
    lemma_stripped("https://"@, slashed);
    lemma_stripped("http://"@, host);
    lemma_stripped("http://"@, slashed);
    lemma_other_scheme(host);
    lemma_other_scheme(slashed);
    assert("https://"@ + host + seq!['/'] =~= "https://"@ + slashed);
    assert("http://"@ + host + seq!['/'] =~= "http://"@ + slashed);
    assert(strip_trailing(host, '/') == host);
    assert(strip_trailing(slashed, '/') == host);
}

proof fn lemma_stripped(prefix: Seq<char>, rest: Seq<char>)
    requires
        prefix.len() > 0,
        !starts_with(rest, prefix),
    ensures
        strip_prefixes(rest, prefix) == rest,
        strip_prefixes(prefix + rest, prefix) == rest,
{
    law_starting_with(prefix + rest, prefix, rest);
    assert((prefix + rest).skip(prefix.len() as int) =~= rest);
}

proof fn lemma_other_scheme(rest: Seq<char>)
    ensures
        strip_prefixes("http://"@ + rest, "https://"@) == "http://"@ + rest,
{
    reveal_strlit("https://");
    reveal_strlit("http://");
    let s = "http://"@ + rest;
    if starts_with(s, "https://"@) {
        assert(s.take(8)[4] == s[4]);
    }
}

/// The facts about a workspace are the team and the host of the address that the reply
/// gives, each where it gives one.
pub proof fn law_facts_about_a_workspace(resp: JsonValue, team: Seq<char>, url: Seq<char>)
    ensures
        says(resp, "team_id"@, team) ==> facts_in(resp).0 == Some(team),
        !says_something(resp, "team_id"@) ==> facts_in(resp).0 is None,
        says(resp, "url"@, url) ==> facts_in(resp).1 == Some(host_of(url)),
        !says_something(resp, "url"@) ==> facts_in(resp).1 is None,
{
}

/// The listings are asked for two hundred at a time: all users, and the channels and direct
/// messages that are not archived. A cursor is one parameter more.
pub proof fn law_listings_are_asked_for(cursor: Seq<char>)
    ensures
        before(users_address(None), '?') == "https://slack.com/api/users.list"@,
        split(after(users_address(None), '?'), '&') == seq!["limit=200"@],
        before(channels_address(None), '?') == "https://slack.com/api/conversations.list"@,
        split(after(channels_address(None), '?'), '&') == seq![
            "types=public_channel,private_channel,im"@,
            "exclude_archived=true"@,
            "limit=200"@,
        ],
        users_address(Some(cursor)) == users_address(None) + "&cursor="@ + percent_encoded(
            encode_utf8(cursor),
        ),
        channels_address(Some(cursor)) == channels_address(None) + "&cursor="@ + percent_encoded(
            encode_utf8(cursor),
        ),
{
    reveal_strlit("https://slack.com/api/users.list?limit=200");
    reveal_strlit("https://slack.com/api/users.list");
    reveal_strlit("limit=200");
    assert(users_address(None) =~= "https://slack.com/api/users.list"@ + seq!['?']
        + "limit=200"@);
    law_first_division("https://slack.com/api/users.list"@, "limit=200"@, '?');
    lemma_split("limit=200"@, Seq::empty(), '&');
    lemma_channels_address();
}

proof fn lemma_channels_address()
    ensures
        before(channels_address(None), '?') == "https://slack.com/api/conversations.list"@,
        split(after(channels_address(None), '?'), '&') == seq![
            "types=public_channel,private_channel,im"@,
            "exclude_archived=true"@,
            "limit=200"@,
        ],
{
    reveal_strlit(
        "https://slack.com/api/conversations.list?types=public_channel,private_channel,im&exclude_archived=true&limit=200",
    );
    reveal_strlit("https://slack.com/api/conversations.list");
    reveal_strlit("types=public_channel,private_channel,im");
    reveal_strlit("exclude_archived=true");
    reveal_strlit("limit=200");
    let types = "types=public_channel,private_channel,im"@;
    let rest = "exclude_archived=true"@ + seq!['&'] + "limit=200"@;
    let query = types + seq!['&'] + rest;
    assert(channels_address(None) =~= "https://slack.com/api/conversations.list"@ + seq!['?']
        + query);
    law_first_division("https://slack.com/api/conversations.list"@, query, '?');
    lemma_split("limit=200"@, Seq::empty(), '&');
    lemma_split("exclude_archived=true"@, "limit=200"@, '&');
    lemma_split(types, rest, '&');
    assert(split(query, '&') =~= seq![types, "exclude_archived=true"@, "limit=200"@]);
}

} // verus!
