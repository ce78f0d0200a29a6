//! Loading history: the pages of a search, and what is made of the messages found.
use vstd::hash_map::StringHashMap;
use vstd::prelude::*;
use vstd::string::*;
use vstd::utf8::*;

use crate::api::{percent_encoded, url_encode};
use crate::json::{values, Json, JsonValue};
use crate::markup::{extract_mentions, first_of_each, mention_ids};
use crate::message::{
    author, call_span_fits, can_describe, describe_payload, message_author, message_text,
    payload_note, says, says_something, text_of_message,
};
use crate::names::NameMap;
use crate::number::{decimal, push_unsigned};
use crate::render::{message_lines, render_message, Shown};
use crate::store::StoredMessage;
use crate::text::{after, before, split, str_opt, text_opt, texts};
use crate::thread::{permalink_thread, tag_of, thread_tag, thread_ts_from_permalink};

verus! {

/// A message found by a search.
pub struct HistMessage {
    /// A number that orders messages like their timestamps do.
    pub order: i64,
    /// The timestamp as Slack wrote it, such as `1690000000.000100`. A thread's tag is
    /// made from this text, so a parent's must equal what its replies refer to.
    pub ts_raw: String,
    pub channel_id: String,
    pub user_id: String,
    pub text: String,
    pub note: Option<String>,
    pub thread_ts: Option<String>,
}

/// What a found message holds.
pub struct HistView {
    pub order: i64,
    pub ts_raw: Seq<char>,
    pub channel_id: Seq<char>,
    pub user_id: Seq<char>,
    pub text: Seq<char>,
    pub note: Option<Seq<char>>,
    pub thread_ts: Option<Seq<char>>,
}

impl View for HistMessage {
    type V = HistView;

    open spec fn view(&self) -> HistView {
        HistView {
            order: self.order,
            ts_raw: self.ts_raw@,
            channel_id: self.channel_id@,
            user_id: self.user_id@,
            text: self.text@,
            note: text_opt(self.note),
            thread_ts: text_opt(self.thread_ts),
        }
    }
}

/// What the messages of a list hold.
pub open spec fn hist_views(messages: Seq<HistMessage>) -> Seq<HistView> {
    messages.map_values(|m: HistMessage| m@)
}

// ---------------------------------------------------------------------------
// Search pages.
// ---------------------------------------------------------------------------

/// The address of a page of search results.
pub open spec fn search_address(query: Seq<char>, page: u32) -> Seq<char> {
    "https://slack.com/api/search.messages?query="@ + percent_encoded(encode_utf8(query))
        + "&count=100&page="@ + decimal(page as int) + "&sort=timestamp&sort_dir=asc"@
}

/// The address of a page of search results.
pub fn search_url(query: &str, page: u32) -> (r: String)
    ensures
        r@ == search_address(query@, page),
{
    let mut url: String = "https://slack.com/api/search.messages?query=".to_owned();
    let encoded: String = url_encode(query);
    url.append(encoded.as_str());
    url.append("&count=100&page=");
    push_unsigned(&mut url, page as u64);
    url.append("&sort=timestamp&sort_dir=asc");
    assert(url@ =~= search_address(query@, page));
    url
}

/// The matches on a page of search results.
pub open spec fn matches_of(resp: JsonValue) -> Seq<JsonValue> {
    match resp.field("messages"@) {
        Some(messages) => messages.items_or_empty("matches"@),
        None => Seq::empty(),
    }
}

/// The matches on a page of search results, where it lists any.
fn found(resp: &Json) -> (r: Option<&Vec<Json>>)
    ensures
        match r {
            Some(items) => values(items@) == matches_of(resp@),
            None => matches_of(resp@).len() == 0,
        },
{
    match resp.get("messages") {
        Some(messages) => messages.items_at("matches"),
        None => None,
    }
}

/// How many pages the results have.
pub open spec fn page_count(resp: JsonValue) -> i64 {
    match resp.field("messages"@) {
        Some(messages) => match messages.field("pagination"@) {
            Some(pagination) => pagination.int_or("page_count"@, 1),
            None => 1,
        },
        None => 1,
    }
}

/// The page to ask for behind `page`: none where it was empty or the last one.
pub open spec fn page_behind(resp: JsonValue, page: u32) -> Option<u32> {
    if matches_of(resp).len() == 0 || page >= page_count(resp) {
        None
    } else {
        Some((page + 1) as u32)
    }
}

/// Whether there is a page to ask for behind `page`.
pub fn has_next_page(resp: &Json, page: u32) -> (r: bool)
    ensures
        r == (page_behind(resp@, page) is Some),
{
    let some: bool = match found(resp) {
        Some(items) => {
            assert(values(items@).len() == items@.len());
            items.len() > 0
        },
        None => false,
    };
    let count: i64 = match resp.get("messages") {
        Some(messages) => match messages.get("pagination") {
            Some(pagination) => pagination.int_at_or("page_count", 1),
            None => 1,
        },
        None => 1,
    };
    some && (page as i64) < count
}

/// The page to ask for next.
pub fn next_page(resp: &Json, page: u32) -> (r: Option<u32>)
    requires
        page < u32::MAX || page_behind(resp@, page) is None,
    ensures
        r == page_behind(resp@, page),
{
    if has_next_page(resp, page) {
        Some(page + 1)
    } else {
        None
    }
}

/// The timestamps of matches, as Slack wrote them.
pub open spec fn timestamps_of(items: Seq<JsonValue>) -> Seq<Seq<char>> {
    items.map_values(|item: JsonValue| item.text_or("ts"@, Seq::empty()))
}

/// The timestamps of the matches on a page, as Slack wrote them; empty where a match has
/// none.
pub fn match_timestamps(resp: &Json) -> (r: Vec<String>)
    ensures
        texts(r@) == timestamps_of(matches_of(resp@)),
{
    let mut r: Vec<String> = Vec::new();
    let items: &Vec<Json> = match found(resp) {
        Some(items) => items,
        None => {
            assert(texts(r@) =~= timestamps_of(matches_of(resp@)));
            return r;
        },
    };
    let ghost all = timestamps_of(values(items@));
    let mut i: usize = 0;
    while i < items.len()
        invariant
            i <= items@.len(),
            all == timestamps_of(values(items@)),
            r@.len() == i,
            forall|j: int| 0 <= j < i ==> #[trigger] r@[j]@ == all[j],
        decreases items@.len() - i,
    {
        let ts: String = match items[i].text_at("ts") {
            Some(ts) => ts.to_owned(),
            None => String::new(),
        };
        assert(ts@ =~= all[i as int]);
        r.push(ts);
        i += 1;
    }
    assert(texts(r@) =~= all);
    r
}

/// The thread of a match: search does not return it as a field, but the permalink of a
/// reply carries it.
pub open spec fn match_thread(item: JsonValue) -> Option<Seq<char>> {
    match item.text_field("thread_ts"@) {
        Some(ts) => Some(ts),
        None => match item.text_field("permalink"@) {
            Some(link) => permalink_thread(link),
            None => None,
        },
    }
}

/// The channel of a match.
pub open spec fn match_channel(item: JsonValue) -> Seq<char> {
    match item.field("channel"@) {
        Some(channel) => channel.text_or("id"@, Seq::empty()),
        None => Seq::empty(),
    }
}

/// Whether a match is kept: its timestamp is a number, and not before `oldest`. Search
/// goes by days, so it finds more than was asked for.
pub open spec fn in_window(order: Option<i64>, oldest: i64) -> bool {
    order matches Some(at) && at >= oldest
}

/// What is kept of a match.
pub open spec fn found_message(
    item: JsonValue,
    order: i64,
    users: Map<Seq<char>, Seq<char>>,
) -> HistView {
    let text = text_of_message(item);
    HistView {
        order,
        ts_raw: item.text_or("ts"@, Seq::empty()),
        channel_id: match_channel(item),
        user_id: author(item),
        text,
        note: payload_note(item, users, text.len() == 0),
        thread_ts: match_thread(item),
    }
}

/// What is kept of the first `n` matches.
pub open spec fn found_messages(
    items: Seq<JsonValue>,
    orders: Seq<Option<i64>>,
    oldest: i64,
    users: Map<Seq<char>, Seq<char>>,
    n: nat,
) -> Seq<HistView>
    decreases n,
{
    if n == 0 || n > items.len() {
        Seq::empty()
    } else {
        let earlier = found_messages(items, orders, oldest, users, (n - 1) as nat);
        if in_window(orders[n - 1], oldest) {
            earlier.push(found_message(items[n - 1], orders[n - 1]->0, users))
        } else {
            earlier
        }
    }
}

/// Whether the payload of every match that is kept can be described.
pub open spec fn describable(
    items: Seq<JsonValue>,
    orders: Seq<Option<i64>>,
    oldest: i64,
) -> bool {
    forall|i: int|
        0 <= i < items.len() && in_window(orders[i], oldest) ==> call_span_fits(#[trigger] items[i])
}

/// Whether `search_messages_since` can read a page: one order for every match, and the
/// payload of every match that is kept can be described.
pub fn can_read_page(resp: &Json, orders: &Vec<Option<i64>>, oldest: i64) -> (r: bool)
    ensures
        r == (orders@.len() == matches_of(resp@).len() && describable(
            matches_of(resp@),
            orders@,
            oldest,
        )),
{
    let items: &Vec<Json> = match found(resp) {
        Some(items) => items,
        None => {
            return orders.len() == 0;
        },
    };
    let ghost all = values(items@);
    if orders.len() != items.len() {
        return false;
    }
    let mut i: usize = 0;
    while i < items.len()
        invariant
            i <= items@.len(),
            orders@.len() == items@.len(),
            all == values(items@),
            all == matches_of(resp@),
            forall|j: int|
                0 <= j < i && in_window(orders@[j], oldest) ==> call_span_fits(#[trigger] all[j]),
        decreases items@.len() - i,
    {
        assert(all[i as int] == items@[i as int]@);
        let kept: bool = match orders[i] {
            Some(at) => at >= oldest,
            None => false,
        };
        if kept && !can_describe(&items[i]) {
            return false;
        }
        i += 1;
    }
    true
}

/// Adds the matches of a page that lie in the window to `out`. `orders` holds, for each
/// match, a number that orders it like its timestamp, where that is a number at all.
pub fn search_messages_since(
    resp: &Json,
    orders: &Vec<Option<i64>>,
    oldest: i64,
    users: &NameMap,
    out: &mut Vec<HistMessage>,
)
    requires
        orders@.len() == matches_of(resp@).len(),
        describable(matches_of(resp@), orders@, oldest),
    ensures
        hist_views(final(out)@) == hist_views(old(out)@) + found_messages(
            matches_of(resp@),
            orders@,
            oldest,
            users@,
            matches_of(resp@).len(),
        ),
{
    let ghost before = hist_views(out@);
    let items: &Vec<Json> = match found(resp) {
        Some(items) => items,
        None => {
            assert(before + Seq::empty() =~= before);
            return;
        },
    };
    let ghost all = values(items@);
    let mut i: usize = 0;
    assert(before + Seq::empty() =~= before);
    while i < items.len()
        invariant
            i <= items@.len(),
            all == values(items@),
            all == matches_of(resp@),
            orders@.len() == items@.len(),
            describable(all, orders@, oldest),
            hist_views(out@) == before + found_messages(all, orders@, oldest, users@, i as nat),
        decreases items@.len() - i,
    {
        let item: &Json = &items[i];
        assert(all[i as int] == item@);
        let ghost done = found_messages(all, orders@, oldest, users@, i as nat);
        if let Some(at) = orders[i] {
            if at >= oldest {
                let ts_raw: String = match item.text_at("ts") {
                    Some(ts) => ts.to_owned(),
                    None => String::new(),
                };
                assert(ts_raw@ =~= item@.text_or("ts"@, Seq::empty()));
                let channel_id: String = match item.get("channel") {
                    Some(channel) => match channel.text_at("id") {
                        Some(id) => id.to_owned(),
                        None => String::new(),
                    },
                    None => String::new(),
                };
                assert(channel_id@ =~= match_channel(item@));
                let user_id: String = message_author(item).to_owned();
                let text: String = message_text(item);
                let note: Option<String> = describe_payload(item, users, text.as_str().is_empty());
                let thread_ts: Option<String> = match item.text_at("thread_ts") {
                    Some(ts) => Some(ts.to_owned()),
                    None => match item.text_at("permalink") {
                        Some(link) => thread_ts_from_permalink(link),
                        None => None,
                    },
                };
                let m: HistMessage = HistMessage {
                    order: at,
                    ts_raw,
                    channel_id,
                    user_id,
                    text,
                    note,
                    thread_ts,
                };
                assert(m@ == found_message(item@, at, users@));
                let ghost kept = hist_views(out@);
                let ghost new = m@;
                out.push(m);
                assert(hist_views(out@) =~= kept.push(new));
                assert(kept.push(new) =~= before + done.push(new));
            }
        }
        i += 1;
    }
}

/// The window is exact: every match inside it is kept, and nothing that is older.
pub proof fn law_window_is_exact(
    items: Seq<JsonValue>,
    orders: Seq<Option<i64>>,
    oldest: i64,
    users: Map<Seq<char>, Seq<char>>,
    n: nat,
)
    requires
        n <= items.len(),
    ensures
        forall|k: int|
            0 <= k < n && in_window(orders[k], oldest) ==> found_messages(
                items,
                orders,
                oldest,
                users,
                n,
            ).contains(found_message(#[trigger] items[k], orders[k]->0, users)),
        forall|i: int|
            0 <= i < found_messages(items, orders, oldest, users, n).len() ==> (
            #[trigger] found_messages(items, orders, oldest, users, n)[i]).order >= oldest,
    decreases n,
{
    if n > 0 {
        law_window_is_exact(items, orders, oldest, users, (n - 1) as nat);
        let earlier = found_messages(items, orders, oldest, users, (n - 1) as nat);
        let all = found_messages(items, orders, oldest, users, n);
        assert forall|k: int| 0 <= k < n && in_window(orders[k], oldest) implies all.contains(
            found_message(#[trigger] items[k], orders[k]->0, users),
        ) by {
            let m = found_message(items[k], orders[k]->0, users);
            if k < n - 1 {
                assert(earlier.contains(m));
                let at = choose|at: int| 0 <= at < earlier.len() && earlier[at] == m;
                assert(all[at] == m);
            } else {
                assert(all[all.len() - 1] == m);
            }
        }
        assert forall|i: int| 0 <= i < all.len() implies (#[trigger] all[i]).order >= oldest by {
            if i < earlier.len() {
                assert(all[i] == earlier[i]);
            }
        }
    }
}

// ---------------------------------------------------------------------------
// Order.
// ---------------------------------------------------------------------------

/// `s` with `m` behind every message that is not later than it.
pub open spec fn placed(s: Seq<HistMessage>, m: HistMessage) -> Seq<HistMessage>
    decreases s.len(),
{
    if s.len() == 0 || s.last().order <= m.order {
        s.push(m)
    } else {
        placed(s.drop_last(), m).push(s.last())
    }
}

/// The messages of `s` in chronological order; those of the same time stay in the order
/// that they had.
pub open spec fn chronological(s: Seq<HistMessage>) -> Seq<HistMessage>
    decreases s.len(),
{
    if s.len() == 0 {
        Seq::empty()
    } else {
        placed(chronological(s.drop_last()), s.last())
    }
}

/// `placed` puts `m` at `at`, where it is not before a later message and not behind an
/// earlier one.
proof fn lemma_placed_at(s: Seq<HistMessage>, m: HistMessage, at: int)
    requires
        0 <= at <= s.len(),
        at > 0 ==> s[at - 1].order <= m.order,
        forall|j: int| at <= j < s.len() ==> s[j].order > m.order,
    ensures
        placed(s, m) == s.insert(at, m),
    decreases s.len(),
{
    if at == s.len() {
        assert(s.insert(at, m) =~= s.push(m));
    } else {
        let init = s.drop_last();
        assert(s.last() == s[s.len() - 1]);
        lemma_placed_at(init, m, at);
        assert(init.insert(at, m).push(s.last()) =~= s.insert(at, m));
    }
}

/// Puts the messages in chronological order.
pub fn sort_messages(messages: &mut Vec<HistMessage>)
    ensures
        final(messages)@ == chronological(old(messages)@),
{
    let ghost all = messages@;
    let mut i: usize = 0;
    assert(all.take(0) =~= Seq::empty());
    assert(chronological(all.take(0)) + all.skip(0) =~= all);
    while i < messages.len()
        invariant
            i <= messages@.len(),
            messages@.len() == all.len(),
            chronological(all.take(i as int)).len() == i,
            messages@ == chronological(all.take(i as int)) + all.skip(i as int),
        decreases messages@.len() - i,
    {
        let ghost sorted = chronological(all.take(i as int));
        assert(messages@[i as int] == all[i as int]);
        let at_order: i64 = messages[i].order;
        let mut at: usize = i;
        while at > 0 && messages[at - 1].order > at_order
            invariant
                at <= i < messages@.len(),
                messages@ == sorted + all.skip(i as int),
                sorted.len() == i,
                forall|j: int| at <= j < i ==> sorted[j].order > at_order,
            decreases at,
        {
            assert(messages@[at - 1] == sorted[at - 1]);
            at -= 1;
        }
        proof {
            if at > 0 {
                assert(messages@[at - 1] == sorted[at - 1]);
            }
            lemma_placed_at(sorted, all[i as int], at as int);
            assert(all.take(i + 1).drop_last() =~= all.take(i as int));
            assert(all.take(i + 1).last() == all[i as int]);
        }
        let ghost whole = messages@;
        if at < i {
            let m: HistMessage = messages.remove(i);
            messages.insert(at, m);
        }
        assert(messages@ =~= sorted.insert(at as int, all[i as int]) + all.skip(i + 1));
        i += 1;
    }
    assert(all.take(i as int) =~= all);
    assert(all.skip(i as int) =~= Seq::empty());
    assert(chronological(all) + Seq::<HistMessage>::empty() =~= chronological(all));
}

/// The messages of `s` of one time, in order.
pub open spec fn of_time(s: Seq<HistMessage>, at: i64) -> Seq<HistMessage>
    decreases s.len(),
{
    if s.len() == 0 {
        Seq::empty()
    } else if s.last().order == at {
        of_time(s.drop_last(), at).push(s.last())
    } else {
        of_time(s.drop_last(), at)
    }
}

proof fn lemma_placed(s: Seq<HistMessage>, m: HistMessage)
    requires
        forall|i: int, j: int| 0 <= i <= j < s.len() ==> s[i].order <= s[j].order,
    ensures
        placed(s, m).len() == s.len() + 1,
        forall|i: int, j: int|
            0 <= i <= j < placed(s, m).len() ==> placed(s, m)[i].order <= placed(s, m)[j].order,
        placed(s, m).last().order == if s.len() > 0 && s.last().order > m.order {
            s.last().order
        } else {
            m.order
        },
        placed(s, m).to_multiset() =~= s.to_multiset().insert(m),
        forall|at: i64|
            #[trigger] of_time(placed(s, m), at) == if m.order == at {
                of_time(s, at).push(m)
            } else {
                of_time(s, at)
            },
    decreases s.len(),
{
    broadcast use vstd::seq_lib::group_to_multiset_ensures;

    let r = placed(s, m);
    if s.len() == 0 || s.last().order <= m.order {
        assert forall|at: i64| #[trigger]
            of_time(r, at) == if m.order == at {
            of_time(s, at).push(m)
        } else {
            of_time(s, at)
        } by {
            assert(r.drop_last() =~= s);
        }
    } else {
        let init = s.drop_last();
        let last = s.last();
        lemma_placed(init, m);
        let p = placed(init, m);
        assert(init.push(last) =~= s);
        assert forall|i: int, j: int| 0 <= i <= j < r.len() implies r[i].order <= r[j].order by {
            if j == p.len() && i < j {
                assert(p[i].order <= p[p.len() - 1].order);
                if init.len() > 0 {
                    assert(init[init.len() - 1].order <= last.order) by {
                        assert(s[s.len() - 2].order <= s[s.len() - 1].order);
                    }
                }
            }
        }
        assert forall|at: i64| #[trigger]
            of_time(r, at) == if m.order == at {
            of_time(s, at).push(m)
        } else {
            of_time(s, at)
        } by {
            assert(r.drop_last() =~= p);
            assert(r.last() == last);
            assert(of_time(p, at) == if m.order == at {
                of_time(init, at).push(m)
            } else {
                of_time(init, at)
            });
        }
        assert(r.to_multiset() =~= s.to_multiset().insert(m));
    }
}

/// Sorting keeps every message, puts none before an earlier one, and leaves messages of
/// the same time in the order in which they came.
pub proof fn law_sorting_is_chronological_and_stable(s: Seq<HistMessage>)
    ensures
        chronological(s).len() == s.len(),
        chronological(s).to_multiset() == s.to_multiset(),
        forall|i: int, j: int|
            0 <= i <= j < chronological(s).len() ==> chronological(s)[i].order
                <= chronological(s)[j].order,
        forall|at: i64| #[trigger]
            of_time(chronological(s), at) == of_time(s, at),
    decreases s.len(),
{
    broadcast use vstd::seq_lib::group_to_multiset_ensures;

    if s.len() > 0 {
        let init = s.drop_last();
        law_sorting_is_chronological_and_stable(init);
        lemma_placed(chronological(init), s.last());
        assert(init.push(s.last()) =~= s);
    } else {
        assert(chronological(s) =~= s);
    }
}

// ---------------------------------------------------------------------------
// Threads.
// ---------------------------------------------------------------------------

/// Two texts as one, so that different pairs never give the same text: every character
/// of the first behind an `a`, a `b`, and the second as it is.
pub open spec fn pair_key(first: Seq<char>, second: Seq<char>) -> Seq<char>
    decreases first.len(),
{
    if first.len() == 0 {
        seq!['b'] + second
    } else {
        seq!['a', first[0]] + pair_key(first.drop_first(), second)
    }
}

proof fn lemma_pair_key_tells_apart(a: Seq<char>, b: Seq<char>, c: Seq<char>, d: Seq<char>)
    requires
        pair_key(a, b) == pair_key(c, d),
    ensures
        a == c,
        b == d,
    decreases a.len(),
{
    let k = pair_key(a, b);
    if a.len() == 0 {
        assert(k[0] == 'b');
        if c.len() > 0 {
            assert(pair_key(c, d)[0] == 'a');
        }
        assert(a =~= c);
        assert(k.skip(1) =~= b);
        assert(k.skip(1) =~= d);
    } else {
        assert(k[0] == 'a');
        if c.len() == 0 {
            assert(pair_key(c, d)[0] == 'b');
        }
        assert(k[1] == a[0]);
        assert(k[1] == c[0]);
        assert(k.skip(2) =~= pair_key(a.drop_first(), b));
        assert(k.skip(2) =~= pair_key(c.drop_first(), d));
        lemma_pair_key_tells_apart(a.drop_first(), b, c.drop_first(), d);
        assert(seq![a[0]] + a.drop_first() =~= a);
        assert(seq![c[0]] + c.drop_first() =~= c);
    }
}

/// The key of a pair.
fn key_of(first: &str, second: &str) -> (r: String)
    ensures
        r@ == pair_key(first@, second@),
{
    let chars: Vec<char> = crate::text::chars_of(first);
    let mut r: String = String::new();
    let mut i: usize = 0;
    assert(chars@.skip(0) =~= chars@);
    assert(r@ + pair_key(chars@, second@) =~= pair_key(chars@, second@));
    while i < chars.len()
        invariant
            i <= chars@.len(),
            chars@ == first@,
            r@ + pair_key(chars@.skip(i as int), second@) == pair_key(first@, second@),
        decreases chars@.len() - i,
    {
        let ghost rest = chars@.skip(i as int);
        let ghost done = r@;
        assert(rest[0] == chars@[i as int]);
        assert(rest.drop_first() =~= chars@.skip(i + 1));
        r.push('a');
        r.push(chars[i]);
        let ghost more = pair_key(chars@.skip(i + 1), second@);
        assert(done + (seq!['a', rest[0]] + more) =~= r@ + more);
        i += 1;
    }
    let ghost done = r@;
    r.push('b');
    r.append(second);
    assert(r@ =~= done + (seq!['b'] + second@));
    r
}

/// Whether some message of `s` is a reply in the thread `ts` of a channel.
pub open spec fn has_reply(s: Seq<HistView>, channel_id: Seq<char>, ts: Seq<char>) -> bool {
    exists|j: int|
        0 <= j < s.len() && (#[trigger] s[j]).channel_id == channel_id && s[j].thread_ts == Some(ts)
}

/// A message of `s`, in its own thread where some message of `s` is a reply to it.
pub open spec fn tagged_message(s: Seq<HistView>, m: HistView) -> HistView {
    if m.thread_ts is None && has_reply(s, m.channel_id, m.ts_raw) {
        HistView { thread_ts: Some(m.ts_raw), ..m }
    } else {
        m
    }
}

/// The messages of `s`, with the parents of threads in their threads.
pub open spec fn tagged(s: Seq<HistView>) -> Seq<HistView> {
    s.map_values(|m: HistView| tagged_message(s, m))
}

/// Puts the parents of threads in their threads. A parent carries no `thread_ts` of its
/// own; Slack identifies it purely by the replies' `thread_ts` being its timestamp. A
/// parent outside the window is not there to be tagged; its replies stay groupable.
pub fn tag_thread_parents(messages: &mut Vec<HistMessage>)
    ensures
        hist_views(final(messages)@) == tagged(hist_views(old(messages)@)),
{
    let ghost all = hist_views(messages@);
    let mut threads: StringHashMap<bool> = StringHashMap::new();
    let mut i: usize = 0;
    while i < messages.len()
        invariant
            i <= messages@.len(),
            all == hist_views(messages@),
            forall|k: Seq<char>| #[trigger]
                threads@.contains_key(k) <==> exists|j: int|
                    0 <= j < i && (#[trigger] all[j]).thread_ts is Some && k == pair_key(
                        all[j].channel_id,
                        all[j].thread_ts->0,
                    ),
        decreases messages@.len() - i,
    {
        assert(all[i as int] == messages@[i as int]@);
        if let Some(t) = &messages[i].thread_ts {
            let key: String = key_of(messages[i].channel_id.as_str(), t.as_str());
            threads.insert(key, true);
        }
        i += 1;
    }
    let mut n: usize = 0;
    while n < messages.len()
        invariant
            n <= messages@.len(),
            messages@.len() == all.len(),
            forall|j: int| 0 <= j < n ==> (#[trigger] messages@[j])@ == tagged_message(all, all[j]),
            forall|j: int| n <= j < all.len() ==> (#[trigger] messages@[j])@ == all[j],
            forall|k: Seq<char>| #[trigger]
                threads@.contains_key(k) <==> exists|j: int|
                    0 <= j < all.len() && (#[trigger] all[j]).thread_ts is Some && k == pair_key(
                        all[j].channel_id,
                        all[j].thread_ts->0,
                    ),
        decreases messages@.len() - n,
    {
        let ghost m = all[n as int];
        assert(messages@[n as int]@ == m);
        if messages[n].thread_ts.is_none() {
            let key: String = key_of(messages[n].channel_id.as_str(), messages[n].ts_raw.as_str());
            let parent: bool = threads.contains_key(key.as_str());
            assert(parent == has_reply(all, m.channel_id, m.ts_raw)) by {
                if parent {
                    let j = choose|j: int|
                        0 <= j < all.len() && (#[trigger] all[j]).thread_ts is Some && key@
                            == pair_key(all[j].channel_id, all[j].thread_ts->0);
                    lemma_pair_key_tells_apart(
                        m.channel_id,
                        m.ts_raw,
                        all[j].channel_id,
                        all[j].thread_ts->0,
                    );
                }
                if has_reply(all, m.channel_id, m.ts_raw) {
                    let j = choose|j: int|
                        0 <= j < all.len() && (#[trigger] all[j]).channel_id == m.channel_id
                            && all[j].thread_ts == Some(m.ts_raw);
                    assert(all[j].thread_ts is Some);
                }
            }
            if parent {
                let ts: String = messages[n].ts_raw.clone();
                messages[n].thread_ts = Some(ts);
            }
        }
        n += 1;
    }
    assert(hist_views(messages@) =~= tagged(all));
}

/// A thread's parent carries the same tag as its replies, where both were found.
pub proof fn law_parent_shares_the_tag_of_its_replies(s: Seq<HistView>, parent: int, reply: int)
    requires
        0 <= parent < s.len(),
        0 <= reply < s.len(),
        s[parent].thread_ts is None,
        s[reply].channel_id == s[parent].channel_id,
        s[reply].thread_ts == Some(s[parent].ts_raw),
    ensures
        tagged(s)[parent].thread_ts is Some,
        tagged(s)[reply].thread_ts is Some,
        tag_of(tagged(s)[parent].channel_id, tagged(s)[parent].thread_ts->0) == tag_of(
            tagged(s)[reply].channel_id,
            tagged(s)[reply].thread_ts->0,
        ),
{
    assert(has_reply(s, s[parent].channel_id, s[parent].ts_raw));
}

/// Tagging changes nothing but the missing thread of a parent: messages that belong to a
/// thread keep it, and messages without replies stay without one.
pub proof fn law_tagging_leaves_the_rest(s: Seq<HistView>, i: int)
    requires
        0 <= i < s.len(),
        s[i].thread_ts is Some || !has_reply(s, s[i].channel_id, s[i].ts_raw),
    ensures
        tagged(s)[i] == s[i],
{
}

/// Tagging a second time changes nothing.
pub proof fn law_tagging_twice_is_tagging_once(s: Seq<HistView>)
    ensures
        tagged(tagged(s)) == tagged(s),
{
    let t = tagged(s);
    assert forall|i: int| 0 <= i < t.len() implies tagged(t)[i] == #[trigger] t[i] by {
        let m = s[i];
        if t[i].thread_ts is None && has_reply(t, t[i].channel_id, t[i].ts_raw) {
            assert(t[i] == m);
            let j = choose|j: int|
                0 <= j < t.len() && (#[trigger] t[j]).channel_id == m.channel_id && t[j].thread_ts
                    == Some(m.ts_raw);
            assert(t[j] == tagged_message(s, s[j]));
            if s[j].thread_ts is Some {
                assert(has_reply(s, m.channel_id, m.ts_raw));
            } else {
                assert(s[j].ts_raw == m.ts_raw);
                assert(has_reply(s, s[j].channel_id, s[j].ts_raw));
            }
        }
    }
    assert(tagged(t) =~= t);
}

// ---------------------------------------------------------------------------
// Recording and showing.
// ---------------------------------------------------------------------------

/// Puts the messages that were found in order and the parents of threads in their
/// threads.
pub fn arrange_history(messages: &mut Vec<HistMessage>)
    ensures
        hist_views(final(messages)@) == tagged(hist_views(chronological(old(messages)@))),
{
    sort_messages(messages);
    tag_thread_parents(messages);
}

/// The tag of the thread of a message.
pub open spec fn tag_opt(channel_id: Seq<char>, thread_ts: Option<Seq<char>>) -> Option<Seq<char>> {
    match thread_ts {
        Some(t) => Some(tag_of(channel_id, t)),
        None => None,
    }
}

/// The tags of the threads of messages.
pub fn history_tags(messages: &Vec<HistMessage>) -> (r: Vec<Option<String>>)
    ensures
        r@.len() == messages@.len(),
        forall|i: int|
            0 <= i < r@.len() ==> text_opt(#[trigger] r@[i]) == tag_opt(
                messages@[i]@.channel_id,
                messages@[i]@.thread_ts,
            ),
{
    let mut r: Vec<Option<String>> = Vec::new();
    let mut i: usize = 0;
    while i < messages.len()
        invariant
            i <= messages@.len(),
            r@.len() == i,
            forall|j: int|
                0 <= j < i ==> text_opt(#[trigger] r@[j]) == tag_opt(
                    messages@[j]@.channel_id,
                    messages@[j]@.thread_ts,
                ),
        decreases messages@.len() - i,
    {
        let tag: Option<String> = match &messages[i].thread_ts {
            Some(t) => Some(thread_tag(messages[i].channel_id.as_str(), t.as_str())),
            None => None,
        };
        r.push(tag);
        i += 1;
    }
    r
}

/// What is recorded of a found message.
pub open spec fn recorded(m: HistView) -> crate::store::StoredView {
    crate::store::StoredView {
        channel_id: m.channel_id,
        ts: m.ts_raw,
        user_id: Some(m.user_id),
        text: m.text,
        note: m.note,
        thread_ts: m.thread_ts,
        thread_tag: tag_opt(m.channel_id, m.thread_ts),
        mentions: first_of_each(mention_ids(m.text)),
    }
}

/// A borrowed optional string.
pub(crate) fn borrowed(o: &Option<String>) -> (r: Option<&str>)
    ensures
        str_opt(r) == text_opt(*o),
{
    match o {
        Some(s) => Some(s.as_str()),
        None => None,
    }
}

/// What is recorded of the messages, `tags` being the tags of their threads.
pub fn history_rows<'a>(messages: &'a Vec<HistMessage>, tags: &'a Vec<Option<String>>) -> (r: Vec<
    StoredMessage<'a>,
>)
    requires
        tags@.len() == messages@.len(),
        forall|i: int|
            0 <= i < tags@.len() ==> text_opt(#[trigger] tags@[i]) == tag_opt(
                messages@[i]@.channel_id,
                messages@[i]@.thread_ts,
            ),
    ensures
        r@.len() == messages@.len(),
        forall|i: int| 0 <= i < r@.len() ==> (#[trigger] r@[i])@ == recorded(messages@[i]@),
{
    let mut r: Vec<StoredMessage<'a>> = Vec::new();
    let mut i: usize = 0;
    while i < messages.len()
        invariant
            i <= messages@.len(),
            tags@.len() == messages@.len(),
            forall|j: int|
                0 <= j < tags@.len() ==> text_opt(#[trigger] tags@[j]) == tag_opt(
                    messages@[j]@.channel_id,
                    messages@[j]@.thread_ts,
                ),
            r@.len() == i,
            forall|j: int| 0 <= j < i ==> (#[trigger] r@[j])@ == recorded(messages@[j]@),
        decreases messages@.len() - i,
    {
        let m: &'a HistMessage = &messages[i];
        let row: StoredMessage<'a> = StoredMessage {
            channel_id: m.channel_id.as_str(),
            ts: m.ts_raw.as_str(),
            user_id: Some(m.user_id.as_str()),
            text: m.text.as_str(),
            note: borrowed(&m.note),
            thread_ts: borrowed(&m.thread_ts),
            thread_tag: borrowed(&tags[i]),
            mentions: extract_mentions(m.text.as_str()),
        };
        assert(text_opt(tags@[i as int]) == tag_opt(m@.channel_id, m@.thread_ts));
        assert(row@ == recorded(m@));
        r.push(row);
        i += 1;
    }
    r
}

/// The database ids to show: those of the rows that were written, or none at all where
/// nothing was.
pub fn shown_ids(written: Option<&Vec<i64>>, count: usize) -> (r: Vec<Option<i64>>)
    ensures
        match written {
            Some(ids) => r@ == ids@.map_values(|id: i64| Some(id)),
            None => r@ == Seq::new(count as nat, |i: int| None::<i64>),
        },
{
    let mut r: Vec<Option<i64>> = Vec::new();
    match written {
        Some(ids) => {
            let mut i: usize = 0;
            while i < ids.len()
                invariant
                    i <= ids@.len(),
                    r@.len() == i,
                    forall|j: int| 0 <= j < i ==> #[trigger] r@[j] == Some(ids@[j]),
                decreases ids@.len() - i,
            {
                r.push(Some(ids[i]));
                i += 1;
            }
            assert(r@ =~= ids@.map_values(|id: i64| Some(id)));
        },
        None => {
            let mut i: usize = 0;
            while i < count
                invariant
                    i <= count,
                    r@.len() == i,
                    forall|j: int| 0 <= j < i ==> #[trigger] r@[j] == None::<i64>,
                decreases count - i,
            {
                r.push(None);
                i += 1;
            }
            assert(r@ =~= Seq::new(count as nat, |i: int| None::<i64>));
        },
    }
    r
}

/// The parts of a found message that its lines are made from.
pub open spec fn shown(m: HistView) -> Shown {
    Shown {
        channel_id: m.channel_id,
        user_id: m.user_id,
        text: m.text,
        note: m.note,
        thread_ts: m.thread_ts,
    }
}

/// What is printed for the first `n` messages.
pub open spec fn history_output(
    messages: Seq<HistView>,
    ids: Seq<Option<i64>>,
    times: Seq<Seq<char>>,
    channels: Map<Seq<char>, Seq<char>>,
    users: Map<Seq<char>, Seq<char>>,
    color: bool,
    n: nat,
) -> Seq<Seq<char>>
    decreases n,
{
    if n == 0 {
        Seq::empty()
    } else {
        history_output(messages, ids, times, channels, users, color, (n - 1) as nat)
            + message_lines(
            ids[n - 1],
            times[n - 1],
            shown(messages[n - 1]),
            channels,
            users,
            color,
        )
    }
}

/// The line above the history.
pub open spec fn history_header(count: nat, label: Seq<char>) -> Seq<char> {
    "--- "@ + decimal(count as int) + " historical message(s) since "@ + label + " ---"@
}

/// Appends the lines of `more` to `out`.
pub(crate) fn append_lines(out: &mut Vec<String>, more: Vec<String>)
    ensures
        texts(final(out)@) == texts(old(out)@) + texts(more@),
{
    let mut more: Vec<String> = more;
    let ghost added = more@;
    out.append(&mut more);
    assert(texts(out@) =~= texts(old(out)@) + texts(added));
}

/// What is printed for the history that was loaded: a line above it, and the lines of
/// each message with its id and its time.
pub fn history_lines(
    messages: &Vec<HistMessage>,
    ids: &Vec<Option<i64>>,
    times: &Vec<String>,
    label: &str,
    channels: &NameMap,
    users: &NameMap,
    color: bool,
) -> (r: Vec<String>)
    requires
        ids@.len() == messages@.len(),
        times@.len() == messages@.len(),
    ensures
        texts(r@) == seq![history_header(messages@.len(), label@)] + history_output(
            hist_views(messages@),
            ids@,
            texts(times@),
            channels@,
            users@,
            color,
            messages@.len(),
        ),
{
    let mut header: String = "--- ".to_owned();
    push_unsigned(&mut header, messages.len() as u64);
    header.append(" historical message(s) since ");
    header.append(label);
    header.append(" ---");
    assert(header@ =~= history_header(messages@.len(), label@));
    let mut r: Vec<String> = Vec::new();
    r.push(header);
    let ghost head = seq![header@];
    let ghost all = hist_views(messages@);
    let mut i: usize = 0;
    assert(texts(r@) =~= head + Seq::<Seq<char>>::empty());
    while i < messages.len()
        invariant
            i <= messages@.len(),
            ids@.len() == messages@.len(),
            times@.len() == messages@.len(),
            all == hist_views(messages@),
            texts(r@) == head + history_output(
                all,
                ids@,
                texts(times@),
                channels@,
                users@,
                color,
                i as nat,
            ),
        decreases messages@.len() - i,
    {
        let m: &HistMessage = &messages[i];
        assert(all[i as int] == m@);
        assert(texts(times@)[i as int] == times@[i as int]@);
        let ghost done = history_output(
            all,
            ids@,
            texts(times@),
            channels@,
            users@,
            color,
            i as nat,
        );
        let lines: Vec<String> = render_message(
            ids[i],
            times[i].as_str(),
            m.channel_id.as_str(),
            m.user_id.as_str(),
            m.text.as_str(),
            borrowed(&m.note),
            borrowed(&m.thread_ts),
            channels,
            users,
            color,
        );
        let ghost added = texts(lines@);
        append_lines(&mut r, lines);
        assert((head + done) + added =~= head + (done + added));
        i += 1;
    }
    r
}

/// A match is in the channel whose object it carries: the string in the field `id` of the
/// object, whatever other fields that has. A match without one is in no channel.
pub proof fn law_matches_keep_their_channel(
    item: JsonValue,
    order: i64,
    users: Map<Seq<char>, Seq<char>>,
    channel: JsonValue,
    id: Seq<char>,
)
    ensures
        item.field("channel"@) == Some(channel) && says(channel, "id"@, id) ==> found_message(
            item,
            order,
            users,
        ).channel_id == id,
        item.field("channel"@) == Some(channel) && !says_something(channel, "id"@)
            ==> found_message(item, order, users).channel_id.len() == 0,
        item.field("channel"@) is None ==> found_message(item, order, users).channel_id.len() == 0,
{
}

/// A match keeps its timestamp, its order and its author as they are, and its text with the
/// note that this text leaves room for.
pub proof fn law_matches_keep_their_parts(
    item: JsonValue,
    order: i64,
    users: Map<Seq<char>, Seq<char>>,
    ts: Seq<char>,
)
    ensures
        ({
            let m = found_message(item, order, users);
            &&& m.order == order
            &&& says(item, "ts"@, ts) ==> m.ts_raw == ts
            &&& !says_something(item, "ts"@) ==> m.ts_raw.len() == 0
            &&& m.user_id == author(item)
            &&& m.text == text_of_message(item)
            &&& m.text.len() == 0 ==> m.note == payload_note(item, users, true)
            &&& m.text.len() > 0 ==> m.note == payload_note(item, users, false)
        }),
{
}

/// A match is in the thread that it names itself; one that names none is in the thread that
/// its permalink points into, and in none without a permalink.
pub proof fn law_threads_of_matches(
    item: JsonValue,
    order: i64,
    users: Map<Seq<char>, Seq<char>>,
    ts: Seq<char>,
    link: Seq<char>,
)
    ensures
        says(item, "thread_ts"@, ts) ==> found_message(item, order, users).thread_ts == Some(ts),
        !says_something(item, "thread_ts"@) && says(item, "permalink"@, link) ==> found_message(
            item,
            order,
            users,
        ).thread_ts == permalink_thread(link),
        !says_something(item, "thread_ts"@) && !says_something(item, "permalink"@)
            ==> found_message(item, order, users).thread_ts is None,
{
}

/// One match more on a page adds one message at the end where it is in the window, and
/// nothing where it is older or its time cannot be read. An empty page adds nothing.
pub proof fn law_matches_are_added_one_by_one(
    items: Seq<JsonValue>,
    orders: Seq<Option<i64>>,
    oldest: i64,
    users: Map<Seq<char>, Seq<char>>,
    item: JsonValue,
    at: i64,
)
    requires
        items.len() == orders.len(),
    ensures
        found_messages(Seq::empty(), Seq::empty(), oldest, users, 0).len() == 0,
        at >= oldest ==> found_messages(
            items.push(item),
            orders.push(Some(at)),
            oldest,
            users,
            items.len() + 1,
        ) == found_messages(items, orders, oldest, users, items.len()).push(
            found_message(item, at, users),
        ),
        at < oldest ==> found_messages(
            items.push(item),
            orders.push(Some(at)),
            oldest,
            users,
            items.len() + 1,
        ) == found_messages(items, orders, oldest, users, items.len()),
        found_messages(items.push(item), orders.push(None), oldest, users, items.len() + 1)
            == found_messages(items, orders, oldest, users, items.len()),
{
    lemma_found_in_front(items, orders, oldest, users, item, Some(at), items.len());
    lemma_found_in_front(items, orders, oldest, users, item, None, items.len());
}

proof fn lemma_found_in_front(
    items: Seq<JsonValue>,
    orders: Seq<Option<i64>>,
    oldest: i64,
    users: Map<Seq<char>, Seq<char>>,
    item: JsonValue,
    order: Option<i64>,
    n: nat,
)
    requires
        items.len() == orders.len(),
        n <= items.len(),
    ensures
        found_messages(items.push(item), orders.push(order), oldest, users, n) == found_messages(
            items,
            orders,
            oldest,
            users,
            n,
        ),
    decreases n,
{
    if n > 0 {
        lemma_found_in_front(items, orders, oldest, users, item, order, (n - 1) as nat);
    }
}

/// Every kept match whose channel object has a string as its `id` is in that channel.
pub proof fn law_kept_matches_are_in_their_channels(
    items: Seq<JsonValue>,
    orders: Seq<Option<i64>>,
    oldest: i64,
    users: Map<Seq<char>, Seq<char>>,
    item: JsonValue,
    at: i64,
    channel: JsonValue,
    id: Seq<char>,
)
    requires
        items.len() == orders.len(),
        at >= oldest,
        item.field("channel"@) == Some(channel),
        says(channel, "id"@, id),
    ensures
        ({
            let kept = found_messages(
                items.push(item),
                orders.push(Some(at)),
                oldest,
                users,
                items.len() + 1,
            );
            &&& kept.len() == found_messages(items, orders, oldest, users, items.len()).len() + 1
            &&& kept.last().channel_id == id
        }),
{
    law_matches_are_added_one_by_one(items, orders, oldest, users, item, at);
    law_matches_keep_their_channel(item, at, users, channel, id);
}

/// The matches of a reply are the list that its object of messages holds, in order, and
/// their timestamps are their own, one for each.
pub proof fn law_matches_of_a_reply(
    resp: JsonValue,
    messages: JsonValue,
    items: Seq<JsonValue>,
    i: int,
    ts: Seq<char>,
)
    ensures
        resp.field("messages"@) == Some(messages) && messages.field("matches"@) == Some(
            JsonValue::Array(items),
        ) ==> matches_of(resp) == items,
        resp.field("messages"@) == Some(messages) && !(messages.field("matches"@) matches Some(
            JsonValue::Array(l),
        )) ==> matches_of(resp).len() == 0,
        resp.field("messages"@) is None ==> matches_of(resp).len() == 0,
        timestamps_of(items).len() == items.len(),
        0 <= i < items.len() && says(items[i], "ts"@, ts) ==> timestamps_of(items)[i] == ts,
        0 <= i < items.len() && !says_something(items[i], "ts"@) ==> timestamps_of(items)[i].len()
            == 0,
{
}

/// Pages are read one after the other up to the last that a reply announces, and a reply
/// that announces none is the only one. A page without matches ends the search.
pub proof fn law_pages_follow_each_other(
    resp: JsonValue,
    messages: JsonValue,
    pagination: JsonValue,
    items: Seq<JsonValue>,
    last: i64,
    page: u32,
)
    requires
        resp.field("messages"@) == Some(messages),
        messages.field("matches"@) == Some(JsonValue::Array(items)),
        page < u32::MAX,
    ensures
        items.len() == 0 ==> page_behind(resp, page) is None,
        items.len() > 0 && messages.field("pagination"@) == Some(pagination) && pagination.field(
            "page_count"@,
        ) == Some(JsonValue::Number(Some(last))) ==> page_behind(resp, page) == if page < last {
            Some((page + 1) as u32)
        } else {
            None
        },
        items.len() > 0 && messages.field("pagination"@) == Some(pagination) && !(pagination.field(
            "page_count"@,
        ) matches Some(JsonValue::Number(Some(n)))) ==> page_behind(resp, page) == if page < 1 {
            Some((page + 1) as u32)
        } else {
            None
        },
        items.len() > 0 && messages.field("pagination"@) is None ==> page_behind(resp, page)
            == if page < 1 {
            Some((page + 1) as u32)
        } else {
            None
        },
{
}

/// The address of a page of the search asks for what was searched, for a hundred matches a
/// page, and for the oldest first.
pub proof fn law_search_addresses(query: Seq<char>, page: u32)
    ensures
        ({
            let url = search_address(query, page);
            &&& before(url, '?') == "https://slack.com/api/search.messages"@
            &&& split(after(url, '?'), '&') == seq![
                "query="@ + percent_encoded(encode_utf8(query)),
                "count=100"@,
                "page="@ + decimal(page as int),
                "sort=timestamp"@,
                "sort_dir=asc"@,
            ]
        }),
{
    reveal_strlit("https://slack.com/api/search.messages?query=");
    reveal_strlit("https://slack.com/api/search.messages");
    reveal_strlit("query=");
    reveal_strlit("&count=100&page=");
    reveal_strlit("count=100");
    reveal_strlit("page=");
    reveal_strlit("&sort=timestamp&sort_dir=asc");
    reveal_strlit("sort=timestamp");
    reveal_strlit("sort_dir=asc");
    let encoded = percent_encoded(encode_utf8(query));
    let number = decimal(page as int);
    let one = "query="@ + encoded;
    let three = "page="@ + number;
    lemma_encoded_is_plain(encode_utf8(query), '&');
    lemma_decimal_is_plain(page as int, '&');
    lemma_both_without("query="@, encoded, '&');
    lemma_both_without("page="@, number, '&');
    let five = "sort_dir=asc"@;
    let four = "sort=timestamp"@ + seq!['&'] + five;
    let rest = three + seq!['&'] + four;
    let two = "count=100"@ + seq!['&'] + rest;
    let query_part = one + seq!['&'] + two;
    let url = search_address(query, page);
    let sides = "https://slack.com/api/search.messages"@ + seq!['?'] + query_part;
    assert(url.len() == sides.len());
    assert(url =~= sides);
    crate::text::law_first_division("https://slack.com/api/search.messages"@, query_part, '?');
    crate::text::lemma_split(five, Seq::empty(), '&');
    crate::text::lemma_split("sort=timestamp"@, five, '&');
    crate::text::lemma_split(three, four, '&');
    crate::text::lemma_split("count=100"@, rest, '&');
    crate::text::lemma_split(one, two, '&');
    assert(split(query_part, '&') =~= seq![
        one,
        "count=100"@,
        three,
        "sort=timestamp"@,
        five,
    ]);
}

proof fn lemma_both_without(a: Seq<char>, b: Seq<char>, c: char)
    requires
        !a.contains(c),
        !b.contains(c),
    ensures
        !(a + b).contains(c),
{
    let whole = a + b;
    assert forall|i: int| 0 <= i < whole.len() implies whole[i] != c by {
        if i < a.len() {
            assert(whole[i] == a[i]);
        } else {
            assert(whole[i] == b[i - a.len()]);
        }
    }
}

proof fn lemma_encoded_is_plain(bytes: Seq<u8>, c: char)
    requires
        c == '&',
    ensures
        !percent_encoded(bytes).contains(c),
    decreases bytes.len(),
{
    if bytes.len() > 0 {
        lemma_encoded_is_plain(bytes.drop_last(), c);
        let b: u8 = bytes.last();
        if crate::api::is_unreserved(b) {
            lemma_both_without(percent_encoded(bytes.drop_last()), seq![b as char], c);
        } else {
            lemma_both_without(
                percent_encoded(bytes.drop_last()),
                seq![
                    '%',
                    crate::api::hex_digit(b as int / 16),
                    crate::api::hex_digit(b as int % 16),
                ],
                c,
            );
        }
    }
}

proof fn lemma_decimal_is_plain(n: int, c: char)
    requires
        c == '&',
        n >= 0,
    ensures
        !decimal(n).contains(c),
{
    lemma_decimal_nat_is_plain(n as nat, c);
}

proof fn lemma_decimal_nat_is_plain(n: nat, c: char)
    requires
        c == '&',
    ensures
        !crate::number::decimal_nat(n).contains(c),
    decreases n,
{
    if n >= 10 {
        lemma_decimal_nat_is_plain(n / 10, c);
        let last = crate::number::digit_char((n % 10) as int);
        lemma_both_without(crate::number::decimal_nat(n / 10), seq![last], c);
        assert(crate::number::decimal_nat(n / 10).push(last) =~= crate::number::decimal_nat(n / 10)
            + seq![last]);
    }
}

/// A message that starts a thread joins it, and nothing else of it changes: it is the one
/// that some message of the same channel names as the one that it replies to. Every other
/// message stays as it is, each in its place.
pub proof fn law_thread_parents_join_their_thread(s: Seq<HistView>, i: int)
    requires
        0 <= i < s.len(),
    ensures
        tagged(s).len() == s.len(),
        tagged(s)[i].order == s[i].order,
        tagged(s)[i].ts_raw == s[i].ts_raw,
        tagged(s)[i].channel_id == s[i].channel_id,
        tagged(s)[i].user_id == s[i].user_id,
        tagged(s)[i].text == s[i].text,
        tagged(s)[i].note == s[i].note,
        s[i].thread_ts is Some ==> tagged(s)[i].thread_ts == s[i].thread_ts,
        s[i].thread_ts is None && (exists|j: int|
            0 <= j < s.len() && (#[trigger] s[j]).channel_id == s[i].channel_id && s[j].thread_ts
                == Some(s[i].ts_raw)) ==> tagged(s)[i].thread_ts == Some(s[i].ts_raw),
        s[i].thread_ts is None && (forall|j: int|
            0 <= j < s.len() && (#[trigger] s[j]).channel_id == s[i].channel_id ==> s[j].thread_ts
                != Some(s[i].ts_raw)) ==> tagged(s)[i].thread_ts is None,
{
}

/// A found message is recorded and shown with all its parts, under the tag of its thread in
/// its channel and with the users whom its text mentions, each once.
pub proof fn law_found_messages_are_recorded_and_shown_whole(m: HistView, parent: Seq<char>)
    ensures
        recorded(m).channel_id == m.channel_id && shown(m).channel_id == m.channel_id,
        recorded(m).ts == m.ts_raw,
        recorded(m).user_id == Some(m.user_id) && shown(m).user_id == m.user_id,
        recorded(m).text == m.text && shown(m).text == m.text,
        recorded(m).note == m.note && shown(m).note == m.note,
        recorded(m).thread_ts == m.thread_ts && shown(m).thread_ts == m.thread_ts,
        recorded(m).mentions == first_of_each(mention_ids(m.text)),
        m.thread_ts is None ==> recorded(m).thread_tag is None,
        m.thread_ts == Some(parent) ==> recorded(m).thread_tag == Some(
            tag_of(m.channel_id, parent),
        ),
{
}

/// One message more adds its own lines at the end of the output.
pub proof fn law_history_is_shown_in_order(
    messages: Seq<HistView>,
    ids: Seq<Option<i64>>,
    times: Seq<Seq<char>>,
    channels: Map<Seq<char>, Seq<char>>,
    users: Map<Seq<char>, Seq<char>>,
    color: bool,
    m: HistView,
    id: Option<i64>,
    time: Seq<char>,
)
    requires
        ids.len() == messages.len(),
        times.len() == messages.len(),
    ensures
        history_output(Seq::empty(), Seq::empty(), Seq::empty(), channels, users, color, 0).len()
            == 0,
        history_output(
            messages.push(m),
            ids.push(id),
            times.push(time),
            channels,
            users,
            color,
            messages.len() + 1,
        ) == history_output(messages, ids, times, channels, users, color, messages.len())
            + message_lines(id, time, shown(m), channels, users, color),
{
    lemma_output_in_front(
        messages,
        ids,
        times,
        channels,
        users,
        color,
        m,
        id,
        time,
        messages.len(),
    );
}

proof fn lemma_output_in_front(
    messages: Seq<HistView>,
    ids: Seq<Option<i64>>,
    times: Seq<Seq<char>>,
    channels: Map<Seq<char>, Seq<char>>,
    users: Map<Seq<char>, Seq<char>>,
    color: bool,
    m: HistView,
    id: Option<i64>,
    time: Seq<char>,
    n: nat,
)
    requires
        ids.len() == messages.len(),
        times.len() == messages.len(),
        n <= messages.len(),
    ensures
        history_output(
            messages.push(m),
            ids.push(id),
            times.push(time),
            channels,
            users,
            color,
            n,
        ) == history_output(messages, ids, times, channels, users, color, n),
    decreases n,
{
    if n > 0 {
        lemma_output_in_front(
            messages,
            ids,
            times,
            channels,
            users,
            color,
            m,
            id,
            time,
            (n - 1) as nat,
        );
    }
}

/// The header names the number of messages and the span of time that was asked for.
pub proof fn law_history_headers(count: nat, label: Seq<char>)
    ensures
        history_header(count, label) == "--- "@ + decimal(count as int)
            + " historical message(s) since "@ + label + " ---"@,
{
}

/// A page can be read where every match that is kept can be described: one match more
/// changes that only where it is in the window and cannot be.
pub proof fn law_pages_that_can_be_read(
    items: Seq<JsonValue>,
    orders: Seq<Option<i64>>,
    oldest: i64,
    item: JsonValue,
    at: i64,
)
    requires
        items.len() == orders.len(),
    ensures
        describable(Seq::empty(), Seq::empty(), oldest),
        at >= oldest ==> describable(items.push(item), orders.push(Some(at)), oldest) == (
        describable(items, orders, oldest) && call_span_fits(item)),
        at < oldest ==> describable(items.push(item), orders.push(Some(at)), oldest) == describable(
            items,
            orders,
            oldest,
        ),
        describable(items.push(item), orders.push(None), oldest) == describable(
            items,
            orders,
            oldest,
        ),
{
    lemma_describable(items, orders, oldest, item, Some(at));
    lemma_describable(items, orders, oldest, item, None);
}

proof fn lemma_describable(
    items: Seq<JsonValue>,
    orders: Seq<Option<i64>>,
    oldest: i64,
    item: JsonValue,
    order: Option<i64>,
)
    requires
        items.len() == orders.len(),
    ensures
        describable(items.push(item), orders.push(order), oldest) == (describable(
            items,
            orders,
            oldest,
        ) && (in_window(order, oldest) ==> call_span_fits(item))),
{
    let more = items.push(item);
    let all = orders.push(order);
    if describable(more, all, oldest) {
        assert forall|i: int|
            0 <= i < items.len() && in_window(orders[i], oldest) implies call_span_fits(
            #[trigger] items[i],
        ) by {
            assert(more[i] == items[i] && all[i] == orders[i]);
        }
        assert(more[items.len() as int] == item && all[items.len() as int] == order);
    }
    if describable(items, orders, oldest) && (in_window(order, oldest) ==> call_span_fits(item)) {
        assert forall|i: int|
            0 <= i < more.len() && in_window(all[i], oldest) implies call_span_fits(
            #[trigger] more[i],
        ) by {
            if i < items.len() {
                assert(more[i] == items[i] && all[i] == orders[i]);
            }
        }
    }
}

} // verus!
