//! Thread identity: the short tag shown for a thread, and the thread that a
//! permalink points into.
use vstd::prelude::*;
use vstd::string::*;
use vstd::utf8::*;

use crate::number::{digit, digit_char};
use crate::text::{
    after, before, chars_of, lemma_split, split, split_text, stands_at, starts_with, text_of, text_opt,
    texts,
};

verus! {

// ---------------------------------------------------------------------------
// Tags.
// ---------------------------------------------------------------------------

/// The 32-bit FNV-1a hash of `bytes`.
pub open spec fn fnv1a(bytes: Seq<u8>) -> u32
    decreases bytes.len(),
{
    if bytes.len() == 0 {
        0x811c_9dc5
    } else {
        (fnv1a(bytes.drop_last()) ^ bytes.last() as u32).wrapping_mul(0x0100_0193)
    }
}

/// The last four base-36 digits of `n`.
pub open spec fn base36(n: int) -> Seq<char> {
    seq![
        digit_char(n / 46656 % 36),
        digit_char(n / 1296 % 36),
        digit_char(n / 36 % 36),
        digit_char(n % 36),
    ]
}

/// The tag of the thread `thread_ts` of a channel: four base-36 digits of the hash
/// of the two ids, one after the other.
pub open spec fn tag_of(channel_id: Seq<char>, thread_ts: Seq<char>) -> Seq<char> {
    base36(fnv1a(encode_utf8(channel_id) + encode_utf8(thread_ts)) as int)
}

/// Goes on hashing with `bytes`, `hash` being the hash of what came before.
fn hash_on(hash: u32, bytes: &[u8], Ghost(done): Ghost<Seq<u8>>) -> (r: u32)
    requires
        hash == fnv1a(done),
    ensures
        r == fnv1a(done + bytes@),
{
    let mut h: u32 = hash;
    let mut i: usize = 0;
    assert(done + bytes@.take(0) =~= done);
    while i < bytes.len()
        invariant
            i <= bytes@.len(),
            h == fnv1a(done + bytes@.take(i as int)),
        decreases bytes@.len() - i,
    {
        let ghost next = done + bytes@.take(i + 1);
        assert(next.drop_last() =~= done + bytes@.take(i as int));
        assert(next.last() == bytes@[i as int]);
        h = (h ^ bytes[i] as u32).wrapping_mul(0x0100_0193);
        i += 1;
    }
    assert(bytes@.take(i as int) =~= bytes@);
    h
}

/// Folds Slack's own thread identity, channel and `thread_ts`, into four
/// characters that are stable across runs, so that filtering on the tag pulls up
/// every message of the thread.
pub fn thread_tag(channel_id: &str, thread_ts: &str) -> (r: String)
    ensures
        r@ == tag_of(channel_id@, thread_ts@),
{
    let start: u32 = 0x811c_9dc5;
    let part: u32 = hash_on(start, channel_id.as_bytes(), Ghost(Seq::empty()));
    assert(Seq::empty() + channel_id.spec_bytes() =~= channel_id.spec_bytes());
    let h: u32 = hash_on(part, thread_ts.as_bytes(), Ghost(channel_id.spec_bytes()));
    let mut out: String = String::new();
    out.push(digit(h / 46656 % 36));
    out.push(digit(h / 1296 % 36));
    out.push(digit(h / 36 % 36));
    out.push(digit(h % 36));
    assert(out@ =~= tag_of(channel_id@, thread_ts@));
    out
}

/// A tag is four characters, each a digit or a lower-case letter.
pub proof fn law_tag_shape(channel_id: Seq<char>, thread_ts: Seq<char>)
    ensures
        tag_of(channel_id, thread_ts).len() == 4,
        forall|i: int|
            0 <= i < 4 ==> {
                let ch = #[trigger] tag_of(channel_id, thread_ts)[i];
                '0' <= ch <= '9' || 'a' <= ch <= 'z'
            },
{
    let n = fnv1a(encode_utf8(channel_id) + encode_utf8(thread_ts)) as int;
    assert forall|i: int| 0 <= i < 4 implies {
        let ch = #[trigger] tag_of(channel_id, thread_ts)[i];
        '0' <= ch <= '9' || 'a' <= ch <= 'z'
    } by {
        let d = if i == 0 {
            n / 46656 % 36
        } else if i == 1 {
            n / 1296 % 36
        } else if i == 2 {
            n / 36 % 36
        } else {
            n % 36
        };
        assert(tag_of(channel_id, thread_ts)[i] == digit_char(d));
        assert(0 <= d < 36);
    }
}

// ---------------------------------------------------------------------------
// Permalinks.
// ---------------------------------------------------------------------------

/// What follows `key` in the first of `params` that begins with it.
pub open spec fn param_value(params: Seq<Seq<char>>, key: Seq<char>) -> Option<Seq<char>>
    decreases params.len(),
{
    if params.len() == 0 {
        None
    } else if starts_with(params[0], key) {
        Some(params[0].skip(key.len() as int))
    } else {
        param_value(params.drop_first(), key)
    }
}

/// The thread that a permalink points into: the `thread_ts` parameter of its query,
/// where it has a non-empty one.
pub open spec fn permalink_thread(permalink: Seq<char>) -> Option<Seq<char>> {
    let parts = split(permalink, '?');
    if parts.len() < 2 {
        None
    } else {
        match param_value(split(parts[1], '&'), "thread_ts="@) {
            Some(value) => if value.len() > 0 {
                Some(value)
            } else {
                None
            },
            None => None,
        }
    }
}

/// The thread of a search match: its permalink carries it as a query parameter, as in
/// `https://team.slack.com/archives/C123/p169...?thread_ts=1690000000.000100&cid=C123`.
/// Messages that are in no thread have no such parameter.
pub fn thread_ts_from_permalink(permalink: &str) -> (r: Option<String>)
    ensures
        text_opt(r) == permalink_thread(permalink@),
{
    let parts: Vec<String> = split_text(permalink, '?');
    assert(texts(parts@).len() == parts@.len());
    if parts.len() < 2 {
        return None;
    }
    assert(texts(parts@)[1] == parts@[1]@);
    let params: Vec<String> = split_text(parts[1].as_str(), '&');
    let key: Vec<char> = chars_of("thread_ts=");
    let ghost all = texts(params@);
    let mut i: usize = 0;
    assert(all.skip(0) =~= all);
    while i < params.len()
        invariant
            i <= params@.len(),
            all == texts(params@),
            key@ == "thread_ts="@,
            parts@.len() >= 2,
            texts(parts@) == split(permalink@, '?'),
            texts(parts@)[1] == parts@[1]@,
            all == split(parts@[1]@, '&'),
            param_value(all.skip(i as int), key@) == param_value(all, key@),
        decreases params@.len() - i,
    {
        let param: Vec<char> = chars_of(params[i].as_str());
        let ghost rest = all.skip(i as int);
        assert(rest[0] == param@);
        assert(param@.skip(0) =~= param@);
        if stands_at(&param, 0, &key) {
            if param.len() == key.len() {
                return None;
            }
            let value: String = text_of(&param, key.len(), param.len());
            assert(value@ =~= param@.skip(key@.len() as int));
            return Some(value);
        }
        assert(rest.drop_first() =~= all.skip(i + 1));
        i += 1;
    }
    assert(all.skip(i as int) =~= Seq::empty());
    None
}

/// One more byte is taken into the hash as FNV-1a does: by an exclusive or, and a product
/// modulo two to the power of 32.
pub proof fn law_hash_step(bytes: Seq<u8>, b: u8)
    ensures
        fnv1a(Seq::empty()) == 2_166_136_261,
        fnv1a(bytes.push(b)) == ((fnv1a(bytes) ^ (b as u32)) * 16_777_619) % 0x1_0000_0000,
{
    assert(bytes.push(b).drop_last() =~= bytes);
}

/// What a base 36 digit counts.
pub open spec fn digit_counts(ch: char) -> int {
    if '0' <= ch <= '9' {
        ch as int - '0' as int
    } else {
        ch as int - 'a' as int + 10
    }
}

/// A tag is the hash of channel and timestamp, written to base 36 in four digits: the digits
/// count its remainder modulo the fourth power of 36.
pub proof fn law_tag_counts_the_hash(channel_id: Seq<char>, thread_ts: Seq<char>)
    ensures
        ({
            let tag = tag_of(channel_id, thread_ts);
            digit_counts(tag[0]) * 46_656 + digit_counts(tag[1]) * 1_296 + digit_counts(tag[2]) * 36
                + digit_counts(tag[3]) == fnv1a(encode_utf8(channel_id) + encode_utf8(thread_ts))
                as int % 1_679_616
        }),
{
    let n = fnv1a(encode_utf8(channel_id) + encode_utf8(thread_ts)) as int;
    lemma_digit_counts(n / 46656 % 36);
    lemma_digit_counts(n / 1296 % 36);
    lemma_digit_counts(n / 36 % 36);
    lemma_digit_counts(n % 36);
    assert(n / 36 / 36 == n / 1296);
    assert(n / 1296 / 36 == n / 46656);
    assert(n / 46656 / 36 == n / 1_679_616);
}

proof fn lemma_digit_counts(d: int)
    requires
        0 <= d < 36,
    ensures
        digit_counts(digit_char(d)) == d,
{
}

/// The thread of a permalink is the value of the first parameter `thread_ts` of its query,
/// which begins behind the first question mark and ends before the second: other parameters
/// before it are passed over, what stands behind it does not matter, an empty value is none,
/// and so is a link without a query.
pub proof fn law_thread_of_a_permalink(
    head: Seq<char>,
    other: Seq<char>,
    rest: Seq<char>,
    value: Seq<char>,
    tail: Seq<char>,
)
    requires
        !head.contains('?'),
        !other.contains('?'),
        !other.contains('&'),
        !starts_with(other, seq!['t', 'h', 'r', 'e', 'a', 'd', '_', 't', 's', '=']),
        !rest.contains('?'),
        !value.contains('?'),
        !value.contains('&'),
        tail.len() > 0 ==> tail[0] == '?' || tail[0] == '&',
    ensures
        permalink_thread(head) is None,
        permalink_thread(head + seq!['?'] + other) is None,
        permalink_thread(head + seq!['?'] + (other + seq!['&'] + rest)) == permalink_thread(
            head + seq!['?'] + rest,
        ),
        permalink_thread(head + seq!['?'] + (rest + seq!['?'] + tail)) == permalink_thread(
            head + seq!['?'] + rest,
        ),
        permalink_thread(
            head + seq!['?'] + (seq!['t', 'h', 'r', 'e', 'a', 'd', '_', 't', 's', '='] + value
                + tail),
        ) == (if value.len() > 0 {
            Some(value)
        } else {
            None
        }),
{
    reveal_strlit("thread_ts=");
    let key = seq!['t', 'h', 'r', 'e', 'a', 'd', '_', 't', 's', '='];
    assert("thread_ts="@ =~= key);
    lemma_split(head, Seq::empty(), '?');
    // One other parameter alone.
    lemma_query(head, other, Seq::empty());
    lemma_split(other, Seq::empty(), '&');
    assert(seq![other].drop_first() =~= Seq::empty());
    assert(param_value(seq![other].drop_first(), key) is None);
    // One other parameter before the rest.
    let both = other + seq!['&'] + rest;
    assert forall|i: int| 0 <= i < both.len() implies both[i] != '?' by {
        if i < other.len() {
            assert(both[i] == other[i]);
        } else if i > other.len() {
            assert(both[i] == rest[i - other.len() - 1]);
        }
    }
    lemma_query(head, both, Seq::empty());
    lemma_query(head, rest, tail);
    lemma_split(other, rest, '&');
    assert((seq![other] + split(rest, '&')).drop_first() =~= split(rest, '&'));
    // The parameter itself.
    let first = key + value;
    assert forall|i: int| 0 <= i < first.len() implies first[i] != '?' && first[i] != '&' by {
        if i < key.len() {
            assert(first[i] == key[i]);
        } else {
            assert(first[i] == value[i - key.len()]);
        }
    }
    assert(first.take(key.len() as int) =~= key);
    assert(first.skip(key.len() as int) =~= value);
    lemma_split(first, Seq::empty(), '&');
    if tail.len() == 0 {
        assert(first + tail =~= first);
        lemma_query(head, first, Seq::empty());
    } else if tail[0] == '?' {
        assert(first + tail =~= first + seq!['?'] + tail.skip(1));
        lemma_query(head, first, tail.skip(1));
    } else {
        let more = tail.skip(1);
        let whole = first + tail;
        assert(whole =~= first + seq!['&'] + more);
        crate::text::law_before_and_after_make_up_the_text(more, '?');
        let inside = before(more, '?');
        let query = first + seq!['&'] + inside;
        assert forall|i: int| 0 <= i < query.len() implies query[i] != '?' by {
            if i < first.len() {
                assert(query[i] == first[i]);
            } else if i > first.len() {
                assert(query[i] == inside[i - first.len() - 1]);
            }
        }
        lemma_split(first, inside, '&');
        if more.contains('?') {
            assert(whole =~= query + seq!['?'] + after(more, '?'));
            lemma_query(head, query, after(more, '?'));
        } else {
            assert(whole =~= query);
            lemma_query(head, query, Seq::empty());
        }
    }
}

/// The query of a link, alone and with another question mark behind it.
proof fn lemma_query(head: Seq<char>, query: Seq<char>, more: Seq<char>)
    requires
        !head.contains('?'),
        !query.contains('?'),
    ensures
        split(head + seq!['?'] + query, '?').len() == 2,
        split(head + seq!['?'] + query, '?')[1] == query,
        split(head + seq!['?'] + (query + seq!['?'] + more), '?').len() >= 2,
        split(head + seq!['?'] + (query + seq!['?'] + more), '?')[1] == query,
{
    lemma_split(head, query, '?');
    lemma_split(query, more, '?');
    lemma_split(head, query + seq!['?'] + more, '?');
}

/// The value of a parameter is what stands behind its key in the first one that begins with
/// it.
pub proof fn law_parameters_are_found_by_key(
    params: Seq<Seq<char>>,
    key: Seq<char>,
    value: Seq<char>,
    other: Seq<char>,
)
    ensures
        param_value(Seq::empty(), key) is None,
        param_value(seq![key + value] + params, key) == Some(value),
        !starts_with(other, key) ==> param_value(seq![other] + params, key) == param_value(
            params,
            key,
        ),
{
    crate::text::law_starting_with(key + value, key, value);
    assert((key + value).skip(key.len() as int) =~= value);
    assert((seq![other] + params).drop_first() =~= params);
}

} // verus!
