//! Links back into Slack.
use vstd::prelude::*;
use vstd::string::*;

use crate::number::{decimal, push_signed};
use crate::store::MessageRef;
use crate::text::{
    after, before, law_first_division, replace, replace_text, split, starts_with, text_opt,
};
use crate::thread::{param_value, permalink_thread};

verus! {

/// The deep link to a message: the team, the conversation and the raw timestamp, and
/// the thread parent where there is one.
pub open spec fn app_link(
    team_id: Seq<char>,
    channel_id: Seq<char>,
    ts: Seq<char>,
    thread_ts: Option<Seq<char>>,
) -> Seq<char> {
    let url = "slack://channel?team="@ + team_id + "&id="@ + channel_id + "&message="@ + ts;
    match thread_ts {
        Some(parent) => url + "&thread_ts="@ + parent,
        None => url,
    }
}

/// The permalink to a message: the workspace's host, the conversation and the
/// timestamp without its dot, and the thread parent where there is one.
pub open spec fn web_link(
    domain: Seq<char>,
    channel_id: Seq<char>,
    ts: Seq<char>,
    thread_ts: Option<Seq<char>>,
) -> Seq<char> {
    let url = "https://"@ + domain + "/archives/"@ + channel_id + "/p"@ + replace(ts, "."@, ""@);
    match thread_ts {
        Some(parent) => url + "?thread_ts="@ + parent + "&cid="@ + channel_id,
        None => url,
    }
}

/// The `slack://` link that opens a message in the desktop app.
pub fn app_url(team_id: &str, m: &MessageRef) -> (r: String)
    ensures
        r@ == app_link(team_id@, m.channel_id@, m.ts@, text_opt(m.thread_ts)),
{
    let mut url: String = String::new();
    url.append("slack://channel?team=");
    url.append(team_id);
    url.append("&id=");
    url.append(m.channel_id.as_str());
    url.append("&message=");
    url.append(m.ts.as_str());
    assert(url@ =~= app_link(team_id@, m.channel_id@, m.ts@, None));
    match &m.thread_ts {
        Some(parent) => {
            url.append("&thread_ts=");
            url.append(parent.as_str());
        },
        None => {},
    }
    url
}

/// The `https://` permalink of a message.
pub fn web_url(domain: &str, m: &MessageRef) -> (r: String)
    ensures
        r@ == web_link(domain@, m.channel_id@, m.ts@, text_opt(m.thread_ts)),
{
    proof {
        reveal_strlit(".");
    }
    let mut url: String = String::new();
    url.append("https://");
    url.append(domain);
    url.append("/archives/");
    url.append(m.channel_id.as_str());
    url.append("/p");
    let ts: String = replace_text(m.ts.as_str(), ".", "");
    url.append(ts.as_str());
    assert(url@ =~= web_link(domain@, m.channel_id@, m.ts@, None));
    match &m.thread_ts {
        Some(parent) => {
            url.append("?thread_ts=");
            url.append(parent.as_str());
            url.append("&cid=");
            url.append(m.channel_id.as_str());
        },
        None => {},
    }
    url
}

/// The recorded fact that a link needs: the workspace's host for a permalink, the
/// team id for a deep link.
pub open spec fn needed_fact(web: bool) -> Seq<char> {
    if web {
        "workspace_domain"@
    } else {
        "team_id"@
    }
}

/// The key of the recorded fact that a link needs.
pub fn meta_key(web: bool) -> (r: &'static str)
    ensures
        r@ == needed_fact(web),
{
    if web {
        "workspace_domain"
    } else {
        "team_id"
    }
}

/// Why no link can be given, or the link: the message `id` of the database at `path`
/// has to be there, and so has the fact that the link needs.
pub open spec fn link_result(
    path: Seq<char>,
    id: i64,
    web: bool,
    message: Option<MessageRef>,
    fact: Option<Seq<char>>,
) -> Result<Seq<char>, Seq<char>> {
    match message {
        None => Err("no message with id "@ + decimal(id as int) + " in "@ + path),
        Some(m) => match fact {
            None => Err(
                needed_fact(web) + " isn't recorded in "@ + path
                    + " yet — run once with --sql (online) so it can be fetched"@,
            ),
            Some(value) => Ok(
                if web {
                    web_link(value, m.channel_id@, m.ts@, text_opt(m.thread_ts))
                } else {
                    app_link(value, m.channel_id@, m.ts@, text_opt(m.thread_ts))
                },
            ),
        },
    }
}

/// Turns a looked-up message into the link that is printed for it. Printing rather
/// than opening keeps the caller free to do either.
pub fn print_link(
    path: &str,
    id: i64,
    web: bool,
    message: Option<MessageRef>,
    fact: Option<&str>,
) -> (r: Result<String, String>)
    ensures
        link_result(path@, id, web, message, crate::text::str_opt(fact)) == (match r {
            Ok(url) => Ok::<Seq<char>, Seq<char>>(url@),
            Err(why) => Err(why@),
        }),
{
    match message {
        None => {
            let mut why: String = String::new();
            why.append("no message with id ");
            push_signed(&mut why, id);
            why.append(" in ");
            why.append(path);
            assert(why@ =~= "no message with id "@ + decimal(id as int) + " in "@ + path@);
            Err(why)
        },
        Some(m) => match fact {
            None => {
                let mut why: String = String::new();
                why.append(meta_key(web));
                why.append(" isn't recorded in ");
                why.append(path);
                why.append(" yet — run once with --sql (online) so it can be fetched");
                assert(why@ =~= needed_fact(web) + " isn't recorded in "@ + path@
                    + " yet — run once with --sql (online) so it can be fetched"@);
                Err(why)
            },
            Some(value) => if web {
                Ok(web_url(value, &m))
            } else {
                Ok(app_url(value, &m))
            },
        },
    }
}

// ---------------------------------------------------------------------------
// Laws.
// ---------------------------------------------------------------------------

/// Taking characters out adds none.
proof fn lemma_removal_adds_nothing(s: Seq<char>, pat: Seq<char>, ch: char)
    requires
        pat.len() > 0,
        !s.contains(ch),
    ensures
        !replace(s, pat, Seq::empty()).contains(ch),
    decreases s.len(),
{
    if s.len() > 0 {
        if starts_with(s, pat) {
            let rest = s.skip(pat.len() as int);
            assert forall|i: int| 0 <= i < rest.len() implies rest[i] != ch by {
                assert(rest[i] == s[i + pat.len()]);
            }
            lemma_removal_adds_nothing(rest, pat, ch);
            assert(Seq::empty() + replace(rest, pat, Seq::empty()) =~= replace(
                rest,
                pat,
                Seq::empty(),
            ));
        } else {
            let rest = s.drop_first();
            assert forall|i: int| 0 <= i < rest.len() implies rest[i] != ch by {
                assert(rest[i] == s[i + 1]);
            }
            lemma_removal_adds_nothing(rest, pat, ch);
            let more = replace(rest, pat, Seq::empty());
            assert(s[0] != ch);
            assert forall|i: int| 0 <= i < (seq![s[0]] + more).len() implies (seq![s[0]] + more)[i]
                != ch by {
                if i > 0 {
                    assert((seq![s[0]] + more)[i] == more[i - 1]);
                }
            }
        }
    }
}

/// A permalink leads back to the thread that it was made for, and to none where it
/// was made for none. The parts must not hold the characters that divide a link.
pub proof fn law_permalink_leads_back_to_its_thread(
    domain: Seq<char>,
    channel_id: Seq<char>,
    ts: Seq<char>,
    thread_ts: Option<Seq<char>>,
)
    requires
        !domain.contains('?'),
        !channel_id.contains('?'),
        !ts.contains('?'),
        thread_ts matches Some(parent) ==> parent.len() > 0 && !parent.contains('?')
            && !parent.contains('&'),
    ensures
        permalink_thread(web_link(domain, channel_id, ts, thread_ts)) == thread_ts,
{
    reveal_strlit("https://");
    reveal_strlit("/archives/");
    reveal_strlit("/p");
    reveal_strlit("?thread_ts=");
    reveal_strlit("thread_ts=");
    reveal_strlit("&cid=");
    reveal_strlit(".");
    reveal_strlit("");
    assert(""@ =~= Seq::empty());
    let number = replace(ts, "."@, ""@);
    lemma_removal_adds_nothing(ts, "."@, '?');
    let url = web_link(domain, channel_id, ts, None);
    assert(!url.contains('?')) by {
        assert forall|i: int| 0 <= i < url.len() implies url[i] != '?' by {
            let a = "https://"@.len();
            let b = a + domain.len();
            let d = b + "/archives/"@.len();
            let e = d + channel_id.len();
            let f = e + "/p"@.len();
            if i < a {
                assert(url[i] == "https://"@[i]);
            } else if i < b {
                assert(url[i] == domain[i - a]);
            } else if i < d {
                assert(url[i] == "/archives/"@[i - b]);
            } else if i < e {
                assert(url[i] == channel_id[i - d]);
            } else if i < f {
                assert(url[i] == "/p"@[i - e]);
            } else {
                assert(url[i] == number[i - f]);
            }
        }
    }
    crate::text::lemma_split(url, Seq::empty(), '?');
    if let Some(parent) = thread_ts {
        let first = "thread_ts="@ + parent;
        let second = "&cid="@.skip(1) + channel_id;
        let query = first + seq!['&'] + second;
        let whole = web_link(domain, channel_id, ts, thread_ts);
        assert(whole =~= url + seq!['?'] + query);
        assert forall|i: int| 0 <= i < first.len() implies first[i] != '?' && first[i] != '&' by {
            if i < 10 {
                assert(first[i] == "thread_ts="@[i]);
            } else {
                assert(first[i] == parent[i - 10]);
            }
        }
        assert forall|i: int| 0 <= i < query.len() implies query[i] != '?' by {
            if i < first.len() {
                assert(query[i] == first[i]);
            } else if i > first.len() {
                assert(query[i] == second[i - first.len() - 1]);
                if i - first.len() - 1 < 4 {
                    assert(second[i - first.len() - 1] == "&cid="@[i - first.len()]);
                } else {
                    assert(second[i - first.len() - 1] == channel_id[i - first.len() - 5]);
                }
            }
        }
        crate::text::lemma_split(url, query, '?');
        crate::text::lemma_split(query, Seq::empty(), '?');
        crate::text::lemma_split(first, second, '&');
        assert(split(whole, '?')[1] == query);
        assert(first.take(10) =~= "thread_ts="@);
        assert(first.skip(10) =~= parent);
        assert(split(query, '&')[0] == first);
        assert(param_value(split(query, '&'), "thread_ts="@) == Some(parent));
    }
}

/// The parts of a text that is joined from parts without the separator.
proof fn lemma_two_parts(a: Seq<char>, b: Seq<char>, c: char)
    requires
        !a.contains(c),
        !b.contains(c),
    ensures
        split(a + seq![c] + b, c) == seq![a, b],
{
    crate::text::lemma_split(b, Seq::empty(), c);
    crate::text::lemma_split(a, b, c);
    assert(seq![a] + seq![b] =~= seq![a, b]);
}

proof fn lemma_put_together(key: Seq<char>, value: Seq<char>, c: char)
    requires
        !key.contains(c),
        !value.contains(c),
    ensures
        !(key + value).contains(c),
{
    let whole = key + value;
    assert forall|i: int| 0 <= i < whole.len() implies whole[i] != c by {
        if i < key.len() {
            assert(whole[i] == key[i]);
        } else {
            assert(whole[i] == value[i - key.len()]);
        }
    }
}

/// A deep link leads back to what it was made for: it opens a channel, and its query gives
/// the team, the channel, the message and, where there is one, the thread, each as it was,
/// and nothing else. The parts must not hold the character that divides a query.
pub proof fn law_deep_link_leads_back(
    team_id: Seq<char>,
    channel_id: Seq<char>,
    ts: Seq<char>,
    thread_ts: Option<Seq<char>>,
)
    requires
        !team_id.contains('&'),
        !channel_id.contains('&'),
        !ts.contains('&'),
        thread_ts matches Some(parent) ==> !parent.contains('&'),
    ensures
        ({
            let url = app_link(team_id, channel_id, ts, thread_ts);
            let params = split(after(url, '?'), '&');
            &&& before(url, '?') == "slack://channel"@
            &&& params == match thread_ts {
                Some(parent) => seq![
                    "team="@ + team_id,
                    "id="@ + channel_id,
                    "message="@ + ts,
                    "thread_ts="@ + parent,
                ],
                None => seq!["team="@ + team_id, "id="@ + channel_id, "message="@ + ts],
            }
            &&& param_value(params, "thread_ts="@) == thread_ts
        }),
{
    reveal_strlit("slack://channel?team=");
    reveal_strlit("slack://channel");
    reveal_strlit("team=");
    reveal_strlit("&id=");
    reveal_strlit("id=");
    reveal_strlit("&message=");
    reveal_strlit("message=");
    reveal_strlit("&thread_ts=");
    reveal_strlit("thread_ts=");
    let one = "team="@ + team_id;
    let two = "id="@ + channel_id;
    let three = "message="@ + ts;
    lemma_put_together("team="@, team_id, '&');
    lemma_put_together("id="@, channel_id, '&');
    lemma_put_together("message="@, ts, '&');
    let plain = one + seq!['&'] + (two + seq!['&'] + three);
    lemma_two_parts(two, three, '&');
    crate::text::lemma_split(one, two + seq!['&'] + three, '&');
    let url = app_link(team_id, channel_id, ts, thread_ts);
    assert(three[0] == 'm' && two[0] == 'i' && one[0] == 't' && one[1] == 'e');
    match thread_ts {
        None => {
            assert(url =~= "slack://channel"@ + seq!['?'] + plain);
            law_first_division("slack://channel"@, plain, '?');
            assert(split(plain, '&') =~= seq![one, two, three]);
            reveal_with_fuel(param_value, 4);
            lemma_other_parameters(one, two, three);
            assert(seq![one, two, three].drop_first() =~= seq![two, three]);
            assert(seq![two, three].drop_first() =~= seq![three]);
            assert(seq![three].drop_first() =~= Seq::empty());
        },
        Some(parent) => {
            let four = "thread_ts="@ + parent;
            lemma_put_together("thread_ts="@, parent, '&');
            let last = three + seq!['&'] + four;
            let whole = one + seq!['&'] + (two + seq!['&'] + last);
            assert(url =~= "slack://channel"@ + seq!['?'] + whole);
            law_first_division("slack://channel"@, whole, '?');
            lemma_two_parts(three, four, '&');
            crate::text::lemma_split(two, last, '&');
            crate::text::lemma_split(one, two + seq!['&'] + last, '&');
            assert(split(whole, '&') =~= seq![one, two, three, four]);
            reveal_with_fuel(param_value, 5);
            lemma_other_parameters(one, two, three);
            assert(seq![one, two, three, four].drop_first() =~= seq![two, three, four]);
            assert(seq![two, three, four].drop_first() =~= seq![three, four]);
            assert(seq![three, four].drop_first() =~= seq![four]);
            crate::text::law_starting_with(four, "thread_ts="@, parent);
            assert(four.skip("thread_ts="@.len() as int) =~= parent);
        },
    }
}

/// Whatever its parts hold, a deep link into a thread is the deep link to the message with
/// the thread added as one more parameter.
pub proof fn law_deep_link_into_a_thread(
    team_id: Seq<char>,
    channel_id: Seq<char>,
    ts: Seq<char>,
    parent: Seq<char>,
)
    ensures
        app_link(team_id, channel_id, ts, Some(parent)) == app_link(team_id, channel_id, ts, None)
            + "&thread_ts="@ + parent,
        app_link(team_id, channel_id, ts, None) == "slack://channel?team="@ + team_id + "&id="@
            + channel_id + "&message="@ + ts,
{
}

proof fn lemma_other_parameters(one: Seq<char>, two: Seq<char>, three: Seq<char>)
    requires
        one.len() > 1 && one[1] == 'e',
        two.len() > 0 && two[0] == 'i',
        three.len() > 0 && three[0] == 'm',
    ensures
        !starts_with(one, "thread_ts="@),
        !starts_with(two, "thread_ts="@),
        !starts_with(three, "thread_ts="@),
{
    reveal_strlit("thread_ts=");
    let n = "thread_ts="@.len() as int;
    if starts_with(one, "thread_ts="@) {
        assert(one.take(n)[1] == one[1]);
    }
    if starts_with(two, "thread_ts="@) {
        assert(two.take(n)[0] == two[0]);
    }
    if starts_with(three, "thread_ts="@) {
        assert(three.take(n)[0] == three[0]);
    }
}

proof fn lemma_dots_are_dropped(a: Seq<char>, b: Seq<char>)
    ensures
        replace(a + seq!['.'] + b, seq!['.'], Seq::empty()) == replace(
            a + b,
            seq!['.'],
            Seq::empty(),
        ),
    decreases a.len(),
{
    let s = a + seq!['.'] + b;
    if a.len() == 0 {
        assert(s.take(1) =~= seq!['.']);
        assert(s.skip(1) =~= b);
        assert(a + b =~= b);
        assert(Seq::empty() + replace(b, seq!['.'], Seq::empty()) =~= replace(
            b,
            seq!['.'],
            Seq::empty(),
        ));
    } else {
        let more = a.drop_first();
        lemma_dots_are_dropped(more, b);
        assert(s.drop_first() =~= more + seq!['.'] + b);
        assert((a + b).drop_first() =~= more + b);
        assert(s.skip(1) =~= s.drop_first());
        assert((a + b).skip(1) =~= (a + b).drop_first());
        assert(s.take(1) =~= seq![a[0]]);
        assert((a + b).take(1) =~= seq![a[0]]);
    }
}

/// A permalink spells a timestamp without its dots: one dot more or less changes nothing.
pub proof fn law_permalinks_drop_the_dots(
    domain: Seq<char>,
    channel_id: Seq<char>,
    a: Seq<char>,
    b: Seq<char>,
    thread_ts: Option<Seq<char>>,
)
    ensures
        web_link(domain, channel_id, a + seq!['.'] + b, thread_ts) == web_link(
            domain,
            channel_id,
            a + b,
            thread_ts,
        ),
{
    reveal_strlit(".");
    reveal_strlit("");
    assert("."@ =~= seq!['.']);
    assert(""@ =~= Seq::empty());
    lemma_dots_are_dropped(a, b);
}

/// A permalink leads back to what it was made for: its path gives the host, the channel and
/// the digits of the timestamp, and its query, where there is a thread, the thread and the
/// channel again, and nothing else.
pub proof fn law_permalink_names_its_message(
    domain: Seq<char>,
    channel_id: Seq<char>,
    digits: Seq<char>,
    thread_ts: Option<Seq<char>>,
)
    requires
        !digits.contains('.'),
    ensures
        web_link(domain, channel_id, digits, None) == "https://"@ + domain + "/archives/"@
            + channel_id + "/p"@ + digits,
        thread_ts matches Some(parent) ==> web_link(domain, channel_id, digits, thread_ts)
            == web_link(domain, channel_id, digits, None) + "?thread_ts="@ + parent + "&cid="@
            + channel_id,
{
    reveal_strlit(".");
    assert forall|i: int| !#[trigger] crate::text::occurs_at(digits, "."@, i) by {
        if crate::text::occurs_at(digits, "."@, i) {
            assert(digits.subrange(i, i + 1)[0] == digits[i]);
        }
    }
    crate::text::law_nothing_to_replace(digits, "."@, ""@);
}

/// A link is given exactly where the message is recorded and the fact that its form needs:
/// the host for a permalink, the team for a deep link. What is missing is named otherwise.
pub proof fn law_links_need_message_and_fact(
    path: Seq<char>,
    id: i64,
    web: bool,
    m: MessageRef,
    value: Seq<char>,
)
    ensures
        link_result(path, id, true, Some(m), Some(value)) == Ok::<Seq<char>, Seq<char>>(
            web_link(value, m.channel_id@, m.ts@, text_opt(m.thread_ts)),
        ),
        link_result(path, id, false, Some(m), Some(value)) == Ok::<Seq<char>, Seq<char>>(
            app_link(value, m.channel_id@, m.ts@, text_opt(m.thread_ts)),
        ),
        forall|fact: Option<Seq<char>>| #[trigger]
            link_result(path, id, web, None, fact) == Err::<Seq<char>, Seq<char>>(
                "no message with id "@ + decimal(id as int) + " in "@ + path,
            ),
        link_result(path, id, true, Some(m), None) == Err::<Seq<char>, Seq<char>>(
            "workspace_domain"@ + " isn't recorded in "@ + path
                + " yet — run once with --sql (online) so it can be fetched"@,
        ),
        link_result(path, id, false, Some(m), None) == Err::<Seq<char>, Seq<char>>(
            "team_id"@ + " isn't recorded in "@ + path
                + " yet — run once with --sql (online) so it can be fetched"@,
        ),
        needed_fact(true) == "workspace_domain"@,
        needed_fact(false) == "team_id"@,
{
}

} // verus!
