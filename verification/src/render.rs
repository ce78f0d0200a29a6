//! The lines that are shown for messages.
use vstd::prelude::*;
use vstd::string::*;

use crate::clock::{format_slack_ts, is_shown_time};
use crate::color::{c, painted, BLUE, CYAN, GREEN, MAGENTA, RESET};
use crate::markup::{
    decode_html_entities, decoded, emojified, entity, escaped, law_decoding_undoes_escaping,
    law_text_without_references_is_untouched, opens_reference, resolve_emoji, resolve_mentions,
    resolved,
};
use crate::names::{name_or_id, NameMap};
use crate::number::{
    decimal, decimal_nat, is_digit, law_written_numbers_are_read_back, lemma_decimal_nat, push_signed,
    read_i64,
};
use crate::text::{before, lemma_find_is, split, split_text, str_opt, texts};
use crate::thread::{tag_of, thread_tag};

verus! {

/// The parts of a message that its lines are made from.
pub struct Shown {
    pub channel_id: Seq<char>,
    pub user_id: Seq<char>,
    pub text: Seq<char>,
    pub note: Option<Seq<char>>,
    pub thread_ts: Option<Seq<char>>,
}

/// The text of a message as it is shown: references resolved, then entities decoded,
/// then emoji.
pub open spec fn shown_text(
    text: Seq<char>,
    channels: Map<Seq<char>, Seq<char>>,
    users: Map<Seq<char>, Seq<char>>,
    color: bool,
) -> Seq<char> {
    emojified(decoded(resolved(text, channels, users, color)))
}

/// The body of a line: the label leads the text; where there is no text it is the body.
pub open spec fn body(note: Option<Seq<char>>, text: Seq<char>) -> Seq<char> {
    match note {
        Some(n) => if text.len() == 0 {
            n
        } else {
            n + " "@ + text
        },
        None => text,
    }
}

/// The tag of the thread that a message belongs to, where it belongs to one.
pub open spec fn shown_thread(channel_id: Seq<char>, thread_ts: Option<Seq<char>>, color: bool) -> Seq<
    char,
> {
    match thread_ts {
        Some(t) => " "@ + painted(color, MAGENTA@, "[t:"@ + tag_of(channel_id, t) + "]"@),
        None => Seq::empty(),
    }
}

/// The line of a message, before it is divided at its line breaks.
pub open spec fn message_line(
    time: Seq<char>,
    m: Shown,
    channels: Map<Seq<char>, Seq<char>>,
    users: Map<Seq<char>, Seq<char>>,
    color: bool,
) -> Seq<char> {
    painted(color, GREEN@, "["@ + time + "]"@) + " "@ + painted(
        color,
        BLUE@,
        "["@ + name_or_id(channels, m.channel_id) + "]"@,
    ) + shown_thread(m.channel_id, m.thread_ts, color) + " "@ + painted(
        color,
        CYAN@,
        name_or_id(users, m.user_id),
    ) + ": "@ + body(m.note, shown_text(m.text, channels, users, color))
}

/// A line with the message's database id in front.
pub open spec fn with_id(id: i64, line: Seq<char>) -> Seq<char> {
    decimal(id as int) + " "@ + line
}

/// What is printed for a message, one line each. A message may span several lines; with
/// an id every one of them carries it.
pub open spec fn message_lines(
    id: Option<i64>,
    time: Seq<char>,
    m: Shown,
    channels: Map<Seq<char>, Seq<char>>,
    users: Map<Seq<char>, Seq<char>>,
    color: bool,
) -> Seq<Seq<char>> {
    let line = message_line(time, m, channels, users, color);
    match id {
        Some(id) => split(line, '\n').map_values(|l: Seq<char>| with_id(id, l)),
        None => seq![line],
    }
}

/// Appends `[`, `body` and `]` in the colour of `code`.
fn push_bracketed(out: &mut String, color: bool, code: &'static str, body: &str)
    ensures
        final(out)@ == old(out)@ + painted(color, code@, "["@ + body@ + "]"@),
{
    out.append(c(color, code));
    out.append("[");
    out.append(body);
    out.append("]");
    out.append(c(color, RESET));
    assert(out@ =~= old(out)@ + painted(color, code@, "["@ + body@ + "]"@));
}

/// What is printed for a message at the given time.
#[verifier::rlimit(40)]
pub fn render_message(
    id: Option<i64>,
    time: &str,
    channel_id: &str,
    user_id: &str,
    text: &str,
    note: Option<&str>,
    thread_ts: Option<&str>,
    channels: &NameMap,
    users: &NameMap,
    color: bool,
) -> (r: Vec<String>)
    ensures
        texts(r@) == message_lines(
            id,
            time@,
            Shown {
                channel_id: channel_id@,
                user_id: user_id@,
                text: text@,
                note: str_opt(note),
                thread_ts: str_opt(thread_ts),
            },
            channels@,
            users@,
            color,
        ),
{
    let ghost m = Shown {
        channel_id: channel_id@,
        user_id: user_id@,
        text: text@,
        note: str_opt(note),
        thread_ts: str_opt(thread_ts),
    };
    let text: String = resolve_mentions(text, channels, users, color);
    let text: String = decode_html_entities(text.as_str());
    let text: String = resolve_emoji(text.as_str());
    let mut line: String = String::new();
    push_bracketed(&mut line, color, GREEN, time);
    line.append(" ");
    push_bracketed(&mut line, color, BLUE, channels.name_or_id(channel_id));
    let ghost head = painted(color, GREEN@, "["@ + time@ + "]"@) + " "@ + painted(
        color,
        BLUE@,
        "["@ + name_or_id(channels@, channel_id@) + "]"@,
    );
    assert(line@ =~= head);
    if let Some(t) = thread_ts {
        let tag: String = thread_tag(channel_id, t);
        line.append(" ");
        line.append(c(color, MAGENTA));
        line.append("[t:");
        line.append(tag.as_str());
        line.append("]");
        line.append(c(color, RESET));
    }
    assert(line@ =~= head + shown_thread(channel_id@, m.thread_ts, color));
    let ghost tagged = line@;
    line.append(" ");
    line.append(c(color, CYAN));
    line.append(users.name_or_id(user_id));
    line.append(c(color, RESET));
    line.append(": ");
    let ghost named = tagged + " "@ + painted(color, CYAN@, name_or_id(users@, user_id@)) + ": "@;
    assert(line@ =~= named);
    match note {
        Some(n) => {
            line.append(n);
            if !text.as_str().is_empty() {
                line.append(" ");
                line.append(text.as_str());
            }
        },
        None => {
            line.append(text.as_str());
        },
    }
    assert(line@ =~= named + body(m.note, text@));
    assert(line@ == message_line(time@, m, channels@, users@, color));
    let mut lines: Vec<String> = Vec::new();
    match id {
        None => {
            lines.push(line);
            assert(texts(lines@) =~= seq![line@]);
        },
        Some(id) => {
            let parts: Vec<String> = split_text(line.as_str(), '\n');
            let mut i: usize = 0;
            while i < parts.len()
                invariant
                    i <= parts@.len(),
                    lines@.len() == i,
                    forall|j: int| 0 <= j < i ==> #[trigger] lines@[j]@ == with_id(id, parts@[j]@),
                decreases parts@.len() - i,
            {
                let mut one: String = String::new();
                push_signed(&mut one, id);
                one.append(" ");
                one.append(parts[i].as_str());
                assert(one@ =~= with_id(id, parts@[i as int]@));
                lines.push(one);
                i += 1;
            }
            assert(texts(lines@) =~= texts(parts@).map_values(|l: Seq<char>| with_id(id, l)));
        },
    }
    lines
}

/// What is printed for a message whose timestamp is `seconds`; where it has none, or one
/// without a date, the current time is shown.
pub fn print_message(
    id: Option<i64>,
    seconds: Option<i64>,
    channel_id: &str,
    user_id: &str,
    text: &str,
    note: Option<&str>,
    thread_ts: Option<&str>,
    channels: &NameMap,
    users: &NameMap,
    color: bool,
) -> (r: Vec<String>)
    ensures
        exists|time: Seq<char>|
            is_shown_time(time, seconds) && texts(r@) == #[trigger] message_lines(
                id,
                time,
                Shown {
                    channel_id: channel_id@,
                    user_id: user_id@,
                    text: text@,
                    note: str_opt(note),
                    thread_ts: str_opt(thread_ts),
                },
                channels@,
                users@,
                color,
            ),
{
    let time: String = format_slack_ts(seconds);
    render_message(
        id,
        time.as_str(),
        channel_id,
        user_id,
        text,
        note,
        thread_ts,
        channels,
        users,
        color,
    )
}

// ---------------------------------------------------------------------------
// Laws.
// ---------------------------------------------------------------------------

/// The parts of a text hold no separator, and there is at least one.
proof fn lemma_split_parts(s: Seq<char>, ch: char)
    ensures
        split(s, ch).len() >= 1,
        forall|i: int| 0 <= i < split(s, ch).len() ==> !(#[trigger] split(s, ch)[i]).contains(ch),
    decreases s.len(),
{
    crate::text::lemma_find(s, ch);
    if crate::text::find(s, ch) < s.len() {
        let head = crate::text::before(s, ch);
        let tail = crate::text::after(s, ch);
        lemma_split_parts(tail, ch);
        assert forall|i: int| 0 <= i < split(s, ch).len() implies !(#[trigger] split(
            s,
            ch,
        )[i]).contains(ch) by {
            if i == 0 {
                assert(split(s, ch)[0] == head);
            } else {
                assert(split(s, ch)[i] == split(tail, ch)[i - 1]);
            }
        }
    }
}

/// With an id, every line that is printed carries it, and none of them breaks into
/// further lines, so that any line can be turned back into its message.
pub proof fn law_every_line_carries_the_id(
    id: i64,
    time: Seq<char>,
    m: Shown,
    channels: Map<Seq<char>, Seq<char>>,
    users: Map<Seq<char>, Seq<char>>,
    color: bool,
)
    ensures
        message_lines(Some(id), time, m, channels, users, color).len() == split(
            message_line(time, m, channels, users, color),
            '\n',
        ).len() >= 1,
        forall|i: int|
            0 <= i < message_lines(Some(id), time, m, channels, users, color).len() ==> {
                let part = split(message_line(time, m, channels, users, color), '\n')[i];
                #[trigger] message_lines(Some(id), time, m, channels, users, color)[i] == with_id(
                    id,
                    part,
                ) && !part.contains('\n')
            },
{
    lemma_split_parts(message_line(time, m, channels, users, color), '\n');
}

/// The first word of every line that is printed with an id reads as that id, so that any
/// line can be handed back to get a link to its message.
pub proof fn law_first_word_of_every_line_is_the_id(
    id: i64,
    time: Seq<char>,
    m: Shown,
    channels: Map<Seq<char>, Seq<char>>,
    users: Map<Seq<char>, Seq<char>>,
    color: bool,
    i: int,
)
    requires
        0 <= i < message_lines(Some(id), time, m, channels, users, color).len(),
    ensures
        read_i64(before(message_lines(Some(id), time, m, channels, users, color)[i], ' ')) == Some(
            id,
        ),
{
    law_every_line_carries_the_id(id, time, m, channels, users, color);
    law_written_numbers_are_read_back(id as int);
    reveal_strlit(" ");
    let line = message_lines(Some(id), time, m, channels, users, color)[i];
    let part = split(message_line(time, m, channels, users, color), '\n')[i];
    let word = decimal(id as int);
    assert(line == with_id(id, part));
    assert forall|k: int| 0 <= k < word.len() implies line[k] != ' ' by {
        let n = if id < 0 {
            -id
        } else {
            id as int
        };
        let digits = decimal_nat(n as nat);
        lemma_decimal_nat(n as nat);
        assert(line[k] == word[k]);
        if id < 0 {
            if k > 0 {
                assert(word[k] == digits[k - 1]);
                assert(is_digit(digits[k - 1]));
            }
        } else {
            assert(is_digit(digits[k]));
        }
    }
    assert(line[word.len() as int] == ' ');
    lemma_find_is(line, ' ', word.len() as int);
    assert(before(line, ' ') =~= word);
}

proof fn lemma_escaped_holds_no_bracket(text: Seq<char>)
    ensures
        !escaped(text).contains('<'),
    decreases text.len(),
{
    reveal_strlit("&lt;");
    reveal_strlit("&gt;");
    reveal_strlit("&amp;");
    if text.len() > 0 {
        let first = entity(text[0]);
        let rest = escaped(text.drop_first());
        lemma_escaped_holds_no_bracket(text.drop_first());
        assert(!first.contains('<'));
        assert forall|i: int| 0 <= i < (first + rest).len() implies (first + rest)[i] != '<' by {
            if i < first.len() {
                assert((first + rest)[i] == first[i]);
            } else {
                assert((first + rest)[i] == rest[i - first.len()]);
            }
        }
    }
}

/// What a human typed, and Slack escaped, is shown as it was typed, apart from emoji: it
/// is never mistaken for a reference.
pub proof fn law_escaped_text_is_shown_as_typed(
    text: Seq<char>,
    channels: Map<Seq<char>, Seq<char>>,
    users: Map<Seq<char>, Seq<char>>,
    color: bool,
)
    ensures
        shown_text(escaped(text), channels, users, color) == emojified(text),
{
    lemma_escaped_holds_no_bracket(text);
    let sent = escaped(text);
    assert forall|i: int| !#[trigger] opens_reference(sent, i) by {
        if opens_reference(sent, i) {
            assert(sent[i] == '<');
        }
    }
    law_text_without_references_is_untouched(sent, channels, users, color);
    law_decoding_undoes_escaping(text);
}

/// Without an id a message is printed as one line, as it is.
pub proof fn law_without_id_nothing_is_added(
    time: Seq<char>,
    m: Shown,
    channels: Map<Seq<char>, Seq<char>>,
    users: Map<Seq<char>, Seq<char>>,
    color: bool,
)
    ensures
        message_lines(None, time, m, channels, users, color) == seq![
            message_line(time, m, channels, users, color),
        ],
{
}

/// The part of a line that says which thread a message is in: the tag of the thread in
/// brackets behind a space, and nothing for a message that is in none.
pub open spec fn thread_mark(m: Shown, on: Seq<char>, off: Seq<char>) -> Seq<char> {
    match m.thread_ts {
        Some(parent) => " "@ + on + "[t:"@ + tag_of(m.channel_id, parent) + "]"@ + off,
        None => Seq::empty(),
    }
}

/// A plain line gives the time, the channel, the thread and the author by name, each in its
/// place, and then what was written.
pub proof fn law_plain_lines(
    time: Seq<char>,
    m: Shown,
    channels: Map<Seq<char>, Seq<char>>,
    users: Map<Seq<char>, Seq<char>>,
)
    ensures
        message_line(time, m, channels, users, false) == "["@ + time + "] ["@ + name_or_id(
            channels,
            m.channel_id,
        ) + "]"@ + thread_mark(m, Seq::empty(), Seq::empty()) + " "@ + name_or_id(users, m.user_id)
            + ": "@ + body(m.note, shown_text(m.text, channels, users, false)),
{
    reveal_strlit("] [");
    reveal_strlit("]");
    reveal_strlit("[");
    reveal_strlit(" ");
    let line = message_line(time, m, channels, users, false);
    let stated = "["@ + time + "] ["@ + name_or_id(channels, m.channel_id) + "]"@ + thread_mark(
        m,
        Seq::empty(),
        Seq::empty(),
    ) + " "@ + name_or_id(users, m.user_id) + ": "@ + body(
        m.note,
        shown_text(m.text, channels, users, false),
    );
    match m.thread_ts {
        Some(parent) => {
            assert(shown_thread(m.channel_id, m.thread_ts, false) =~= thread_mark(
                m,
                Seq::empty(),
                Seq::empty(),
            ));
        },
        None => {},
    }
    assert(line =~= stated);
}

/// On a terminal the time is green, the channel blue, the tag of the thread magenta and the
/// author cyan; nothing else of the line differs.
pub proof fn law_coloured_lines(
    time: Seq<char>,
    m: Shown,
    channels: Map<Seq<char>, Seq<char>>,
    users: Map<Seq<char>, Seq<char>>,
)
    ensures
        message_line(time, m, channels, users, true) == "\x1b[32m["@ + time + "]\x1b[0m \x1b[34m["@
            + name_or_id(channels, m.channel_id) + "]\x1b[0m"@ + thread_mark(
            m,
            "\x1b[35m"@,
            "\x1b[0m"@,
        ) + " \x1b[36m"@ + name_or_id(users, m.user_id) + "\x1b[0m: "@ + body(
            m.note,
            shown_text(m.text, channels, users, true),
        ),
{
    reveal_strlit("\x1b[32m[");
    reveal_strlit("]\x1b[0m \x1b[34m[");
    reveal_strlit("]\x1b[0m");
    reveal_strlit(" \x1b[36m");
    reveal_strlit("\x1b[0m: ");
    reveal_strlit("\x1b[0m");
    reveal_strlit("\x1b[32m");
    reveal_strlit("\x1b[34m");
    reveal_strlit("\x1b[35m");
    reveal_strlit("\x1b[36m");
    reveal_strlit("[");
    reveal_strlit("]");
    reveal_strlit(" ");
    reveal_strlit(": ");
    let channel = name_or_id(channels, m.channel_id);
    let user = name_or_id(users, m.user_id);
    let written = body(m.note, shown_text(m.text, channels, users, true));
    let mark = thread_mark(m, "\x1b[35m"@, "\x1b[0m"@);
    match m.thread_ts {
        Some(parent) => {
            assert(shown_thread(m.channel_id, m.thread_ts, true) =~= mark);
        },
        None => {},
    }
    assert(painted(true, GREEN@, "["@ + time + "]"@) + " "@ + painted(
        true,
        BLUE@,
        "["@ + channel + "]"@,
    ) =~= "\x1b[32m["@ + time + "]\x1b[0m \x1b[34m["@ + channel + "]\x1b[0m"@);
    assert(" "@ + painted(true, CYAN@, user) + ": "@ =~= " \x1b[36m"@ + user + "\x1b[0m: "@);
    let front = "\x1b[32m["@ + time + "]\x1b[0m \x1b[34m["@ + channel + "]\x1b[0m"@ + mark;
    assert(message_line(time, m, channels, users, true) =~= front + (" "@ + painted(
        true,
        CYAN@,
        user,
    ) + ": "@) + written);
    assert(front + " \x1b[36m"@ + user + "\x1b[0m: "@ + written =~= front + (" \x1b[36m"@ + user
        + "\x1b[0m: "@) + written);
}

/// What was written is the text, behind the note and a space where there is a note; a note
/// without text stands alone.
pub proof fn law_notes_stand_before_the_text(note: Seq<char>, text: Seq<char>)
    ensures
        body(None, text) == text,
        text.len() == 0 ==> body(Some(note), text) == note,
        text.len() > 0 ==> body(Some(note), text) == note + seq![' '] + text,
{
    reveal_strlit(" ");
    assert(" "@ =~= seq![' ']);
}

/// The references of a text are resolved first, then its entities are decoded, then its
/// shortcodes are shown as emoji.
pub proof fn law_references_before_entities_before_shortcodes(
    text: Seq<char>,
    channels: Map<Seq<char>, Seq<char>>,
    users: Map<Seq<char>, Seq<char>>,
    color: bool,
)
    ensures
        shown_text(text, channels, users, color) == emojified(
            decoded(resolved(text, channels, users, color)),
        ),
{
}

/// With an id, every line of the text is printed behind the id and a space, in order, and
/// nothing is left out.
pub proof fn law_lines_stand_behind_the_id(
    id: i64,
    time: Seq<char>,
    m: Shown,
    channels: Map<Seq<char>, Seq<char>>,
    users: Map<Seq<char>, Seq<char>>,
    color: bool,
    i: int,
)
    ensures
        ({
            let lines = message_lines(Some(id), time, m, channels, users, color);
            let parts = split(message_line(time, m, channels, users, color), '\n');
            &&& lines.len() == parts.len()
            &&& 0 <= i < lines.len() ==> lines[i] == decimal(id as int) + seq![' '] + parts[i]
        }),
{
    reveal_strlit(" ");
    assert(" "@ =~= seq![' ']);
}

} // verus!
