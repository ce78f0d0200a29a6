//! The live stream: what is made of the events that arrive.
use vstd::prelude::*;
use vstd::string::*;

use crate::history::{borrowed, tag_opt, HistView};
use crate::json::{parse_json, parsed_text, Json, JsonValue};
use crate::markup::{extract_mentions, first_of_each, mention_ids};
use crate::message::{
    author, call_span_fits, can_describe, describe_payload, message_author, message_text,
    payload_note, says, says_something, text_of_message,
};
use crate::names::NameMap;
use crate::render::{message_lines, render_message, Shown};
use crate::store::{StoredMessage, StoredView};
use crate::text::{same_text, text_opt, texts};
use crate::thread::{tag_of, thread_tag};

verus! {

/// A message that arrived.
pub struct IncomingMessage {
    pub channel_id: String,
    pub ts: String,
    pub user_id: String,
    pub text: String,
    pub note: Option<String>,
    pub thread_ts: Option<String>,
}

/// What a message that arrived holds.
pub struct IncomingView {
    pub channel_id: Seq<char>,
    pub ts: Seq<char>,
    pub user_id: Seq<char>,
    pub text: Seq<char>,
    pub note: Option<Seq<char>>,
    pub thread_ts: Option<Seq<char>>,
}

impl View for IncomingMessage {
    type V = IncomingView;

    open spec fn view(&self) -> IncomingView {
        IncomingView {
            channel_id: self.channel_id@,
            ts: self.ts@,
            user_id: self.user_id@,
            text: self.text@,
            note: text_opt(self.note),
            thread_ts: text_opt(self.thread_ts),
        }
    }
}

/// A reaction that was left on the message `target_ts` of a channel.
pub struct Reaction {
    pub channel_id: String,
    pub target_ts: String,
    pub user_id: String,
    pub ts: String,
    pub text: String,
}

/// What a reaction holds.
pub struct ReactionView {
    pub channel_id: Seq<char>,
    pub target_ts: Seq<char>,
    pub user_id: Seq<char>,
    pub ts: Seq<char>,
    pub text: Seq<char>,
}

impl View for Reaction {
    type V = ReactionView;

    open spec fn view(&self) -> ReactionView {
        ReactionView {
            channel_id: self.channel_id@,
            target_ts: self.target_ts@,
            user_id: self.user_id@,
            ts: self.ts@,
            text: self.text@,
        }
    }
}

/// What an event asks for.
pub enum Event {
    /// A message is to be recorded and shown.
    Message(IncomingMessage),
    /// A reaction is to be shown with the id of the message that it was left on.
    Reaction(Reaction),
    /// This line is to be printed.
    Notice(String),
    /// Nothing is to be done.
    Nothing,
}

/// What an event asks for.
pub enum EventView {
    Message(IncomingView),
    Reaction(ReactionView),
    Notice(Seq<char>),
    Nothing,
}

impl View for Event {
    type V = EventView;

    open spec fn view(&self) -> EventView {
        match self {
            Event::Message(m) => EventView::Message(m@),
            Event::Reaction(x) => EventView::Reaction(x@),
            Event::Notice(line) => EventView::Notice(line@),
            Event::Nothing => EventView::Nothing,
        }
    }
}

/// The type of an event; empty where it has none, as a reply acknowledgement.
pub open spec fn event_type(event: JsonValue) -> Seq<char> {
    event.text_or("type"@, ""@)
}

/// The message in an event.
pub open spec fn incoming(event: JsonValue, users: Map<Seq<char>, Seq<char>>) -> IncomingView {
    let text = text_of_message(event);
    IncomingView {
        channel_id: event.text_or("channel"@, "?"@),
        ts: event.text_or("ts"@, ""@),
        user_id: author(event),
        text,
        note: payload_note(event, users, text.len() == 0),
        thread_ts: event.text_field("thread_ts"@),
    }
}

/// The string in the field `key` of the item that an event is about, or `default`.
pub open spec fn item_text(event: JsonValue, key: Seq<char>, default: Seq<char>) -> Seq<char> {
    match event.field("item"@) {
        Some(item) => item.text_or(key, default),
        None => default,
    }
}

/// The reaction in an event. Its text is the shortcode of its emoji.
pub open spec fn reaction_in(event: JsonValue) -> ReactionView {
    ReactionView {
        channel_id: item_text(event, "channel"@, "?"@),
        target_ts: item_text(event, "ts"@, ""@),
        user_id: event.text_or("user"@, "?"@),
        ts: event.text_or("event_ts"@, ""@),
        text: ":"@ + event.text_or("reaction"@, ""@) + ":"@,
    }
}

/// What an event asks for. Apart from messages and reactions, events are only reported,
/// and only when asked to be verbose.
pub open spec fn meaning(
    event: JsonValue,
    verbose: bool,
    users: Map<Seq<char>, Seq<char>>,
) -> EventView {
    let kind = event_type(event);
    if kind == "message"@ {
        EventView::Message(incoming(event, users))
    } else if kind == "reaction_added"@ {
        EventView::Reaction(reaction_in(event))
    } else if kind == "hello"@ && verbose {
        EventView::Notice("(connected — hello received)"@)
    } else if kind == ""@ {
        EventView::Nothing
    } else if verbose {
        EventView::Notice("("@ + kind + " event)"@)
    } else {
        EventView::Nothing
    }
}

/// Whether `handle_event` can read an event: where it is a message, its payload can be
/// described.
pub open spec fn readable(event: JsonValue) -> bool {
    event_type(event) == "message"@ ==> call_span_fits(event)
}

/// The string in the field `key`, or `default`.
fn owned_or(v: &Json, key: &str, default: &str) -> (r: String)
    ensures
        r@ == v@.text_or(key@, default@),
{
    v.text_at_or(key, default).to_owned()
}

/// Reads an event.
pub fn handle_event(event: &Json, verbose: bool, users: &NameMap) -> (r: Event)
    requires
        readable(event@),
    ensures
        r@ == meaning(event@, verbose, users@),
{
    let kind: &str = event.text_at_or("type", "");
    if same_text(kind, "message") {
        let text: String = message_text(event);
        let note: Option<String> = describe_payload(event, users, text.as_str().is_empty());
        let thread_ts: Option<String> = match event.text_at("thread_ts") {
            Some(ts) => Some(ts.to_owned()),
            None => None,
        };
        return Event::Message(
            IncomingMessage {
                channel_id: owned_or(event, "channel", "?"),
                ts: owned_or(event, "ts", ""),
                user_id: message_author(event).to_owned(),
                text,
                note,
                thread_ts,
            },
        );
    }
    if same_text(kind, "reaction_added") {
        let mut text: String = ":".to_owned();
        text.append(event.text_at_or("reaction", ""));
        text.append(":");
        let (channel_id, target_ts): (String, String) = match event.get("item") {
            Some(item) => (owned_or(item, "channel", "?"), owned_or(item, "ts", "")),
            None => ("?".to_owned(), "".to_owned()),
        };
        return Event::Reaction(
            Reaction {
                channel_id,
                target_ts,
                user_id: owned_or(event, "user", "?"),
                ts: owned_or(event, "event_ts", ""),
                text,
            },
        );
    }
    if verbose && same_text(kind, "hello") {
        return Event::Notice("(connected — hello received)".to_owned());
    }
    if same_text(kind, "") || !verbose {
        return Event::Nothing;
    }
    let mut line: String = "(".to_owned();
    line.append(kind);
    line.append(" event)");
    Event::Notice(line)
}

/// Reads a frame of the stream. A frame that is no JSON document is ignored; none where
/// it is a message whose payload cannot be described.
pub fn handle_frame(frame: &str, verbose: bool, users: &NameMap) -> (r: Option<Event>)
    ensures
        match parsed_text(frame@) {
            None => r matches Some(e) && e@ == EventView::Nothing,
            Some(event) => if readable(event) {
                r matches Some(e) && e@ == meaning(event, verbose, users@)
            } else {
                r is None
            },
        },
{
    match parse_json(frame) {
        None => Some(Event::Nothing),
        Some(event) => {
            if same_text(event.text_at_or("type", ""), "message") && !can_describe(&event) {
                return None;
            }
            Some(handle_event(&event, verbose, users))
        },
    }
}

/// What is recorded of a message that arrived. `?` stands in for an event without a user
/// and is no Slack id, so it is recorded as unknown.
pub open spec fn recorded_live(m: IncomingView) -> StoredView {
    StoredView {
        channel_id: m.channel_id,
        ts: m.ts,
        user_id: if m.user_id == "?"@ {
            None
        } else {
            Some(m.user_id)
        },
        text: m.text,
        note: m.note,
        thread_ts: m.thread_ts,
        thread_tag: tag_opt(m.channel_id, m.thread_ts),
        mentions: first_of_each(mention_ids(m.text)),
    }
}

/// The tag of the thread of a message that arrived.
pub fn incoming_tag(m: &IncomingMessage) -> (r: Option<String>)
    ensures
        text_opt(r) == tag_opt(m@.channel_id, m@.thread_ts),
{
    match &m.thread_ts {
        Some(t) => Some(thread_tag(m.channel_id.as_str(), t.as_str())),
        None => None,
    }
}

/// What is recorded of a message that arrived, `tag` being the tag of its thread.
pub fn incoming_row<'a>(m: &'a IncomingMessage, tag: &'a Option<String>) -> (r: StoredMessage<'a>)
    requires
        text_opt(*tag) == tag_opt(m@.channel_id, m@.thread_ts),
    ensures
        r@ == recorded_live(m@),
{
    let user_id: Option<&'a str> = if same_text(m.user_id.as_str(), "?") {
        None
    } else {
        Some(m.user_id.as_str())
    };
    let row: StoredMessage<'a> = StoredMessage {
        channel_id: m.channel_id.as_str(),
        ts: m.ts.as_str(),
        user_id,
        text: m.text.as_str(),
        note: borrowed(&m.note),
        thread_ts: borrowed(&m.thread_ts),
        thread_tag: borrowed(tag),
        mentions: extract_mentions(m.text.as_str()),
    };
    assert(row@ == recorded_live(m@));
    row
}

/// What is printed for an event.
pub open spec fn event_output(
    event: EventView,
    id: Option<i64>,
    time: Seq<char>,
    channels: Map<Seq<char>, Seq<char>>,
    users: Map<Seq<char>, Seq<char>>,
    color: bool,
) -> Seq<Seq<char>> {
    match event {
        EventView::Message(m) => message_lines(id, time, shown_live(m), channels, users, color),
        EventView::Reaction(x) => message_lines(
            id,
            time,
            Shown {
                channel_id: x.channel_id,
                user_id: x.user_id,
                text: x.text,
                note: Some("[Reaktion]"@),
                thread_ts: None,
            },
            channels,
            users,
            color,
        ),
        EventView::Notice(line) => seq![line],
        EventView::Nothing => Seq::empty(),
    }
}

/// The parts of a message that arrived that its lines are made from.
pub open spec fn shown_live(m: IncomingView) -> Shown {
    Shown {
        channel_id: m.channel_id,
        user_id: m.user_id,
        text: m.text,
        note: m.note,
        thread_ts: m.thread_ts,
    }
}

/// What is printed for an event: `id` is the database id of the message, or of the
/// message that a reaction was left on, where there is one, and `time` is its time.
pub fn event_lines(
    event: &Event,
    id: Option<i64>,
    time: &str,
    channels: &NameMap,
    users: &NameMap,
    color: bool,
) -> (r: Vec<String>)
    ensures
        texts(r@) == event_output(event@, id, time@, channels@, users@, color),
{
    match event {
        Event::Message(m) => render_message(
            id,
            time,
            m.channel_id.as_str(),
            m.user_id.as_str(),
            m.text.as_str(),
            borrowed(&m.note),
            borrowed(&m.thread_ts),
            channels,
            users,
            color,
        ),
        Event::Reaction(x) => render_message(
            id,
            time,
            x.channel_id.as_str(),
            x.user_id.as_str(),
            x.text.as_str(),
            Some("[Reaktion]"),
            None,
            channels,
            users,
            color,
        ),
        Event::Notice(line) => {
            let mut r: Vec<String> = Vec::new();
            r.push(line.clone());
            assert(texts(r@) =~= seq![line@]);
            r
        },
        Event::Nothing => {
            let r: Vec<String> = Vec::new();
            assert(texts(r@) =~= Seq::empty());
            r
        },
    }
}

// ---------------------------------------------------------------------------
// Laws.
// ---------------------------------------------------------------------------

/// A message that arrives live carries the same tag, and is shown the same way, as the
/// same message found by a search.
pub proof fn law_live_and_found_messages_agree(
    live: IncomingView,
    found: HistView,
    id: Option<i64>,
    time: Seq<char>,
    channels: Map<Seq<char>, Seq<char>>,
    users: Map<Seq<char>, Seq<char>>,
    color: bool,
)
    requires
        live.channel_id == found.channel_id,
        live.user_id == found.user_id,
        live.text == found.text,
        live.note == found.note,
        live.thread_ts == found.thread_ts,
    ensures
        recorded_live(live).thread_tag == crate::history::recorded(found).thread_tag,
        event_output(EventView::Message(live), id, time, channels, users, color) == message_lines(
            id,
            time,
            crate::history::shown(found),
            channels,
            users,
            color,
        ),
{
}

/// Without verbosity only messages and reactions are shown.
pub proof fn law_quiet_unless_verbose(event: JsonValue, users: Map<Seq<char>, Seq<char>>)
    requires
        event_type(event) != "message"@,
        event_type(event) != "reaction_added"@,
    ensures
        meaning(event, false, users) == EventView::Nothing,
{
}

/// A message event is a message: of the channel, the time and the thread that it names, by
/// whom it belongs to, with its text and the note that this text leaves room for.
pub proof fn law_message_events(
    event: JsonValue,
    verbose: bool,
    users: Map<Seq<char>, Seq<char>>,
    channel: Seq<char>,
    ts: Seq<char>,
    parent: Seq<char>,
)
    requires
        says(event, "type"@, "message"@),
    ensures
        meaning(event, verbose, users) matches EventView::Message(m) && {
            &&& says(event, "channel"@, channel) ==> m.channel_id == channel
            &&& !says_something(event, "channel"@) ==> m.channel_id == seq!['?']
            &&& says(event, "ts"@, ts) ==> m.ts == ts
            &&& !says_something(event, "ts"@) ==> m.ts.len() == 0
            &&& m.user_id == author(event)
            &&& m.text == text_of_message(event)
            &&& m.text.len() == 0 ==> m.note == payload_note(event, users, true)
            &&& m.text.len() > 0 ==> m.note == payload_note(event, users, false)
            &&& says(event, "thread_ts"@, parent) ==> m.thread_ts == Some(parent)
            &&& !says_something(event, "thread_ts"@) ==> m.thread_ts is None
        },
{
    reveal_strlit("");
    reveal_strlit("?");
    assert("?"@ =~= seq!['?']);
}

/// A reaction is left on the message that its item names, by the user who is named, and is
/// written as a shortcode.
pub proof fn law_reaction_events(
    event: JsonValue,
    verbose: bool,
    users: Map<Seq<char>, Seq<char>>,
    item: JsonValue,
    channel: Seq<char>,
    ts: Seq<char>,
    user: Seq<char>,
    at: Seq<char>,
    name: Seq<char>,
)
    requires
        says(event, "type"@, "reaction_added"@),
    ensures
        meaning(event, verbose, users) matches EventView::Reaction(x) && {
            &&& event.field("item"@) == Some(item) && says(item, "channel"@, channel)
                ==> x.channel_id == channel
            &&& event.field("item"@) == Some(item) && !says_something(item, "channel"@)
                ==> x.channel_id == seq!['?']
            &&& event.field("item"@) == Some(item) && says(item, "ts"@, ts) ==> x.target_ts == ts
            &&& event.field("item"@) == Some(item) && !says_something(item, "ts"@)
                ==> x.target_ts.len() == 0
            &&& event.field("item"@) is None ==> x.channel_id == seq!['?'] && x.target_ts.len()
                == 0
            &&& says(event, "user"@, user) ==> x.user_id == user
            &&& !says_something(event, "user"@) ==> x.user_id == seq!['?']
            &&& says(event, "event_ts"@, at) ==> x.ts == at
            &&& !says_something(event, "event_ts"@) ==> x.ts.len() == 0
            &&& says(event, "reaction"@, name) ==> x.text == seq![':'] + name + seq![':']
            &&& !says_something(event, "reaction"@) ==> x.text == seq![':', ':']
        },
{
    reveal_strlit("message");
    reveal_strlit("reaction_added");
    assert("message"@.len() != "reaction_added"@.len());
    reveal_strlit("");
    reveal_strlit("?");
    reveal_strlit(":");
    assert("?"@ =~= seq!['?']);
    assert(":"@ =~= seq![':']);
    assert(""@ =~= Seq::empty());
    assert(":"@ + ""@ + ":"@ =~= seq![':', ':']);
}

/// Other events are named where more is to be told, the first of a connection in words of
/// its own, and are passed over otherwise. An event without a type is always passed over.
pub proof fn law_other_events(
    event: JsonValue,
    users: Map<Seq<char>, Seq<char>>,
    kind: Seq<char>,
)
    ensures
        says(event, "type"@, kind) && kind.len() > 0 && kind != "message"@ && kind
            != "reaction_added"@ && kind != "hello"@ ==> meaning(event, true, users)
            == EventView::Notice("("@ + kind + " event)"@),
        says(event, "type"@, "hello"@) ==> meaning(event, true, users) == EventView::Notice(
            "(connected — hello received)"@,
        ),
        says(event, "type"@, kind) && kind != "message"@ && kind != "reaction_added"@ ==> meaning(
            event,
            false,
            users,
        ) == EventView::Nothing,
        !says_something(event, "type"@) || says(event, "type"@, Seq::empty()) ==> meaning(
            event,
            true,
            users,
        ) == EventView::Nothing && meaning(event, false, users) == EventView::Nothing,
{
    reveal_strlit("");
    reveal_strlit("message");
    reveal_strlit("reaction_added");
    reveal_strlit("hello");
    assert(""@ =~= Seq::empty());
    assert("hello"@.len() == 5 && "message"@.len() == 7 && "reaction_added"@.len() == 14);
}

/// A message that arrived is recorded and shown with all its parts, under the tag of its
/// thread in its channel and with the users whom its text mentions, each once. An unknown
/// author is recorded as none.
pub proof fn law_live_messages_are_recorded_and_shown_whole(m: IncomingView, parent: Seq<char>)
    ensures
        recorded_live(m).channel_id == m.channel_id && shown_live(m).channel_id == m.channel_id,
        recorded_live(m).ts == m.ts,
        shown_live(m).user_id == m.user_id,
        m.user_id != seq!['?'] ==> recorded_live(m).user_id == Some(m.user_id),
        m.user_id == seq!['?'] ==> recorded_live(m).user_id is None,
        recorded_live(m).text == m.text && shown_live(m).text == m.text,
        recorded_live(m).note == m.note && shown_live(m).note == m.note,
        recorded_live(m).thread_ts == m.thread_ts && shown_live(m).thread_ts == m.thread_ts,
        recorded_live(m).mentions == first_of_each(mention_ids(m.text)),
        m.thread_ts is None ==> recorded_live(m).thread_tag is None,
        m.thread_ts == Some(parent) ==> recorded_live(m).thread_tag == Some(
            tag_of(m.channel_id, parent),
        ),
{
    reveal_strlit("?");
    assert("?"@ =~= seq!['?']);
}

/// A message is shown as its lines, a reaction as a note with its shortcode, outside of any
/// thread, a notice as its one line, and nothing as nothing.
pub proof fn law_events_are_shown(
    m: IncomingView,
    x: ReactionView,
    line: Seq<char>,
    id: Option<i64>,
    time: Seq<char>,
    channels: Map<Seq<char>, Seq<char>>,
    users: Map<Seq<char>, Seq<char>>,
    color: bool,
    s: Shown,
)
    requires
        s.channel_id == x.channel_id,
        s.user_id == x.user_id,
        s.text == x.text,
        s.note == Some(seq!['[', 'R', 'e', 'a', 'k', 't', 'i', 'o', 'n', ']']),
        s.thread_ts is None,
    ensures
        event_output(EventView::Message(m), id, time, channels, users, color) == message_lines(
            id,
            time,
            shown_live(m),
            channels,
            users,
            color,
        ),
        event_output(EventView::Reaction(x), id, time, channels, users, color) == message_lines(
            id,
            time,
            s,
            channels,
            users,
            color,
        ),
        event_output(EventView::Notice(line), id, time, channels, users, color) == seq![line],
        event_output(EventView::Nothing, id, time, channels, users, color).len() == 0,
{
    reveal_strlit("[Reaktion]");
    assert("[Reaktion]"@ =~= seq!['[', 'R', 'e', 'a', 'k', 't', 'i', 'o', 'n', ']']);
}

/// Only a message whose call lasts for an unheard-of time cannot be read.
pub proof fn law_what_can_be_read(event: JsonValue)
    ensures
        !says(event, "type"@, "message"@) ==> readable(event),
        says(event, "type"@, "message"@) ==> readable(event) == call_span_fits(event),
{
    reveal_strlit("");
    reveal_strlit("message");
    assert(""@.len() != "message"@.len());
}

} // verus!
