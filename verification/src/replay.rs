//! Showing what is recorded, without the server.
//!
//! Text is recorded exactly as Slack sent it, and users and channels with the names that
//! it was resolved against, so that the lines of a message can be made again.
use vstd::prelude::*;
use vstd::string::*;

use crate::api::{channel_pairs, with_names};
use crate::event::{event_output, recorded_live, EventView, IncomingView};
use crate::history::{append_lines, borrowed, recorded, shown, HistView};
use crate::markup::{bracketed, channel_shown, reference_id, resolved};
use crate::names::{name_or_id, NameMap};
use crate::number::{decimal, push_unsigned};
use crate::render::{message_lines, render_message, Shown};
use crate::store::{
    channel_syncs, user_syncs, ChannelView, LocalMessage, LocalView, StoredView, WriteView,
};
use crate::tables::{
    all_written, channel_names_in, consistent, law_reading_gives_back_what_was_saved,
    law_writes_record_the_message, read_back, recorded_in, save_answers, saved, written, Tables,
};
use crate::text::{find, lemma_find, texts};

verus! {

/// The parts of a recorded message that its lines are made from; `?` stands in for a user
/// that is not known, as it does live.
pub open spec fn shown_again(m: LocalView) -> Shown {
    Shown {
        channel_id: m.channel_id,
        user_id: match m.user_id {
            Some(user) => user,
            None => "?"@,
        },
        text: m.text,
        note: m.note,
        thread_ts: m.thread_ts,
    }
}

/// The messages of a list.
pub open spec fn local_views(messages: Seq<LocalMessage>) -> Seq<LocalView> {
    messages.map_values(|m: LocalMessage| m@)
}

/// What is printed for the first `n` recorded messages.
pub open spec fn replay_output(
    messages: Seq<LocalView>,
    times: Seq<Seq<char>>,
    channels: Map<Seq<char>, Seq<char>>,
    users: Map<Seq<char>, Seq<char>>,
    color: bool,
    n: nat,
) -> Seq<Seq<char>>
    decreases n,
{
    if n == 0 {
        Seq::empty()
    } else {
        replay_output(messages, times, channels, users, color, (n - 1) as nat) + message_lines(
            Some(messages[n - 1].id),
            times[n - 1],
            shown_again(messages[n - 1]),
            channels,
            users,
            color,
        )
    }
}

/// The line above the recorded messages.
pub open spec fn replay_header(count: nat, path: Seq<char>) -> Seq<char> {
    "--- "@ + decimal(count as int) + " stored message(s) from "@ + path + " ---"@
}

/// What is printed for the messages that are recorded in the file `path`: a line above
/// them, and the lines of each message with its id and its time.
pub fn replay_local(
    messages: &Vec<LocalMessage>,
    times: &Vec<String>,
    path: &str,
    channels: &NameMap,
    users: &NameMap,
    color: bool,
) -> (r: Vec<String>)
    requires
        times@.len() == messages@.len(),
    ensures
        texts(r@) == seq![replay_header(messages@.len(), path@)] + replay_output(
            local_views(messages@),
            texts(times@),
            channels@,
            users@,
            color,
            messages@.len(),
        ),
{
    let mut header: String = "--- ".to_owned();
    push_unsigned(&mut header, messages.len() as u64);
    header.append(" stored message(s) from ");
    header.append(path);
    header.append(" ---");
    assert(header@ =~= replay_header(messages@.len(), path@));
    let mut r: Vec<String> = Vec::new();
    r.push(header);
    let ghost head = seq![header@];
    let ghost all = local_views(messages@);
    let mut i: usize = 0;
    assert(texts(r@) =~= head + Seq::<Seq<char>>::empty());
    while i < messages.len()
        invariant
            i <= messages@.len(),
            times@.len() == messages@.len(),
            all == local_views(messages@),
            texts(r@) == head + replay_output(
                all,
                texts(times@),
                channels@,
                users@,
                color,
                i as nat,
            ),
        decreases messages@.len() - i,
    {
        let m: &LocalMessage = &messages[i];
        assert(all[i as int] == m@);
        assert(texts(times@)[i as int] == times@[i as int]@);
        let ghost done = replay_output(all, texts(times@), channels@, users@, color, i as nat);
        let user_id: &str = match &m.user_id {
            Some(user) => user.as_str(),
            None => "?",
        };
        let lines: Vec<String> = render_message(
            Some(m.id),
            times[i].as_str(),
            m.channel_id.as_str(),
            user_id,
            m.text.as_str(),
            borrowed(&m.note),
            borrowed(&m.thread_ts),
            channels,
            users,
            color,
        );
        let ghost added = texts(lines@);
        append_lines(&mut r, lines);
        assert((head + done) + added =~= head + (done + added));
        i += 1;
    }
    r
}

// ---------------------------------------------------------------------------
// Laws.
// ---------------------------------------------------------------------------

/// Whether the tables name users and channels as these maps do, apart from placeholders
/// that are named by their ids.
pub open spec fn mirrors(
    t: Tables,
    channels: Map<Seq<char>, Seq<char>>,
    users: Map<Seq<char>, Seq<char>>,
) -> bool {
    &&& forall|id: Seq<char>| #[trigger]
        users.contains_key(id) ==> t.users.contains_key(id) && t.users[id] == users[id]
    &&& forall|id: Seq<char>| #[trigger]
        t.users.contains_key(id) && !users.contains_key(id) ==> t.users[id] == id
    &&& forall|id: Seq<char>| #[trigger]
        channels.contains_key(id) ==> t.channels.contains_key(id) && t.channels[id].0
            == channels[id]
    &&& forall|id: Seq<char>| #[trigger]
        t.channels.contains_key(id) && !channels.contains_key(id) ==> t.channels[id].0 == id
}

/// The tables when the listings of users and channels have been recorded.
pub open spec fn synced(
    t: Tables,
    users: Seq<(Seq<char>, Seq<char>)>,
    channels: Seq<ChannelView>,
) -> Tables {
    all_written(all_written(t, user_syncs(users)), channel_syncs(channels))
}

proof fn lemma_users_synced(t: Tables, rows: Seq<(Seq<char>, Seq<char>)>)
    ensures
        all_written(t, user_syncs(rows)) == (Tables { users: with_names(t.users, rows), ..t }),
    decreases rows.len(),
{
    if rows.len() > 0 {
        lemma_users_synced(t, rows.drop_last());
        assert(user_syncs(rows).drop_last() =~= user_syncs(rows.drop_last()));
    }
}

proof fn lemma_channels_synced(t: Tables, rows: Seq<ChannelView>)
    ensures
        channel_names_in(all_written(t, channel_syncs(rows))) == with_names(
            channel_names_in(t),
            channel_pairs(rows),
        ),
        all_written(t, channel_syncs(rows)).users == t.users,
        all_written(t, channel_syncs(rows)).threads == t.threads,
        all_written(t, channel_syncs(rows)).messages == t.messages,
        all_written(t, channel_syncs(rows)).mentions == t.mentions,
    decreases rows.len(),
{
    if rows.len() > 0 {
        lemma_channels_synced(t, rows.drop_last());
        assert(channel_syncs(rows).drop_last() =~= channel_syncs(rows.drop_last()));
        assert(channel_pairs(rows).drop_last() =~= channel_pairs(rows.drop_last()));
        let before = all_written(t, channel_syncs(rows.drop_last()));
        let row = rows.last();
        let w = WriteView::UpsertChannel { id: row.id, name: row.name, kind: row.kind };
        assert(channel_syncs(rows).last() == w);
        assert(channel_names_in(written(before, w, 0)) =~= channel_names_in(before).insert(
            row.id,
            row.name,
        ));
    }
}

/// Recording the listings makes the names that are read back those of the listings, and
/// leaves threads, messages and mentions alone.
pub proof fn law_listings_are_read_back(
    t: Tables,
    users: Seq<(Seq<char>, Seq<char>)>,
    channels: Seq<ChannelView>,
)
    ensures
        synced(t, users, channels).users == with_names(t.users, users),
        channel_names_in(synced(t, users, channels)) == with_names(
            channel_names_in(t),
            channel_pairs(channels),
        ),
        synced(t, users, channels).threads == t.threads,
        synced(t, users, channels).messages == t.messages,
        synced(t, users, channels).mentions == t.mentions,
{
    lemma_users_synced(t, users);
    lemma_channels_synced(all_written(t, user_syncs(users)), channels);
    assert(channel_names_in(Tables { users: with_names(t.users, users), ..t })
        =~= channel_names_in(t));
}

/// In a new file the recorded listings mirror the names of the run.
pub proof fn law_new_file_mirrors_the_listings(
    t: Tables,
    users: Seq<(Seq<char>, Seq<char>)>,
    channels: Seq<ChannelView>,
)
    requires
        t.users == Map::<Seq<char>, Seq<char>>::empty(),
        t.channels == Map::<Seq<char>, (Seq<char>, Seq<char>)>::empty(),
    ensures
        mirrors(
            synced(t, users, channels),
            with_names(Map::empty(), channel_pairs(channels)),
            with_names(Map::empty(), users),
        ),
{
    law_listings_are_read_back(t, users, channels);
    assert(channel_names_in(t) =~= Map::empty());
    let r = synced(t, users, channels);
    let names = channel_names_in(r);
    assert forall|id: Seq<char>| names.contains_key(id) <==> #[trigger] r.channels.contains_key(
        id,
    ) by {}
    assert forall|id: Seq<char>| #[trigger]
        names.contains_key(id) implies r.channels.contains_key(id) && r.channels[id].0
        == names[id] by {}
}

/// Recording a message keeps the tables mirroring the names of the run: it adds nothing
/// but placeholders.
pub proof fn law_saving_keeps_mirroring(
    t: Tables,
    m: StoredView,
    thread_id: i64,
    message_id: i64,
    channels: Map<Seq<char>, Seq<char>>,
    users: Map<Seq<char>, Seq<char>>,
)
    requires
        mirrors(t, channels, users),
    ensures
        mirrors(saved(t, m, thread_id, message_id), channels, users),
{
    law_writes_record_the_message(t, m, thread_id, message_id);
    let r = recorded_in(t, m, thread_id, message_id);
    assert forall|id: Seq<char>| #[trigger]
        users.contains_key(id) implies r.users.contains_key(id) && r.users[id] == users[id] by {
        assert(t.users.contains_key(id));
    }
    assert forall|id: Seq<char>| #[trigger]
        r.users.contains_key(id) && !users.contains_key(id) implies r.users[id] == id by {
        if t.users.contains_key(id) {
            assert(t.users[id] == id);
        }
    }
}

proof fn lemma_resolved_from_tables(
    text: Seq<char>,
    t: Tables,
    channels: Map<Seq<char>, Seq<char>>,
    users: Map<Seq<char>, Seq<char>>,
    color: bool,
)
    requires
        mirrors(t, channels, users),
    ensures
        resolved(text, channel_names_in(t), t.users, color) == resolved(
            text,
            channels,
            users,
            color,
        ),
    decreases text.len(),
{
    lemma_find(text, '>');
    if text.len() > 0 {
        if let Some(inner) = bracketed(text) {
            let id = reference_id(inner);
            assert(name_or_id(t.users, id) == name_or_id(users, id));
            assert(channel_shown(channel_names_in(t), inner) == channel_shown(channels, inner));
            lemma_resolved_from_tables(
                text.skip(find(text, '>') + 1),
                t,
                channels,
                users,
                color,
            );
        }
        lemma_resolved_from_tables(text.drop_first(), t, channels, users, color);
    }
}

/// The lines that are made from the tables are those that were made from the names of the
/// run, where the tables mirror them: a placeholder is shown like what has no name.
pub proof fn law_tables_give_the_same_lines(
    t: Tables,
    id: Option<i64>,
    time: Seq<char>,
    m: Shown,
    channels: Map<Seq<char>, Seq<char>>,
    users: Map<Seq<char>, Seq<char>>,
    color: bool,
)
    requires
        mirrors(t, channels, users),
    ensures
        message_lines(id, time, m, channel_names_in(t), t.users, color) == message_lines(
            id,
            time,
            m,
            channels,
            users,
            color,
        ),
{
    lemma_resolved_from_tables(m.text, t, channels, users, color);
    assert(name_or_id(channel_names_in(t), m.channel_id) == name_or_id(channels, m.channel_id));
    assert(name_or_id(t.users, m.user_id) == name_or_id(users, m.user_id));
}

/// A message that was recorded live is shown from the tables exactly as it was shown when
/// it arrived.
pub proof fn law_live_messages_replay_the_same(
    t: Tables,
    m: IncomingView,
    thread_id: i64,
    message_id: i64,
    time: Seq<char>,
    channels: Map<Seq<char>, Seq<char>>,
    users: Map<Seq<char>, Seq<char>>,
    color: bool,
)
    requires
        consistent(t),
        save_answers(t, recorded_live(m), thread_id, message_id),
        mirrors(t, channels, users),
    ensures
        ({
            let after = saved(t, recorded_live(m), thread_id, message_id);
            read_back(after, m.channel_id, m.ts) matches Some(again) && replay_output(
                seq![again],
                seq![time],
                channel_names_in(after),
                after.users,
                color,
                1,
            ) == event_output(
                EventView::Message(m),
                Some(message_id),
                time,
                channels,
                users,
                color,
            )
        }),
{
    let row = recorded_live(m);
    let after = saved(t, row, thread_id, message_id);
    law_reading_gives_back_what_was_saved(t, row, thread_id, message_id);
    law_saving_keeps_mirroring(t, row, thread_id, message_id, channels, users);
    let again = read_back(after, m.channel_id, m.ts)->0;
    let s = crate::event::shown_live(m);
    assert(shown_again(again) == s);
    law_tables_give_the_same_lines(after, Some(message_id), time, s, channels, users, color);
    lemma_one_replayed(again, time, channel_names_in(after), after.users, color);
}

/// A found message that was recorded is shown from the tables exactly as it was shown
/// when it was found.
pub proof fn law_found_messages_replay_the_same(
    t: Tables,
    m: HistView,
    thread_id: i64,
    message_id: i64,
    time: Seq<char>,
    channels: Map<Seq<char>, Seq<char>>,
    users: Map<Seq<char>, Seq<char>>,
    color: bool,
)
    requires
        consistent(t),
        save_answers(t, recorded(m), thread_id, message_id),
        mirrors(t, channels, users),
    ensures
        ({
            let after = saved(t, recorded(m), thread_id, message_id);
            read_back(after, m.channel_id, m.ts_raw) matches Some(again) && replay_output(
                seq![again],
                seq![time],
                channel_names_in(after),
                after.users,
                color,
                1,
            ) == message_lines(Some(message_id), time, shown(m), channels, users, color)
        }),
{
    let row = recorded(m);
    let after = saved(t, row, thread_id, message_id);
    law_reading_gives_back_what_was_saved(t, row, thread_id, message_id);
    law_saving_keeps_mirroring(t, row, thread_id, message_id, channels, users);
    let again = read_back(after, m.channel_id, m.ts_raw)->0;
    assert(shown_again(again) == shown(m));
    law_tables_give_the_same_lines(
        after,
        Some(message_id),
        time,
        shown(m),
        channels,
        users,
        color,
    );
    lemma_one_replayed(again, time, channel_names_in(after), after.users, color);
}

proof fn lemma_one_replayed(
    m: LocalView,
    time: Seq<char>,
    channels: Map<Seq<char>, Seq<char>>,
    users: Map<Seq<char>, Seq<char>>,
    color: bool,
)
    ensures
        replay_output(seq![m], seq![time], channels, users, color, 1) == message_lines(
            Some(m.id),
            time,
            shown_again(m),
            channels,
            users,
            color,
        ),
{
    reveal_with_fuel(replay_output, 2);
    let lines = message_lines(Some(m.id), time, shown_again(m), channels, users, color);
    assert(Seq::<Seq<char>>::empty() + lines =~= lines);
}

/// A recorded message is shown with all its parts; a question mark stands for an author who
/// is not known.
pub proof fn law_recorded_messages_are_shown_whole(m: LocalView, user: Seq<char>)
    ensures
        shown_again(m).channel_id == m.channel_id,
        m.user_id == Some(user) ==> shown_again(m).user_id == user,
        m.user_id is None ==> shown_again(m).user_id == seq!['?'],
        shown_again(m).text == m.text,
        shown_again(m).note == m.note,
        shown_again(m).thread_ts == m.thread_ts,
{
    reveal_strlit("?");
    assert("?"@ =~= seq!['?']);
}

/// One message more adds its own lines, under its own id, at the end of the output.
pub proof fn law_records_are_shown_in_order(
    messages: Seq<LocalView>,
    times: Seq<Seq<char>>,
    channels: Map<Seq<char>, Seq<char>>,
    users: Map<Seq<char>, Seq<char>>,
    color: bool,
    m: LocalView,
    time: Seq<char>,
)
    requires
        times.len() == messages.len(),
    ensures
        replay_output(Seq::empty(), Seq::empty(), channels, users, color, 0).len() == 0,
        replay_output(
            messages.push(m),
            times.push(time),
            channels,
            users,
            color,
            messages.len() + 1,
        ) == replay_output(messages, times, channels, users, color, messages.len())
            + message_lines(Some(m.id), time, shown_again(m), channels, users, color),
{
    lemma_replayed_in_front(messages, times, channels, users, color, m, time, messages.len());
}

proof fn lemma_replayed_in_front(
    messages: Seq<LocalView>,
    times: Seq<Seq<char>>,
    channels: Map<Seq<char>, Seq<char>>,
    users: Map<Seq<char>, Seq<char>>,
    color: bool,
    m: LocalView,
    time: Seq<char>,
    n: nat,
)
    requires
        times.len() == messages.len(),
        n <= messages.len(),
    ensures
        replay_output(messages.push(m), times.push(time), channels, users, color, n)
            == replay_output(messages, times, channels, users, color, n),
    decreases n,
{
    if n > 0 {
        lemma_replayed_in_front(messages, times, channels, users, color, m, time, (n - 1) as nat);
    }
}

/// The header names the number of messages and the file that they come from.
pub proof fn law_replay_headers(count: nat, path: Seq<char>)
    ensures
        replay_header(count, path) == "--- "@ + decimal(count as int) + " stored message(s) from "@
            + path + " ---"@,
{
}

} // verus!
