//! What a Slack message says: who wrote it, its text, and what it is when its text
//! does not tell.
use vstd::prelude::*;
use vstd::string::*;

use crate::json::{values, Json, JsonValue};
use crate::names::{name_or_id, NameMap};
use crate::number::{decimal, push_signed, push_unsigned};
use crate::text::{blank, is_blank, join, join_texts, same_text, str_opt, text_opt, texts};

verus! {

/// Whether a message announces a huddle.
pub open spec fn is_huddle(msg: JsonValue) -> bool {
    msg.text_field("subtype"@) == Some("huddle_thread"@)
}

/// Whether a message announces a huddle.
fn huddle(msg: &Json) -> (r: bool)
    ensures
        r == is_huddle(msg@),
{
    match msg.text_at("subtype") {
        Some(kind) => same_text(kind, "huddle_thread"),
        None => false,
    }
}

// ---------------------------------------------------------------------------
// Author.
// ---------------------------------------------------------------------------

/// Who a message is attributed to: whoever started the huddle that it announces,
/// otherwise its user, its bot's name or its bot's id, the first of them that it
/// carries; `?` where there is none or it is empty.
pub open spec fn author(msg: JsonValue) -> Seq<char> {
    let creator = match msg.field("room"@) {
        Some(room) => room.text_field("created_by"@),
        None => None,
    };
    if is_huddle(msg) && creator is Some {
        creator->0
    } else {
        let named = if msg.text_field("user"@) is Some {
            msg.text_field("user"@)
        } else if msg.text_field("username"@) is Some {
            msg.text_field("username"@)
        } else {
            msg.text_field("bot_id"@)
        };
        match named {
            Some(name) => if name.len() > 0 {
                name
            } else {
                "?"@
            },
            None => "?"@,
        }
    }
}

/// The author of a message. A bot post carries no `user` and identifies itself with
/// `username` or `bot_id` instead; a huddle is posted by Slackbot, so the person who
/// started it is the useful attribution.
pub fn message_author(msg: &Json) -> (r: &str)
    ensures
        r@ == author(msg@),
{
    if huddle(msg) {
        if let Some(room) = msg.get("room") {
            if let Some(creator) = room.text_at("created_by") {
                return creator;
            }
        }
    }
    let user: Option<&str> = msg.text_at("user");
    let named: Option<&str> = if user.is_some() {
        user
    } else {
        let username: Option<&str> = msg.text_at("username");
        if username.is_some() {
            username
        } else {
            msg.text_at("bot_id")
        }
    };
    match named {
        Some(name) => if name.is_empty() {
            "?"
        } else {
            name
        },
        None => "?",
    }
}

// ---------------------------------------------------------------------------
// Text.
// ---------------------------------------------------------------------------

/// The text of a leaf of the block tree: an object of a text type that has a text.
pub open spec fn leaf_text(v: JsonValue) -> Option<Seq<char>> {
    let kind = v.text_field("type"@);
    if kind == Some("mrkdwn"@) || kind == Some("plain_text"@) || kind == Some("text"@) {
        v.text_field("text"@)
    } else {
        None
    }
}

/// The texts of the leaves below `v`, in the order in which the tree is walked.
/// Empty texts are left out, and a leaf is not descended into.
pub open spec fn block_parts(v: JsonValue) -> Seq<Seq<char>>
    decreases v, 0nat,
{
    match v {
        JsonValue::Object(fields) => match leaf_text(v) {
            Some(t) => if t.len() > 0 {
                seq![t]
            } else {
                Seq::empty()
            },
            None => field_parts(fields, fields.len()),
        },
        JsonValue::Array(items) => item_parts(items, items.len()),
        _ => Seq::empty(),
    }
}

/// The texts of the leaves below the first `n` items.
pub open spec fn item_parts(items: Seq<JsonValue>, n: nat) -> Seq<Seq<char>>
    decreases items, n,
{
    if n == 0 || n > items.len() {
        Seq::empty()
    } else {
        item_parts(items, (n - 1) as nat) + block_parts(items[n - 1])
    }
}

/// The texts of the leaves below the first `n` fields.
pub open spec fn field_parts(fields: Seq<(Seq<char>, JsonValue)>, n: nat) -> Seq<Seq<char>>
    decreases fields, n,
{
    if n == 0 || n > fields.len() {
        Seq::empty()
    } else {
        field_parts(fields, (n - 1) as nat) + block_parts(fields[n - 1].1)
    }
}

/// The lines of the first `n` blocks: for each block that has texts, these texts run
/// together.
pub open spec fn block_lines(blocks: Seq<JsonValue>, n: nat) -> Seq<Seq<char>>
    decreases n,
{
    if n == 0 || n > blocks.len() {
        Seq::empty()
    } else {
        let parts = block_parts(blocks[n - 1]);
        let lines = block_lines(blocks, (n - 1) as nat);
        if parts.len() > 0 {
            lines.push(join(parts, Seq::empty()))
        } else {
            lines
        }
    }
}

/// The body that the blocks of a message make up, where it is more than white space.
pub open spec fn blocks_text(msg: JsonValue) -> Option<Seq<char>> {
    match msg.items_field("blocks"@) {
        Some(blocks) => {
            let body = join(block_lines(blocks, blocks.len()), "\n"@);
            if is_blank(body) {
                None
            } else {
                Some(body)
            }
        },
        None => None,
    }
}

/// The text of a message: its own, or where that is empty the body of its blocks.
pub open spec fn text_of_message(msg: JsonValue) -> Seq<char> {
    let own = msg.text_or("text"@, Seq::empty());
    if own.len() > 0 {
        own
    } else {
        match blocks_text(msg) {
            Some(body) => body,
            None => Seq::empty(),
        }
    }
}

/// The text of `v`, where it is a leaf of the block tree.
fn leaf(v: &Json) -> (r: Option<&str>)
    ensures
        str_opt(r) == leaf_text(v@),
{
    match v.text_at("type") {
        Some(kind) => if same_text(kind, "mrkdwn") || same_text(kind, "plain_text") || same_text(
            kind,
            "text",
        ) {
            v.text_at("text")
        } else {
            None
        },
        None => None,
    }
}

/// Appends the texts of the leaves below `v` to `out`.
pub fn collect_block_text(v: &Json, out: &mut Vec<String>)
    ensures
        texts(final(out)@) == texts(old(out)@) + block_parts(v@),
    decreases v,
{
    let ghost before = texts(out@);
    match v {
        Json::Object(fields) => {
            if let Some(t) = leaf(v) {
                if !t.is_empty() {
                    out.push(t.to_owned());
                }
                assert(texts(out@) =~= before + block_parts(v@));
                return;
            }
            let ghost all = v@->Object_0;
            let mut i: usize = 0;
            assert(before + field_parts(all, 0) =~= before);
            while i < fields.len()
                invariant
                    i <= fields@.len(),
                    all.len() == fields@.len(),
                    forall|j: int| 0 <= j < all.len() ==> #[trigger] all[j].1 == fields@[j].1@,
                    texts(out@) == before + field_parts(all, i as nat),
                    decreases_to!(v => fields),
                decreases fields@.len() - i,
            {
                let ghost done = texts(out@);
                collect_block_text(&fields[i].1, out);
                assert(done + block_parts(all[i as int].1) =~= before + field_parts(
                    all,
                    (i + 1) as nat,
                ));
                i += 1;
            }
        },
        Json::Array(items) => {
            let ghost all = v@->Array_0;
            let mut i: usize = 0;
            assert(before + item_parts(all, 0) =~= before);
            while i < items.len()
                invariant
                    i <= items@.len(),
                    all.len() == items@.len(),
                    forall|j: int| 0 <= j < all.len() ==> #[trigger] all[j] == items@[j]@,
                    texts(out@) == before + item_parts(all, i as nat),
                    decreases_to!(v => items),
                decreases items@.len() - i,
            {
                let ghost done = texts(out@);
                collect_block_text(&items[i], out);
                assert(done + block_parts(all[i as int]) =~= before + item_parts(
                    all,
                    (i + 1) as nat,
                ));
                i += 1;
            }
        },
        _ => {
            assert(before + block_parts(v@) =~= before);
        },
    }
}

/// The body that the blocks of a message make up. Leaves within one block are inline
/// runs and are concatenated; separate blocks become separate lines.
pub fn text_from_blocks(msg: &Json) -> (r: Option<String>)
    ensures
        text_opt(r) == blocks_text(msg@),
{
    let blocks: &Vec<Json> = match msg.items_at("blocks") {
        Some(blocks) => blocks,
        None => {
            return None;
        },
    };
    let ghost all = values(blocks@);
    let mut lines: Vec<String> = Vec::new();
    let mut i: usize = 0;
    assert(texts(lines@) =~= block_lines(all, 0));
    while i < blocks.len()
        invariant
            i <= blocks@.len(),
            all == values(blocks@),
            texts(lines@) == block_lines(all, i as nat),
        decreases blocks@.len() - i,
    {
        let mut parts: Vec<String> = Vec::new();
        collect_block_text(&blocks[i], &mut parts);
        assert(texts(parts@) =~= block_parts(all[i as int])) by {
            assert(texts(Seq::<String>::empty()) + block_parts(all[i as int]) =~= block_parts(
                all[i as int],
            ));
        }
        assert(parts@.len() == texts(parts@).len());
        if parts.len() > 0 {
            let line: String = join_texts(&parts, "");
            proof {
                reveal_strlit("");
                assert(""@ =~= Seq::empty());
            }
            let ghost done = texts(lines@);
            lines.push(line);
            assert(texts(lines@) =~= done.push(line@));
        }
        i += 1;
    }
    let joined: String = join_texts(&lines, "\n");
    if blank(joined.as_str()) {
        None
    } else {
        Some(joined)
    }
}

/// The text of a message. Bot integrations post block payloads and leave `text`
/// empty, so the body is reassembled from the block tree then.
pub fn message_text(msg: &Json) -> (r: String)
    ensures
        r@ == text_of_message(msg@),
{
    if let Some(own) = msg.text_at("text") {
        if !own.is_empty() {
            return own.to_owned();
        }
    }
    match text_from_blocks(msg) {
        Some(body) => body,
        None => String::new(),
    }
}

// ---------------------------------------------------------------------------
// Payload.
// ---------------------------------------------------------------------------

/// The strings among `items`, in order.
pub open spec fn strings_in(items: Seq<JsonValue>) -> Seq<Seq<char>>
    decreases items.len(),
{
    if items.len() == 0 {
        Seq::empty()
    } else {
        match items.last().as_text() {
            Some(s) => strings_in(items.drop_last()).push(s),
            None => strings_in(items.drop_last()),
        }
    }
}

/// The names of up to the first three of `ids`.
pub open spec fn first_names(ids: Seq<Seq<char>>, users: Map<Seq<char>, Seq<char>>) -> Seq<
    Seq<char>,
> {
    Seq::new(
        if ids.len() < 3 {
            ids.len()
        } else {
            3
        },
        |i: int| name_or_id(users, ids[i]),
    )
}

/// Who took part in a huddle: up to three names, and how many more there were.
pub open spec fn participants(ids: Seq<Seq<char>>, users: Map<Seq<char>, Seq<char>>) -> Seq<char> {
    let names = join(first_names(ids, users), ", "@);
    if ids.len() == 0 {
        "niemand"@
    } else if ids.len() <= 3 {
        names
    } else {
        names + " +"@ + decimal(ids.len() - 3)
    }
}

/// How long a huddle took, in seconds.
pub open spec fn call_span(room: JsonValue) -> int {
    room.int_or("date_end"@, 0) - room.int_or("date_start"@, 0)
}

/// How long a huddle took, in whole minutes.
pub open spec fn call_minutes(room: JsonValue) -> int {
    if call_span(room) > 0 {
        call_span(room) / 60
    } else {
        0
    }
}

/// The label of a huddle.
pub open spec fn call_note(room: JsonValue, users: Map<Seq<char>, Seq<char>>) -> Seq<char> {
    "[Anruf: "@ + participants(strings_in(room.items_or_empty("participant_history"@)), users)
        + " — "@ + decimal(call_minutes(room)) + "m]"@
}

/// The string in the field `key` of `v`, or in the field `other` where there is no
/// field `key` at all; `default` where that is no string.
pub open spec fn label_of(
    v: JsonValue,
    key: Seq<char>,
    other: Seq<char>,
    default: Seq<char>,
) -> Seq<char> {
    if v.field(key) is Some {
        v.text_or(key, default)
    } else {
        v.text_or(other, default)
    }
}

/// The label of an upload: the first file's name, and how many more there are.
pub open spec fn upload_note(files: Seq<JsonValue>) -> Seq<char> {
    let more = if files.len() == 1 {
        Seq::empty()
    } else {
        " +"@ + decimal(files.len() - 1)
    };
    "[Upload: "@ + label_of(files[0], "name"@, "title"@, "Datei"@) + more + "]"@
}

/// The label of a link that Slack unfurled.
pub open spec fn link_note(attachments: Seq<JsonValue>) -> Seq<char> {
    "[Link: "@ + label_of(attachments[0], "title"@, "fallback"@, "Anhang"@) + "]"@
}

/// What a message is, where its text does not tell: a huddle always, an upload always,
/// an unfurled link or an empty message only where there is no text.
pub open spec fn payload_note(
    msg: JsonValue,
    users: Map<Seq<char>, Seq<char>>,
    text_is_empty: bool,
) -> Option<Seq<char>> {
    let files = msg.items_or_empty("files"@);
    let attachments = msg.items_or_empty("attachments"@);
    if is_huddle(msg) {
        match msg.field("room"@) {
            Some(room) => Some(call_note(room, users)),
            None => None,
        }
    } else if files.len() > 0 {
        Some(upload_note(files))
    } else if !text_is_empty {
        None
    } else if attachments.len() > 0 {
        Some(link_note(attachments))
    } else {
        Some("[kein Text]"@)
    }
}

/// Whether the length of the huddle that `msg` announces, if it announces one, can be
/// computed: its start and its end are no more than an `i64` apart.
pub open spec fn call_span_fits(msg: JsonValue) -> bool {
    is_huddle(msg) ==> match msg.field("room"@) {
        Some(room) => i64::MIN <= call_span(room) <= i64::MAX,
        None => true,
    }
}

/// Whether `describe_payload` can describe `msg`.
pub fn can_describe(msg: &Json) -> (r: bool)
    ensures
        r == call_span_fits(msg@),
{
    if huddle(msg) {
        if let Some(room) = msg.get("room") {
            let start: i64 = room.int_at_or("date_start", 0);
            let end: i64 = room.int_at_or("date_end", 0);
            return end.checked_sub(start).is_some();
        }
    }
    true
}

/// The strings among `items`.
fn strings(items: &Vec<Json>) -> (r: Vec<&str>)
    ensures
        r@.map_values(|s: &str| s@) == strings_in(values(items@)),
{
    let mut r: Vec<&str> = Vec::new();
    let ghost all = values(items@);
    let mut i: usize = 0;
    assert(r@.map_values(|s: &str| s@) =~= strings_in(all.take(0)));
    while i < items.len()
        invariant
            i <= items@.len(),
            all == values(items@),
            r@.map_values(|s: &str| s@) == strings_in(all.take(i as int)),
        decreases items@.len() - i,
    {
        let ghost done = r@.map_values(|s: &str| s@);
        assert(all.take(i + 1).drop_last() =~= all.take(i as int));
        assert(all.take(i + 1).last() == items@[i as int]@);
        if let Some(s) = items[i].as_str() {
            r.push(s);
            assert(r@.map_values(|s: &str| s@) =~= done.push(s@));
        }
        i += 1;
    }
    assert(all.take(i as int) =~= all);
    r
}

/// Who took part in a huddle.
fn who_took_part(ids: &Vec<&str>, users: &NameMap) -> (r: String)
    ensures
        r@ == participants(ids@.map_values(|s: &str| s@), users@),
{
    let ghost all = ids@.map_values(|s: &str| s@);
    if ids.len() == 0 {
        return "niemand".to_owned();
    }
    let mut named: Vec<String> = Vec::new();
    let mut i: usize = 0;
    while i < ids.len() && i < 3
        invariant
            i <= ids@.len(),
            i <= 3,
            all == ids@.map_values(|s: &str| s@),
            named@.len() == i,
            forall|j: int| 0 <= j < i ==> #[trigger] named@[j]@ == name_or_id(users@, all[j]),
        decreases 3 - i,
    {
        named.push(users.name_or_id(ids[i]).to_owned());
        i += 1;
    }
    assert(texts(named@) =~= first_names(all, users@));
    let mut who: String = join_texts(&named, ", ");
    if ids.len() > 3 {
        let names: Ghost<Seq<char>> = Ghost(who@);
        who.append(" +");
        push_unsigned(&mut who, (ids.len() - 3) as u64);
        assert(who@ =~= names@ + " +"@ + decimal(all.len() - 3));
    }
    who
}

/// The label of a huddle.
fn describe_call(room: &Json, users: &NameMap) -> (r: String)
    requires
        i64::MIN <= call_span(room@) <= i64::MAX,
    ensures
        r@ == call_note(room@, users@),
{
    let none: Vec<Json> = Vec::new();
    let items: &Vec<Json> = match room.items_at("participant_history") {
        Some(items) => items,
        None => &none,
    };
    assert(values(none@) =~= Seq::empty());
    let ids: Vec<&str> = strings(items);
    let start: i64 = room.int_at_or("date_start", 0);
    let end: i64 = room.int_at_or("date_end", 0);
    let span: i64 = end - start;
    let minutes: i64 = if span > 0 {
        span / 60
    } else {
        0
    };
    let mut note: String = "[Anruf: ".to_owned();
    let who: String = who_took_part(&ids, users);
    note.append(who.as_str());
    note.append(" — ");
    push_signed(&mut note, minutes);
    note.append("m]");
    assert(note@ =~= call_note(room@, users@));
    note
}

/// The string in the field `key` of `v`, or in the field `other` where there is no
/// field `key`; `default` where that is no string.
fn label<'a>(v: &'a Json, key: &str, other: &str, default: &'a str) -> (r: &'a str)
    ensures
        r@ == label_of(v@, key@, other@, default@),
{
    if v.get(key).is_some() {
        v.text_at_or(key, default)
    } else {
        v.text_at_or(other, default)
    }
}

/// Says what a message is when its text does not. An upload is always described,
/// because a caption does not tell what was attached; an unfurled link only where
/// there is no text, since the message repeats the link otherwise.
pub fn describe_payload(msg: &Json, users: &NameMap, text_is_empty: bool) -> (r: Option<String>)
    requires
        call_span_fits(msg@),
    ensures
        text_opt(r) == payload_note(msg@, users@, text_is_empty),
{
    if huddle(msg) {
        return match msg.get("room") {
            Some(room) => Some(describe_call(room, users)),
            None => None,
        };
    }
    if let Some(files) = msg.items_at("files") {
        if files.len() > 0 {
            assert(values(files@)[0] == files@[0]@);
            let mut note: String = "[Upload: ".to_owned();
            note.append(label(&files[0], "name", "title", "Datei"));
            if files.len() > 1 {
                note.append(" +");
                push_unsigned(&mut note, (files.len() - 1) as u64);
            }
            note.append("]");
            assert(note@ =~= upload_note(values(files@)));
            return Some(note);
        }
    }
    if !text_is_empty {
        return None;
    }
    if let Some(attachments) = msg.items_at("attachments") {
        if attachments.len() > 0 {
            assert(values(attachments@)[0] == attachments@[0]@);
            let mut note: String = "[Link: ".to_owned();
            note.append(label(&attachments[0], "title", "fallback", "Anhang"));
            note.append("]");
            assert(note@ =~= link_note(values(attachments@)));
            return Some(note);
        }
    }
    Some("[kein Text]".to_owned())
}

// ---------------------------------------------------------------------------
// Laws.
// ---------------------------------------------------------------------------

/// A message without text always gets a label, so that its line never ends in a bare
/// colon; the one that does not is a huddle without a room.
pub proof fn law_empty_messages_are_labelled(
    msg: JsonValue,
    users: Map<Seq<char>, Seq<char>>,
)
    requires
        is_huddle(msg) ==> msg.field("room"@) is Some,
    ensures
        payload_note(msg, users, true) is Some,
        payload_note(msg, users, true)->0.len() > 0,
{
    reveal_strlit("[kein Text]");
    reveal_strlit("[Link: ");
    reveal_strlit("[Upload: ");
    reveal_strlit("[Anruf: ");
}

/// A caption does not hide what was uploaded: the label of an upload is the same with
/// text and without.
pub proof fn law_uploads_are_labelled_with_and_without_text(
    msg: JsonValue,
    users: Map<Seq<char>, Seq<char>>,
)
    requires
        msg.items_or_empty("files"@).len() > 0,
    ensures
        payload_note(msg, users, false) == payload_note(msg, users, true),
{
}

/// A text of its own wins over the blocks.
pub proof fn law_own_text_wins_over_blocks(msg: JsonValue)
    requires
        msg.text_or("text"@, Seq::empty()).len() > 0,
    ensures
        text_of_message(msg) == msg.text_or("text"@, Seq::empty()),
{
}

/// A message always has an author to show.
pub proof fn law_author_is_shown(msg: JsonValue)
    requires
        is_huddle(msg) ==> (msg.field("room"@) matches Some(room) ==> room.text_field(
            "created_by"@,
        ) != Some(Seq::<char>::empty())),
    ensures
        author(msg).len() > 0,
{
    reveal_strlit("?");
    if is_huddle(msg) {
        if let Some(room) = msg.field("room"@) {
            if let Some(name) = room.text_field("created_by"@) {
                assert(name.len() > 0) by {
                    if name.len() == 0 {
                        assert(name =~= Seq::empty());
                    }
                }
            }
        }
    }
}

/// Whether the field `key` is the string `s`.
pub open spec fn says(v: JsonValue, key: Seq<char>, s: Seq<char>) -> bool {
    v.field(key) == Some(JsonValue::Text(s))
}

/// Whether the field `key` is a string.
pub open spec fn says_something(v: JsonValue, key: Seq<char>) -> bool {
    v.field(key) matches Some(JsonValue::Text(s))
}

/// A huddle is attributed to whoever created its room, whatever else it names.
pub proof fn law_huddles_belong_to_their_creator(
    msg: JsonValue,
    room: JsonValue,
    creator: Seq<char>,
)
    requires
        says(msg, "subtype"@, "huddle_thread"@),
        msg.field("room"@) == Some(room),
        says(room, "created_by"@, creator),
    ensures
        author(msg) == creator,
{
}

/// Any other message is attributed to the first string among its user, its username and its
/// bot, whatever that is; a question mark stands in for an empty one, and for none.
pub proof fn law_messages_belong_to_the_first_named(msg: JsonValue, name: Seq<char>)
    requires
        !says(msg, "subtype"@, "huddle_thread"@) || msg.field("room"@) is None || !says_something(
            msg.field("room"@)->0,
            "created_by"@,
        ),
    ensures
        says(msg, "user"@, name) && name.len() > 0 ==> author(msg) == name,
        says(msg, "user"@, name) && name.len() == 0 ==> author(msg) == "?"@,
        !says_something(msg, "user"@) && says(msg, "username"@, name) && name.len() > 0 ==> author(
            msg,
        ) == name,
        !says_something(msg, "user"@) && says(msg, "username"@, name) && name.len() == 0
            ==> author(msg) == "?"@,
        !says_something(msg, "user"@) && !says_something(msg, "username"@) && says(
            msg,
            "bot_id"@,
            name,
        ) && name.len() > 0 ==> author(msg) == name,
        !says_something(msg, "user"@) && !says_something(msg, "username"@) && says(
            msg,
            "bot_id"@,
            name,
        ) && name.len() == 0 ==> author(msg) == "?"@,
        !says_something(msg, "user"@) && !says_something(msg, "username"@) && !says_something(
            msg,
            "bot_id"@,
        ) ==> author(msg) == "?"@,
{
}

/// The text of a leaf is its only part, whatever its other fields are; an empty one is none.
pub proof fn law_leaves_are_parts(fields: Seq<(Seq<char>, JsonValue)>, text: Seq<char>)
    requires
        says(JsonValue::Object(fields), "type"@, "mrkdwn"@) || says(
            JsonValue::Object(fields),
            "type"@,
            "plain_text"@,
        ) || says(JsonValue::Object(fields), "type"@, "text"@),
        says(JsonValue::Object(fields), "text"@, text),
    ensures
        text.len() > 0 ==> block_parts(JsonValue::Object(fields)) == seq![text],
        text.len() == 0 ==> block_parts(JsonValue::Object(fields)).len() == 0,
{
}

/// Anything else is descended into: the parts of a list are those of its items one after the
/// other, and the parts of an object are those of its values.
pub proof fn law_structure_is_descended_into(
    items: Seq<JsonValue>,
    item: JsonValue,
    fields: Seq<(Seq<char>, JsonValue)>,
)
    ensures
        block_parts(JsonValue::Array(Seq::empty())).len() == 0,
        block_parts(JsonValue::Array(items.push(item))) == block_parts(JsonValue::Array(items))
            + block_parts(item),
        !says(JsonValue::Object(fields), "type"@, "mrkdwn"@) && !says(
            JsonValue::Object(fields),
            "type"@,
            "plain_text"@,
        ) && !says(JsonValue::Object(fields), "type"@, "text"@) ==> block_parts(
            JsonValue::Object(fields),
        ) == block_parts(
            JsonValue::Array(fields.map_values(|field: (Seq<char>, JsonValue)| field.1)),
        ),
        !says_something(JsonValue::Object(fields), "text"@) ==> block_parts(
            JsonValue::Object(fields),
        ) == block_parts(
            JsonValue::Array(fields.map_values(|field: (Seq<char>, JsonValue)| field.1)),
        ),
        !(item is Object) && !(item is Array) ==> block_parts(item).len() == 0,
{
    let more = items.push(item);
    lemma_item_parts_of_prefix(items, item, items.len());
    assert(block_parts(JsonValue::Array(more)) == item_parts(more, more.len()));
    assert(block_parts(JsonValue::Array(items)) == item_parts(items, items.len()));
    assert(more[more.len() - 1] == item);
    lemma_field_parts(fields, fields.len());
    let inside = fields.map_values(|field: (Seq<char>, JsonValue)| field.1);
    assert(block_parts(JsonValue::Array(inside)) == item_parts(inside, inside.len()));
    assert(block_parts(JsonValue::Array(Seq::<JsonValue>::empty())) == item_parts(
        Seq::<JsonValue>::empty(),
        0,
    ));
}

proof fn lemma_item_parts_of_prefix(items: Seq<JsonValue>, item: JsonValue, n: nat)
    requires
        n <= items.len(),
    ensures
        item_parts(items.push(item), n) == item_parts(items, n),
    decreases n,
{
    if n > 0 {
        lemma_item_parts_of_prefix(items, item, (n - 1) as nat);
        assert(items.push(item)[n - 1] == items[n - 1]);
    }
}

proof fn lemma_field_parts(fields: Seq<(Seq<char>, JsonValue)>, n: nat)
    requires
        n <= fields.len(),
    ensures
        field_parts(fields, n) == item_parts(
            fields.map_values(|field: (Seq<char>, JsonValue)| field.1),
            n,
        ),
    decreases n,
{
    if n > 0 {
        lemma_field_parts(fields, (n - 1) as nat);
    }
}

proof fn lemma_block_lines_of_prefix(blocks: Seq<JsonValue>, block: JsonValue, n: nat)
    requires
        n <= blocks.len(),
    ensures
        block_lines(blocks.push(block), n) == block_lines(blocks, n),
    decreases n,
{
    if n > 0 {
        lemma_block_lines_of_prefix(blocks, block, (n - 1) as nat);
        assert(blocks.push(block)[n - 1] == blocks[n - 1]);
    }
}

/// One more block that holds text adds exactly one line, its parts run together, however
/// many lines there are; a block without text adds none.
pub proof fn law_every_block_with_text_is_a_line(blocks: Seq<JsonValue>, block: JsonValue)
    ensures
        block_lines(Seq::empty(), 0).len() == 0,
        block_parts(block).len() > 0 ==> block_lines(blocks.push(block), blocks.len() + 1)
            == block_lines(blocks, blocks.len()).push(join(block_parts(block), Seq::empty())),
        block_parts(block).len() == 0 ==> block_lines(blocks.push(block), blocks.len() + 1)
            == block_lines(blocks, blocks.len()),
{
    lemma_block_lines_of_prefix(blocks, block, blocks.len());
    assert(blocks.push(block)[blocks.len() as int] == block);
}

/// The text of the blocks is all of their lines, each behind a line break but the first;
/// there is none where that is white space alone, and none without blocks.
pub proof fn law_blocks_make_up_the_text(msg: JsonValue, blocks: Seq<JsonValue>)
    ensures
        msg.field("blocks"@) == Some(JsonValue::Array(blocks)) ==> {
            let all = join(block_lines(blocks, blocks.len()), seq!['\n']);
            if is_blank(all) {
                blocks_text(msg) is None
            } else {
                blocks_text(msg) == Some(all)
            }
        },
        !(msg.field("blocks"@) matches Some(JsonValue::Array(l))) ==> blocks_text(msg) is None,
{
    reveal_strlit("\n");
    assert("\n"@ =~= seq!['\n']);
}

/// The text of a message is its own where it has one, and otherwise what its blocks hold.
pub proof fn law_text_of_a_message(msg: JsonValue, own: Seq<char>)
    ensures
        says(msg, "text"@, own) && own.len() > 0 ==> text_of_message(msg) == own,
        (says(msg, "text"@, own) && own.len() == 0) || !says_something(msg, "text"@) ==> (
        match blocks_text(msg) {
            Some(t) => text_of_message(msg) == t,
            None => text_of_message(msg).len() == 0,
        }),
{
}

/// The strings of a list are kept, all of them and in order, and nothing else.
pub proof fn law_strings_are_kept(items: Seq<JsonValue>, item: JsonValue, s: Seq<char>)
    ensures
        strings_in(Seq::empty()).len() == 0,
        strings_in(items.push(JsonValue::Text(s))) == strings_in(items).push(s),
        !(item is Text) ==> strings_in(items.push(item)) == strings_in(items),
{
    assert(items.push(item).drop_last() =~= items);
    assert(items.push(JsonValue::Text(s)).drop_last() =~= items);
}

/// The name of the `i`th of `ids`.
pub open spec fn nth_name(
    ids: Seq<Seq<char>>,
    users: Map<Seq<char>, Seq<char>>,
    i: int,
) -> Seq<char> {
    name_or_id(users, ids[i])
}

/// The first three participants of a call are named, and the rest are counted.
pub proof fn law_participants(ids: Seq<Seq<char>>, users: Map<Seq<char>, Seq<char>>)
    ensures
        ids.len() == 0 ==> participants(ids, users) == "niemand"@,
        ids.len() == 1 ==> participants(ids, users) == nth_name(ids, users, 0),
        ids.len() == 2 ==> participants(ids, users) == nth_name(ids, users, 0) + seq![',', ' ']
            + nth_name(ids, users, 1),
        ids.len() >= 3 ==> participants(ids, users) == nth_name(ids, users, 0) + seq![',', ' ']
            + nth_name(ids, users, 1) + seq![',', ' '] + nth_name(ids, users, 2) + (if ids.len()
            == 3 {
            Seq::empty()
        } else {
            seq![' ', '+'] + decimal(ids.len() - 3)
        }),
{
    reveal_strlit(", ");
    reveal_strlit(" +");
    assert(", "@ =~= seq![',', ' ']);
    assert(" +"@ =~= seq![' ', '+']);
    let names = first_names(ids, users);
    reveal_with_fuel(join, 4);
    if ids.len() >= 3 {
        assert(names.drop_last().drop_last() =~= seq![names[0]]);
        assert(participants(ids, users) =~= nth_name(ids, users, 0) + seq![',', ' '] + nth_name(
            ids,
            users,
            1,
        ) + seq![',', ' '] + nth_name(ids, users, 2) + (if ids.len() == 3 {
            Seq::empty()
        } else {
            seq![' ', '+'] + decimal(ids.len() - 3)
        }));
    }
}

/// A huddle is labelled with who took part and with the whole minutes that it lasted, of
/// which there are none where it ends before it starts.
pub proof fn law_calls_are_labelled(
    msg: JsonValue,
    room: JsonValue,
    users: Map<Seq<char>, Seq<char>>,
    text_is_empty: bool,
    start: i64,
    end: i64,
    minutes: int,
)
    requires
        says(msg, "subtype"@, "huddle_thread"@),
        msg.field("room"@) == Some(room),
        room.field("date_start"@) == Some(JsonValue::Number(Some(start))) || (start == 0 && !(
        room.field("date_start"@) matches Some(JsonValue::Number(Some(n))))),
        room.field("date_end"@) == Some(JsonValue::Number(Some(end))) || (end == 0 && !(room.field(
            "date_end"@,
        ) matches Some(JsonValue::Number(Some(n))))),
        end >= start ==> 60 * minutes <= end - start < 60 * (minutes + 1),
        end < start ==> minutes == 0,
    ensures
        payload_note(msg, users, text_is_empty) == Some(
            "[Anruf: "@ + participants(
                match room.field("participant_history"@) {
                    Some(JsonValue::Array(items)) => strings_in(items),
                    _ => Seq::empty(),
                },
                users,
            ) + " — "@ + decimal(minutes) + "m]"@,
        ),
{
    assert(strings_in(Seq::empty()) =~= Seq::empty());
    assert(call_minutes(room) == minutes);
}

/// Without a room a huddle has no label.
pub proof fn law_calls_without_a_room_have_no_label(
    msg: JsonValue,
    users: Map<Seq<char>, Seq<char>>,
    text_is_empty: bool,
)
    requires
        says(msg, "subtype"@, "huddle_thread"@),
        msg.field("room"@) is None,
    ensures
        payload_note(msg, users, text_is_empty) is None,
{
}

/// Whether `label` is what `v` is called: its `key`, or its `other` where it has no `key`,
/// as far as that is a string, and otherwise `default`.
pub open spec fn is_called(
    v: JsonValue,
    key: Seq<char>,
    other: Seq<char>,
    default: Seq<char>,
    label: Seq<char>,
) -> bool {
    ||| says(v, key, label)
    ||| v.field(key) is None && says(v, other, label)
    ||| v.field(key) is Some && !says_something(v, key) && label == default
    ||| v.field(key) is None && !says_something(v, other) && label == default
}

/// An upload is labelled by the name of its first file, whether there is text or not; the
/// others are counted.
pub proof fn law_uploads_are_labelled(
    msg: JsonValue,
    files: Seq<JsonValue>,
    users: Map<Seq<char>, Seq<char>>,
    text_is_empty: bool,
    name: Seq<char>,
)
    requires
        !says(msg, "subtype"@, "huddle_thread"@),
        msg.field("files"@) == Some(JsonValue::Array(files)),
        files.len() > 0,
        is_called(files[0], "name"@, "title"@, "Datei"@, name),
    ensures
        files.len() == 1 ==> payload_note(msg, users, text_is_empty) == Some(
            "[Upload: "@ + name + "]"@,
        ),
        files.len() > 1 ==> payload_note(msg, users, text_is_empty) == Some(
            "[Upload: "@ + name + " +"@ + decimal(files.len() - 1) + "]"@,
        ),
{
    let label = "[Upload: "@ + name;
    assert(label + Seq::empty() =~= label);
    assert(label + (" +"@ + decimal(files.len() - 1)) =~= label + " +"@ + decimal(files.len() - 1));
}

/// A message without files is labelled only where it has no text: by the title of its first
/// attachment, or as empty where it has none.
pub proof fn law_other_messages_are_labelled_without_text(
    msg: JsonValue,
    users: Map<Seq<char>, Seq<char>>,
    attachments: Seq<JsonValue>,
    title: Seq<char>,
)
    requires
        !says(msg, "subtype"@, "huddle_thread"@),
        msg.field("files"@) matches Some(JsonValue::Array(files)) ==> files.len() == 0,
    ensures
        payload_note(msg, users, false) is None,
        msg.field("attachments"@) == Some(JsonValue::Array(attachments)) && attachments.len() > 0
            && is_called(attachments[0], "title"@, "fallback"@, "Anhang"@, title) ==> payload_note(
            msg,
            users,
            true,
        ) == Some("[Link: "@ + title + "]"@),
        (msg.field("attachments"@) matches Some(JsonValue::Array(l)) ==> l.len() == 0)
            ==> payload_note(msg, users, true) == Some("[kein Text]"@),
{
}

/// A message can be described unless it is a huddle whose length does not fit 64 bits.
pub proof fn law_what_can_be_described(msg: JsonValue, room: JsonValue)
    ensures
        !says(msg, "subtype"@, "huddle_thread"@) || msg.field("room"@) is None ==> call_span_fits(
            msg,
        ),
        says(msg, "subtype"@, "huddle_thread"@) && msg.field("room"@) == Some(room) ==> (
        call_span_fits(msg) <==> i64::MIN <= room.int_or("date_end"@, 0) - room.int_or(
            "date_start"@,
            0,
        ) <= i64::MAX),
{
}

} // verus!
