//! Slack's message markup: references, HTML entities and emoji shortcodes.
use vstd::prelude::*;
use vstd::string::*;

use crate::color::{c, paint, painted, RESET, YELLOW};
use crate::emoji::{emoji, emoji_for};
use crate::emoji_rows::law_known_names_are_shortcodes;
use crate::names::{name_or_id, NameMap};
use crate::text::{
    after, before, chars_of, find, find_from, lemma_find, lemma_find_is, push_range, replace,
    replace_text, same_text, starts_with, text_of, texts,
};

verus! {

// ---------------------------------------------------------------------------
// References.
// ---------------------------------------------------------------------------

/// The id that a reference names: what stands before its label.
pub open spec fn reference_id(inner: Seq<char>) -> Seq<char> {
    before(inner.skip(1), '|')
}

/// The label of a reference: what stands behind the first `|`; empty where there is none.
pub open spec fn reference_label(inner: Seq<char>) -> Seq<char> {
    after(inner.skip(1), '|')
}

/// What a reference to a channel is shown as: the channel's name; where it has none but
/// its id, `#` and the label of the reference, or the id where the label is missing or
/// empty.
pub open spec fn channel_shown(channels: Map<Seq<char>, Seq<char>>, inner: Seq<char>) -> Seq<char> {
    let id = reference_id(inner);
    let label = reference_label(inner);
    if channels.contains_key(id) && channels[id] != id {
        channels[id]
    } else if label.len() > 0 {
        seq!['#'] + label
    } else {
        seq!['#'] + id
    }
}

/// What the reference `<inner>` is shown as, where it is one: `@U123` as the
/// user's name behind an `@`, `#C123|foo` as the channel's name or else as `#foo`, `!here`
/// as `@here`.
pub open spec fn reference(
    inner: Seq<char>,
    channels: Map<Seq<char>, Seq<char>>,
    users: Map<Seq<char>, Seq<char>>,
    color: bool,
) -> Option<Seq<char>> {
    if inner.len() == 0 {
        None
    } else if inner[0] == '@' {
        Some(painted(color, YELLOW@, seq!['@'] + name_or_id(users, reference_id(inner))))
    } else if inner[0] == '#' {
        Some(painted(color, YELLOW@, channel_shown(channels, inner)))
    } else if inner[0] == '!' {
        Some(painted(color, YELLOW@, seq!['@'] + inner.skip(1)))
    } else {
        None
    }
}

/// What stands between the `<` that `text` begins with and the next `>`, where
/// `text` begins so.
pub open spec fn bracketed(text: Seq<char>) -> Option<Seq<char>> {
    if text.len() > 0 && text[0] == '<' && find(text, '>') < text.len() {
        Some(text.subrange(1, find(text, '>')))
    } else {
        None
    }
}

/// `text` with every reference shown by name; everything else as it is.
pub open spec fn resolved(
    text: Seq<char>,
    channels: Map<Seq<char>, Seq<char>>,
    users: Map<Seq<char>, Seq<char>>,
    color: bool,
) -> Seq<char>
    decreases text.len(),
{
    proof {
        lemma_find(text, '>');
    }
    if text.len() == 0 {
        Seq::empty()
    } else {
        match bracketed(text) {
            Some(inner) => match reference(inner, channels, users, color) {
                Some(shown) => shown + resolved(
                    text.skip(find(text, '>') + 1),
                    channels,
                    users,
                    color,
                ),
                None => seq![text[0]] + resolved(text.drop_first(), channels, users, color),
            },
            None => seq![text[0]] + resolved(text.drop_first(), channels, users, color),
        }
    }
}

/// Appends to `out` what the reference `<chars[from..to]>` is shown as. Returns
/// false, and appends nothing, where it is none.
#[verifier::rlimit(40)]
fn push_reference(
    out: &mut String,
    chars: &Vec<char>,
    from: usize,
    to: usize,
    channels: &NameMap,
    users: &NameMap,
    color: bool,
) -> (r: bool)
    requires
        from <= to < chars@.len(),
        chars@[to as int] == '>',
    ensures
        match reference(chars@.subrange(from as int, to as int), channels@, users@, color) {
            Some(shown) => r && final(out)@ == old(out)@ + shown,
            None => !r && final(out)@ == old(out)@,
        },
{
    let ghost inner = chars@.subrange(from as int, to as int);
    if from == to {
        return false;
    }
    let kind: char = chars[from];
    assert(inner[0] == kind);
    if kind != '@' && kind != '#' && kind != '!' {
        return false;
    }
    out.append(c(color, YELLOW));
    if kind == '!' {
        out.push('@');
        push_range(out, chars, from + 1, to);
        assert(inner.skip(1) =~= chars@.subrange(from + 1, to as int));
        assert(out@ =~= old(out)@ + paint(color, YELLOW@) + (seq!['@'] + inner.skip(1)));
    } else {
        let body: String = text_of(chars, from + 1, to);
        assert(inner.skip(1) =~= chars@.subrange(from + 1, to as int));
        let label: Vec<char> = chars_of(body.as_str());
        let end: usize = find_from(&label, 0, '|');
        assert(label@.skip(0) =~= label@);
        let id: String = text_of(&label, 0, end);
        assert(id@ =~= reference_id(inner));
        if kind == '@' {
            out.push('@');
            out.append(users.name_or_id(id.as_str()));
            assert(out@ =~= old(out)@ + paint(color, YELLOW@) + (seq!['@'] + name_or_id(
                users@,
                id@,
            )));
        } else {
            let name: &str = channels.name_or_id(id.as_str());
            if !same_text(name, id.as_str()) {
                out.append(name);
            } else {
                out.push('#');
                if end + 1 < label.len() {
                    push_range(out, &label, end + 1, label.len());
                    assert(label@.subrange(end + 1, label@.len() as int) =~= reference_label(
                        inner,
                    ));
                } else {
                    out.append(id.as_str());
                }
            }
            assert(out@ =~= old(out)@ + paint(color, YELLOW@) + channel_shown(channels@, inner));
        }
    }
    out.append(c(color, RESET));
    assert(out@ =~= old(out)@ + reference(inner, channels@, users@, color)->0);
    true
}

/// Resolves Slack's inline reference syntax: `<@U123>` to `@Name`, `<#C123|foo>` to
/// `#foo` or the resolved channel name, `<!here>`, `<!channel>` and `<!everyone>` to
/// `@here` and so on. Links such as `<https://...|label>` are left untouched.
pub fn resolve_mentions(text: &str, channels: &NameMap, users: &NameMap, color: bool) -> (r: String)
    ensures
        r@ == resolved(text@, channels@, users@, color),
{
    let chars: Vec<char> = chars_of(text);
    let mut out: String = String::new();
    let mut i: usize = 0;
    assert(chars@.skip(0) =~= chars@);
    assert(out@ + resolved(chars@, channels@, users@, color) =~= resolved(
        chars@,
        channels@,
        users@,
        color,
    ));
    while i < chars.len()
        invariant
            i <= chars@.len(),
            out@ + resolved(chars@.skip(i as int), channels@, users@, color) == resolved(
                text@,
                channels@,
                users@,
                color,
            ),
        decreases chars@.len() - i,
    {
        let ghost rest = chars@.skip(i as int);
        let ghost done = out@;
        assert(rest[0] == chars@[i as int]);
        assert(rest.drop_first() =~= chars@.skip(i + 1));
        let mut shown: bool = false;
        if chars[i] == '<' {
            let end: usize = find_from(&chars, i, '>');
            proof {
                lemma_find(rest, '>');
            }
            if end < chars.len() {
                assert(end > i);
                assert(bracketed(rest) == Some(rest.subrange(1, end - i)));
                assert(rest.subrange(1, end - i) =~= chars@.subrange(i + 1, end as int));
                shown = push_reference(&mut out, &chars, i + 1, end, channels, users, color);
                if shown {
                    assert(rest.skip(end - i + 1) =~= chars@.skip(end + 1));
                    let ghost one = reference(
                        chars@.subrange(i + 1, end as int),
                        channels@,
                        users@,
                        color,
                    )->0;
                    let ghost more = resolved(chars@.skip(end + 1), channels@, users@, color);
                    assert(done + (one + more) =~= out@ + more);
                    i = end + 1;
                }
            }
        }
        if !shown {
            out.push(chars[i]);
            let ghost more = resolved(chars@.skip(i + 1), channels@, users@, color);
            assert(done + (seq![rest[0]] + more) =~= out@ + more);
            i += 1;
        }
    }
    assert(chars@.skip(i as int) =~= Seq::empty());
    assert(out@ + Seq::<char>::empty() =~= out@);
    out
}

// ---------------------------------------------------------------------------
// Mentioned users.
// ---------------------------------------------------------------------------

/// The ids of the users that `text` mentions, in order and as often as it does.
pub open spec fn mention_ids(text: Seq<char>) -> Seq<Seq<char>>
    decreases text.len(),
{
    if text.len() < 2 {
        Seq::empty()
    } else if text[0] == '<' && text[1] == '@' {
        let rest = text.skip(2);
        proof {
            lemma_find(rest, '>');
        }
        if find(rest, '>') < rest.len() {
            let id = before(before(rest, '>'), '|');
            let more = mention_ids(after(rest, '>'));
            if id.len() > 0 {
                seq![id] + more
            } else {
                more
            }
        } else {
            Seq::empty()
        }
    } else {
        mention_ids(text.drop_first())
    }
}

/// The first occurrence of each item, in order.
pub open spec fn first_of_each(items: Seq<Seq<char>>) -> Seq<Seq<char>>
    decreases items.len(),
{
    if items.len() == 0 {
        Seq::empty()
    } else {
        let earlier = first_of_each(items.drop_last());
        if earlier.contains(items.last()) {
            earlier
        } else {
            earlier.push(items.last())
        }
    }
}

/// Whether `ids` holds `id`.
fn holds(ids: &Vec<String>, id: &str) -> (r: bool)
    ensures
        r == texts(ids@).contains(id@),
{
    let mut i: usize = 0;
    while i < ids.len()
        invariant
            i <= ids@.len(),
            forall|j: int| 0 <= j < i ==> texts(ids@)[j] != id@,
        decreases ids@.len() - i,
    {
        if same_text(ids[i].as_str(), id) {
            assert(texts(ids@)[i as int] == id@);
            return true;
        }
        i += 1;
    }
    false
}

/// The ids of the mentioned users, each once, in the order of their first mention.
pub fn extract_mentions(text: &str) -> (r: Vec<String>)
    ensures
        texts(r@) == first_of_each(mention_ids(text@)),
{
    let chars: Vec<char> = chars_of(text);
    let mut ids: Vec<String> = Vec::new();
    let ghost mut seen: Seq<Seq<char>> = Seq::empty();
    let mut i: usize = 0;
    assert(chars@.skip(0) =~= chars@);
    assert(seen + mention_ids(chars@) =~= mention_ids(chars@));
    assert(texts(ids@) =~= Seq::empty());
    while chars.len() - i >= 2
        invariant
            i <= chars@.len(),
            seen + mention_ids(chars@.skip(i as int)) == mention_ids(text@),
            texts(ids@) == first_of_each(seen),
        decreases chars@.len() - i,
    {
        let ghost rest = chars@.skip(i as int);
        assert(rest[0] == chars@[i as int]);
        assert(rest[1] == chars@[i + 1]);
        if chars[i] == '<' && chars[i + 1] == '@' {
            let end: usize = find_from(&chars, i + 2, '>');
            let ghost inner = rest.skip(2);
            assert(inner =~= chars@.skip(i + 2));
            if end == chars.len() {
                assert(seen + Seq::empty() =~= seen);
                return ids;
            }
            let body: String = text_of(&chars, i + 2, end);
            assert(body@ =~= before(inner, '>'));
            let label: Vec<char> = chars_of(body.as_str());
            let stop: usize = find_from(&label, 0, '|');
            assert(label@.skip(0) =~= label@);
            let id: String = text_of(&label, 0, stop);
            assert(id@ =~= before(before(inner, '>'), '|'));
            assert(after(inner, '>') =~= chars@.skip(end + 1));
            let ghost more = mention_ids(chars@.skip(end + 1));
            if stop > 0 {
                proof {
                    assert(seen + (seq![id@] + more) =~= seen.push(id@) + more);
                    assert(seen.push(id@).drop_last() =~= seen);
                    seen = seen.push(id@);
                }
                if !holds(&ids, id.as_str()) {
                    let ghost kept = texts(ids@);
                    ids.push(id);
                    assert(texts(ids@) =~= kept.push(id@));
                }
            }
            i = end + 1;
        } else {
            assert(rest.drop_first() =~= chars@.skip(i + 1));
            i += 1;
        }
    }
    assert(seen + Seq::empty() =~= seen);
    ids
}

// ---------------------------------------------------------------------------
// HTML entities.
// ---------------------------------------------------------------------------

/// `text` with the three entities that Slack writes replaced by their characters,
/// the ampersand last.
pub open spec fn decoded(text: Seq<char>) -> Seq<char> {
    replace(replace(replace(text, "&lt;"@, "<"@), "&gt;"@, ">"@), "&amp;"@, "&"@)
}

/// Decodes the entities that Slack escapes message text with. Runs after
/// `resolve_mentions`, which relies on literal angle brackets being markup.
pub fn decode_html_entities(text: &str) -> (r: String)
    ensures
        r@ == decoded(text@),
{
    proof {
        reveal_strlit("&lt;");
        reveal_strlit("&gt;");
        reveal_strlit("&amp;");
    }
    let text: String = replace_text(text, "&lt;", "<");
    let text: String = replace_text(text.as_str(), "&gt;", ">");
    replace_text(text.as_str(), "&amp;", "&")
}

// ---------------------------------------------------------------------------
// Emoji.
// ---------------------------------------------------------------------------

/// The characters that a shortcode is written with.
pub open spec fn is_shortcode_char(ch: char) -> bool {
    ||| '0' <= ch <= '9'
    ||| 'A' <= ch <= 'Z'
    ||| 'a' <= ch <= 'z'
    ||| ch == '_'
    ||| ch == '+'
    ||| ch == '-'
}

/// Whether `name` is written like a shortcode.
pub open spec fn is_shortcode(name: Seq<char>) -> bool {
    name.len() > 0 && forall|i: int| 0 <= i < name.len() ==> is_shortcode_char(#[trigger] name[i])
}

/// The emoji of the shortcode that `text` begins with, where it begins with a known
/// one between colons.
pub open spec fn leading_emoji(text: Seq<char>) -> Option<Seq<char>> {
    if text.len() > 0 && text[0] == ':' {
        let rest = text.drop_first();
        if find(rest, ':') < rest.len() && is_shortcode(before(rest, ':')) {
            emoji(before(rest, ':'))
        } else {
            None
        }
    } else {
        None
    }
}

/// `text` with every known shortcode replaced by its emoji; everything else as it is.
pub open spec fn emojified(text: Seq<char>) -> Seq<char>
    decreases text.len(),
{
    if text.len() == 0 {
        Seq::empty()
    } else {
        match leading_emoji(text) {
            Some(e) => {
                proof {
                    lemma_find(text.drop_first(), ':');
                }
                e + emojified(after(text.drop_first(), ':'))
            },
            None => seq![text[0]] + emojified(text.drop_first()),
        }
    }
}

/// Whether `chars[from..to]` is written like a shortcode.
fn looks_like_shortcode(chars: &Vec<char>, from: usize, to: usize) -> (r: bool)
    requires
        from <= to <= chars@.len(),
    ensures
        r == is_shortcode(chars@.subrange(from as int, to as int)),
{
    let ghost name = chars@.subrange(from as int, to as int);
    if from == to {
        return false;
    }
    let mut i: usize = from;
    while i < to
        invariant
            from <= i <= to <= chars@.len(),
            name == chars@.subrange(from as int, to as int),
            forall|j: int| 0 <= j < i - from ==> is_shortcode_char(#[trigger] name[j]),
        decreases to - i,
    {
        let ch: char = chars[i];
        assert(name[i - from] == ch);
        if !(('0' <= ch && ch <= '9') || ('A' <= ch && ch <= 'Z') || ('a' <= ch && ch <= 'z')
            || ch == '_' || ch == '+' || ch == '-') {
            return false;
        }
        i += 1;
    }
    true
}

/// Replaces `:shortcode:` with the matching emoji where it is a known name.
/// Unrecognized shortcodes are left exactly as they are.
pub fn resolve_emoji(text: &str) -> (r: String)
    ensures
        r@ == emojified(text@),
{
    let chars: Vec<char> = chars_of(text);
    let mut out: String = String::new();
    let mut i: usize = 0;
    assert(chars@.skip(0) =~= chars@);
    assert(out@ + emojified(chars@) =~= emojified(chars@));
    while i < chars.len()
        invariant
            i <= chars@.len(),
            out@ + emojified(chars@.skip(i as int)) == emojified(text@),
        decreases chars@.len() - i,
    {
        let ghost text_left = chars@.skip(i as int);
        let ghost rest = text_left.drop_first();
        let ghost done = out@;
        assert(text_left[0] == chars@[i as int]);
        assert(rest =~= chars@.skip(i + 1));
        let mut shown: bool = false;
        if chars[i] == ':' {
            let end: usize = find_from(&chars, i + 1, ':');
            if end < chars.len() {
                assert(before(rest, ':') =~= chars@.subrange(i + 1, end as int));
                if looks_like_shortcode(&chars, i + 1, end) {
                    let name: String = text_of(&chars, i + 1, end);
                    match emoji_for(name.as_str()) {
                        Some(e) => {
                            out.append(e);
                            assert(after(rest, ':') =~= chars@.skip(end + 1));
                            let ghost more = emojified(chars@.skip(end + 1));
                            assert(done + (e@ + more) =~= out@ + more);
                            shown = true;
                            i = end + 1;
                        },
                        None => {},
                    }
                }
            }
        }
        if !shown {
            assert(leading_emoji(text_left) is None);
            out.push(chars[i]);
            let ghost more = emojified(rest);
            assert(done + (seq![text_left[0]] + more) =~= out@ + more);
            i += 1;
        }
    }
    assert(chars@.skip(i as int) =~= Seq::empty());
    assert(out@ + Seq::<char>::empty() =~= out@);
    out
}

// ---------------------------------------------------------------------------
// Laws.
// ---------------------------------------------------------------------------

/// Whether a reference may begin at position `i`: a `<` before `@`, `#` or `!`.
pub open spec fn opens_reference(text: Seq<char>, i: int) -> bool {
    0 <= i < text.len() - 1 && text[i] == '<' && (text[i + 1] == '@' || text[i + 1] == '#' || text[i
        + 1] == '!')
}

/// Text in which every `<` before `@`, `#` or `!` is without a `>` behind it, links and
/// plain text among it, is left untouched by `resolve_mentions`.
pub proof fn law_text_without_references_is_untouched(
    text: Seq<char>,
    channels: Map<Seq<char>, Seq<char>>,
    users: Map<Seq<char>, Seq<char>>,
    color: bool,
)
    requires
        forall|i: int| #[trigger] opens_reference(text, i) ==> !text.skip(i).contains('>'),
    ensures
        resolved(text, channels, users, color) == text,
    decreases text.len(),
{
    if text.len() > 0 {
        let rest = text.drop_first();
        assert forall|i: int| #[trigger] opens_reference(rest, i) implies !rest.skip(i).contains(
            '>',
        ) by {
            assert(opens_reference(text, i + 1));
            assert(rest.skip(i) =~= text.skip(i + 1));
        }
        law_text_without_references_is_untouched(rest, channels, users, color);
        lemma_find(text, '>');
        if let Some(inner) = bracketed(text) {
            if inner.len() > 0 {
                assert(inner[0] == text[1]);
                assert(text.skip(0) =~= text);
                assert(!opens_reference(text, 0));
            }
        }
        assert(seq![text[0]] + rest =~= text);
    }
}

/// The ids of the users whose names `resolve_mentions` shows in `text`, in order.
pub open spec fn shown_user_ids(text: Seq<char>) -> Seq<Seq<char>>
    decreases text.len(),
{
    proof {
        lemma_find(text, '>');
    }
    if text.len() == 0 {
        Seq::empty()
    } else {
        match bracketed(text) {
            Some(inner) => if inner.len() > 0 && (inner[0] == '@' || inner[0] == '#' || inner[0]
                == '!') {
                let more = shown_user_ids(text.skip(find(text, '>') + 1));
                if inner[0] == '@' && reference_id(inner).len() > 0 {
                    seq![reference_id(inner)] + more
                } else {
                    more
                }
            } else {
                shown_user_ids(text.drop_first())
            },
            None => shown_user_ids(text.drop_first()),
        }
    }
}

/// Whether a channel reference or a `<!...>` that begins at `i` holds another `<`
/// before the `>` that ends it.
pub open spec fn hides_bracket(text: Seq<char>, i: int) -> bool {
    opens_reference(text, i) && text[i + 1] != '@' && find(text.skip(i), '>') < text.skip(i).len()
        && text.subrange(i + 1, i + find(text.skip(i), '>')).contains('<')
}

/// Text without `>` ends no reference.
proof fn lemma_no_users_without_end(text: Seq<char>)
    requires
        !text.contains('>'),
    ensures
        shown_user_ids(text) =~= Seq::<Seq<char>>::empty(),
    decreases text.len(),
{
    lemma_find(text, '>');
    if text.len() > 0 {
        let rest = text.drop_first();
        assert(!rest.contains('>')) by {
            if rest.contains('>') {
                let k = choose|k: int| 0 <= k < rest.len() && rest[k] == '>';
                assert(text[k + 1] == '>');
            }
        }
        lemma_no_users_without_end(rest);
    }
}

/// A stretch without `<` mentions nobody.
proof fn lemma_skip_plain(text: Seq<char>, n: int)
    requires
        0 <= n <= text.len(),
        forall|i: int| 0 <= i < n ==> text[i] != '<',
    ensures
        mention_ids(text) == mention_ids(text.skip(n)),
    decreases n,
{
    if n == 0 {
        assert(text.skip(0) =~= text);
    } else {
        let rest = text.drop_first();
        lemma_skip_plain(rest, n - 1);
        assert(rest.skip(n - 1) =~= text.skip(n));
        if text.len() < 2 {
            assert(mention_ids(text.skip(n)) =~= Seq::<Seq<char>>::empty());
        }
    }
}

/// The users that `extract_mentions` finds are the ones that `resolve_mentions`
/// shows, in the same order, in every text in which no channel reference or
/// `<!...>` holds a further `<`.
pub proof fn law_extracted_users_are_the_shown_ones(text: Seq<char>)
    requires
        forall|i: int| !#[trigger] hides_bracket(text, i),
    ensures
        mention_ids(text) == shown_user_ids(text),
    decreases text.len(),
{
    lemma_find(text, '>');
    let end = find(text, '>');
    if text.len() == 0 {
        assert(mention_ids(text) =~= shown_user_ids(text));
    } else {
        let rest = text.drop_first();
        assert forall|i: int| !#[trigger] hides_bracket(rest, i) by {
            assert(!hides_bracket(text, i + 1));
            if opens_reference(rest, i) {
                assert(rest.skip(i)[0] == '<');
                assert(rest.skip(i) =~= text.skip(i + 1));
                lemma_find(rest.skip(i), '>');
                let e = find(rest.skip(i), '>');
                assert(rest.subrange(i + 1, i + e) =~= text.subrange(i + 2, i + 1 + e));
            }
        }
        law_extracted_users_are_the_shown_ones(rest);
        if end < text.len() {
            let tail = text.skip(end + 1);
            assert forall|i: int| !#[trigger] hides_bracket(tail, i) by {
                assert(!hides_bracket(text, i + end + 1));
                if opens_reference(tail, i) {
                    assert(tail.skip(i)[0] == '<');
                    assert(tail.skip(i) =~= text.skip(i + end + 1));
                    lemma_find(tail.skip(i), '>');
                    let e = find(tail.skip(i), '>');
                    assert(tail.subrange(i + 1, i + e) =~= text.subrange(
                        i + end + 2,
                        i + end + 1 + e,
                    ));
                }
            }
            law_extracted_users_are_the_shown_ones(tail);
        }
        if text.len() >= 2 && text[0] == '<' && text[1] == '@' {
            let body = text.skip(2);
            lemma_find(body, '>');
            if end < text.len() {
                assert(body[end - 2] == '>');
                crate::text::lemma_find_is(body, '>', end - 2);
                let inner = text.subrange(1, end);
                assert(inner[0] == '@');
                assert(inner.skip(1) =~= before(body, '>'));
                assert(after(body, '>') =~= text.skip(end + 1));
            } else {
                assert(!body.contains('>')) by {
                    if body.contains('>') {
                        let k = choose|k: int| 0 <= k < body.len() && body[k] == '>';
                        assert(text[k + 2] == '>');
                    }
                }
                lemma_no_users_without_end(text);
            }
        } else if opens_reference(text, 0) && end < text.len() {
            let inner = text.subrange(1, end);
            assert(inner[0] == text[1]);
            assert(text.skip(0) =~= text);
            assert(!hides_bracket(text, 0));
            assert forall|i: int| 0 <= i < end implies rest[i] != '<' by {
                if i < end - 1 {
                    assert(rest[i] == inner[i]);
                }
            }
            lemma_skip_plain(rest, end);
            assert(rest.skip(end) =~= text.skip(end + 1));
        } else {
            if let Some(inner) = bracketed(text) {
                if inner.len() > 0 {
                    assert(inner[0] == text[1]);
                }
            }
            if text.len() < 2 {
                assert(mention_ids(text) =~= mention_ids(rest));
            }
        }
    }
}

/// No user is listed twice, each listed one is mentioned, and each mentioned one is
/// listed.
pub proof fn law_each_mention_is_listed_once(text: Seq<char>)
    ensures
        first_of_each(mention_ids(text)).no_duplicates(),
        forall|id: Seq<char>| #[trigger]
            first_of_each(mention_ids(text)).contains(id) <==> mention_ids(text).contains(id),
{
    lemma_first_of_each(mention_ids(text));
}

proof fn lemma_first_of_each(items: Seq<Seq<char>>)
    ensures
        first_of_each(items).no_duplicates(),
        forall|x: Seq<char>| #[trigger] first_of_each(items).contains(x) <==> items.contains(x),
    decreases items.len(),
{
    if items.len() > 0 {
        let init = items.drop_last();
        let earlier = first_of_each(init);
        lemma_first_of_each(init);
        let all = first_of_each(items);
        assert forall|x: Seq<char>| #[trigger] all.contains(x) <==> items.contains(x) by {
            assert(earlier.contains(x) <==> init.contains(x));
            if all.contains(x) {
                if earlier.contains(x) {
                    let k = choose|k: int| 0 <= k < init.len() && init[k] == x;
                    assert(items[k] == x);
                } else {
                    let k = choose|k: int| 0 <= k < all.len() && all[k] == x;
                    if k < earlier.len() {
                        assert(earlier[k] == x);
                    }
                    assert(items[items.len() - 1] == x);
                }
            }
            if items.contains(x) {
                let k = choose|k: int| 0 <= k < items.len() && items[k] == x;
                if k < init.len() {
                    assert(init[k] == x);
                    let m = choose|m: int| 0 <= m < earlier.len() && earlier[m] == x;
                    assert(all[m] == x);
                } else if !earlier.contains(x) {
                    assert(all[earlier.len() as int] == x);
                }
            }
        }
    }
}

/// How Slack writes a character in message text.
pub open spec fn entity(ch: char) -> Seq<char> {
    if ch == '<' {
        "&lt;"@
    } else if ch == '>' {
        "&gt;"@
    } else if ch == '&' {
        "&amp;"@
    } else {
        seq![ch]
    }
}

/// `text` with the characters that Slack escapes written as entities.
pub open spec fn escaped(text: Seq<char>) -> Seq<char>
    decreases text.len(),
{
    if text.len() == 0 {
        Seq::empty()
    } else {
        entity(text[0]) + escaped(text.drop_first())
    }
}

/// `text` with the ampersand, and the angle brackets as asked, written as entities.
spec fn part_escaped(text: Seq<char>, lt: bool, gt: bool) -> Seq<char>
    decreases text.len(),
{
    if text.len() == 0 {
        Seq::empty()
    } else {
        let first = if (text[0] == '<' && !lt) || (text[0] == '>' && !gt) {
            seq![text[0]]
        } else {
            entity(text[0])
        };
        first + part_escaped(text.drop_first(), lt, gt)
    }
}

/// A stretch that the pattern cannot begin in is copied.
proof fn lemma_replace_copies(token: Seq<char>, rest: Seq<char>, pat: Seq<char>, to: Seq<char>)
    requires
        pat.len() >= 2,
        token.len() > 0,
        token[0] != pat[0] || (token.len() >= 2 && token[1] != pat[1]),
        forall|k: int| 1 <= k < token.len() ==> token[k] != pat[0],
    ensures
        replace(token + rest, pat, to) == token + replace(rest, pat, to),
    decreases token.len(),
{
    let s = token + rest;
    assert(s[0] == token[0]);
    if starts_with(s, pat) {
        assert(s.take(pat.len() as int)[0] == pat[0]);
        assert(s.take(pat.len() as int)[1] == pat[1]);
        assert(s[0] == pat[0] && s[1] == pat[1]);
        if token.len() >= 2 {
            assert(s[1] == token[1]);
        }
        assert(false);
    }
    if token.len() == 1 {
        assert(s.drop_first() =~= rest);
        assert(seq![s[0]] + replace(rest, pat, to) =~= token + replace(rest, pat, to));
    } else {
        let tail = token.drop_first();
        assert(tail[0] == token[1]);
        assert(s.drop_first() =~= tail + rest);
        lemma_replace_copies(tail, rest, pat, to);
        assert(seq![s[0]] + (tail + replace(rest, pat, to)) =~= token + replace(rest, pat, to));
    }
}

/// The pattern itself is replaced.
proof fn lemma_replace_hits(rest: Seq<char>, pat: Seq<char>, to: Seq<char>)
    requires
        pat.len() > 0,
    ensures
        replace(pat + rest, pat, to) == to + replace(rest, pat, to),
{
    let s = pat + rest;
    assert(s.take(pat.len() as int) =~= pat);
    assert(s.skip(pat.len() as int) =~= rest);
}

proof fn lemma_unescape_step(text: Seq<char>)
    ensures
        replace(part_escaped(text, true, true), "&lt;"@, "<"@) == part_escaped(text, false, true),
        replace(part_escaped(text, false, true), "&gt;"@, ">"@) == part_escaped(text, false, false),
        replace(part_escaped(text, false, false), "&amp;"@, "&"@) == text,
    decreases text.len(),
{
    reveal_strlit("&lt;");
    reveal_strlit("&gt;");
    reveal_strlit("&amp;");
    reveal_strlit("<");
    reveal_strlit(">");
    reveal_strlit("&");
    if text.len() == 0 {
        assert(text =~= Seq::empty());
    } else {
        let rest = text.drop_first();
        let ch = text[0];
        lemma_unescape_step(rest);
        let a = part_escaped(rest, true, true);
        let b = part_escaped(rest, false, true);
        let d = part_escaped(rest, false, false);
        assert("<"@ =~= seq!['<']);
        assert(">"@ =~= seq!['>']);
        assert("&"@ =~= seq!['&']);
        if ch == '<' {
            lemma_replace_hits(a, "&lt;"@, "<"@);
            lemma_replace_copies(seq![ch], b, "&gt;"@, ">"@);
            lemma_replace_copies(seq![ch], d, "&amp;"@, "&"@);
        } else if ch == '>' {
            lemma_replace_copies("&gt;"@, a, "&lt;"@, "<"@);
            lemma_replace_hits(b, "&gt;"@, ">"@);
            lemma_replace_copies(seq![ch], d, "&amp;"@, "&"@);
        } else if ch == '&' {
            lemma_replace_copies("&amp;"@, a, "&lt;"@, "<"@);
            lemma_replace_copies("&amp;"@, b, "&gt;"@, ">"@);
            lemma_replace_hits(d, "&amp;"@, "&"@);
        } else {
            lemma_replace_copies(seq![ch], a, "&lt;"@, "<"@);
            lemma_replace_copies(seq![ch], b, "&gt;"@, ">"@);
            lemma_replace_copies(seq![ch], d, "&amp;"@, "&"@);
        }
        assert(seq![ch] + rest =~= text);
    }
}

proof fn lemma_part_escaped_all(text: Seq<char>)
    ensures
        part_escaped(text, true, true) == escaped(text),
    decreases text.len(),
{
    if text.len() > 0 {
        lemma_part_escaped_all(text.drop_first());
    }
}

/// Decoding undoes Slack's escaping: every text comes back as it was, also one that
/// held entities itself.
pub proof fn law_decoding_undoes_escaping(text: Seq<char>)
    ensures
        decoded(escaped(text)) == text,
{
    lemma_part_escaped_all(text);
    lemma_unescape_step(text);
}

/// Text in which no known shortcode stands between colons is left exactly as it is.
pub proof fn law_unknown_shortcodes_are_untouched(text: Seq<char>)
    requires
        forall|i: int| 0 <= i < text.len() ==> leading_emoji(#[trigger] text.skip(i)) is None,
    ensures
        emojified(text) == text,
    decreases text.len(),
{
    if text.len() > 0 {
        let rest = text.drop_first();
        assert forall|i: int| 0 <= i < rest.len() implies leading_emoji(#[trigger] rest.skip(i)) is None by {
            assert(rest.skip(i) =~= text.skip(i + 1));
        }
        law_unknown_shortcodes_are_untouched(rest);
        assert(text.skip(0) =~= text);
        assert(leading_emoji(text.skip(0)) is None);
        assert(seq![text[0]] + rest =~= text);
    }
}

/// Characters before the first colon are copied.
proof fn lemma_emojified_copies(a: Seq<char>, rest: Seq<char>)
    requires
        !a.contains(':'),
    ensures
        emojified(a + rest) == a + emojified(rest),
    decreases a.len(),
{
    if a.len() == 0 {
        assert(a + rest =~= rest);
        assert(a + emojified(rest) =~= emojified(rest));
    } else {
        let more = a.drop_first();
        assert(a[0] != ':');
        assert forall|i: int| 0 <= i < more.len() implies more[i] != ':' by {
            assert(more[i] == a[i + 1]);
        }
        lemma_emojified_copies(more, rest);
        assert((a + rest).drop_first() =~= more + rest);
        assert(seq![a[0]] + (more + emojified(rest)) =~= a + emojified(rest));
    }
}

/// A shortcode between two stretches without colons is replaced by its emoji where it is
/// known, and left exactly as it is where it is not.
pub proof fn law_one_shortcode_is_replaced(a: Seq<char>, name: Seq<char>, b: Seq<char>)
    requires
        !a.contains(':'),
        !name.contains(':'),
        !b.contains(':'),
    ensures
        emojified(a + seq![':'] + name + seq![':'] + b) == match emoji(name) {
            Some(e) => a + e + b,
            None => a + seq![':'] + name + seq![':'] + b,
        },
{
    let text = a + seq![':'] + name + seq![':'] + b;
    let tail = name + seq![':'] + b;
    let coded = seq![':'] + tail;
    assert(text =~= a + coded);
    lemma_emojified_copies(a, coded);
    lemma_emojified_copies(b, Seq::empty());
    assert(b + Seq::<char>::empty() =~= b);
    assert(emojified(b) =~= b);
    assert(coded.drop_first() =~= tail);
    assert forall|i: int| 0 <= i < name.len() implies tail[i] != ':' by {
        assert(tail[i] == name[i]);
    }
    assert(tail[name.len() as int] == ':');
    lemma_find_is(tail, ':', name.len() as int);
    assert(before(tail, ':') =~= name);
    assert(after(tail, ':') =~= b);
    law_known_names_are_shortcodes(name);
    match emoji(name) {
        Some(e) => {
            assert(a + (e + b) =~= a + e + b);
        },
        None => {
            let last = seq![':'] + b;
            assert(tail =~= name + last);
            lemma_emojified_copies(name, last);
            assert(last.drop_first() =~= b);
            lemma_find(b, ':');
            assert(leading_emoji(last) is None);
            assert(emojified(last) =~= last);
            assert(emojified(coded) =~= coded);
        },
    }
}

/// Where a resolved text begins with a stretch of shortcode characters up to a colon, so
/// did the text that it was resolved from.
proof fn lemma_shortcodes_do_not_appear(text: Seq<char>)
    ensures
        ({
            let r = emojified(text);
            find(r, ':') < r.len() && (forall|i: int|
                0 <= i < find(r, ':') ==> is_shortcode_char(#[trigger] r[i])) ==> find(text, ':')
                == find(r, ':') && find(text, ':') < text.len() && before(text, ':') == before(
                r,
                ':',
            )
        }),
    decreases text.len(),
{
    let r = emojified(text);
    lemma_find(r, ':');
    if text.len() > 0 && find(r, ':') < r.len() && (forall|i: int|
        0 <= i < find(r, ':') ==> is_shortcode_char(#[trigger] r[i])) {
        match leading_emoji(text) {
            Some(e) => {
                let rest = text.drop_first();
                law_known_names_are_shortcodes(before(rest, ':'));
                assert(r[0] == e[0]);
                assert(e.contains(e[0]));
            },
            None => {
                let rest = text.drop_first();
                let more = emojified(rest);
                assert(r.drop_first() =~= more);
                if text[0] != ':' {
                    lemma_shortcodes_do_not_appear(rest);
                    assert(r[0] == text[0]);
                    assert(find(r, ':') == 1 + find(more, ':'));
                    assert forall|i: int| 0 <= i < find(more, ':') implies is_shortcode_char(
                        #[trigger] more[i],
                    ) by {
                        assert(more[i] == r[i + 1]);
                    }
                    assert(before(text, ':') =~= seq![text[0]] + before(rest, ':'));
                    assert(before(r, ':') =~= seq![text[0]] + before(more, ':'));
                } else {
                    assert(before(text, ':') =~= before(r, ':'));
                }
            },
        }
    }
}

/// Resolving a resolved text changes nothing: no known shortcode is left in it.
pub proof fn law_resolving_emoji_twice_is_resolving_once(text: Seq<char>)
    ensures
        emojified(emojified(text)) == emojified(text),
    decreases text.len(),
{
    if text.len() > 0 {
        let rest = text.drop_first();
        match leading_emoji(text) {
            Some(e) => {
                lemma_find(rest, ':');
                law_known_names_are_shortcodes(before(rest, ':'));
                let more = emojified(after(rest, ':'));
                law_resolving_emoji_twice_is_resolving_once(after(rest, ':'));
                lemma_emojified_copies(e, more);
            },
            None => {
                let more = emojified(rest);
                let r = seq![text[0]] + more;
                law_resolving_emoji_twice_is_resolving_once(rest);
                lemma_shortcodes_do_not_appear(rest);
                assert(r.drop_first() =~= more);
                assert(leading_emoji(r) is None) by {
                    if leading_emoji(r) is Some {
                        lemma_find(more, ':');
                        let name = before(more, ':');
                        assert forall|i: int| 0 <= i < find(more, ':') implies is_shortcode_char(
                            #[trigger] more[i],
                        ) by {
                            assert(name[i] == more[i]);
                        }
                        assert(before(rest, ':') == name);
                    }
                }
            },
        }
    }
}

// ---------------------------------------------------------------------------
// What is shown for what stands in a text.
// ---------------------------------------------------------------------------

/// `body` as references are shown: in yellow where output is coloured.
pub open spec fn yellow(color: bool, body: Seq<char>) -> Seq<char> {
    if color {
        seq!['\u{1b}', '[', '3', '3', 'm'] + body + seq!['\u{1b}', '[', '0', 'm']
    } else {
        body
    }
}

proof fn lemma_yellow(color: bool, body: Seq<char>)
    ensures
        painted(color, YELLOW@, body) == yellow(color, body),
{
    reveal_strlit("\x1b[33m");
    reveal_strlit("\x1b[0m");
    assert(painted(color, YELLOW@, body) =~= yellow(color, body));
}

proof fn lemma_bracketed(inner: Seq<char>, rest: Seq<char>)
    requires
        !inner.contains('>'),
    ensures
        bracketed(seq!['<'] + inner + seq!['>'] + rest) == Some(inner),
        find(seq!['<'] + inner + seq!['>'] + rest, '>') == inner.len() + 1,
        (seq!['<'] + inner + seq!['>'] + rest).skip(inner.len() as int + 2) == rest,
{
    let text = seq!['<'] + inner + seq!['>'] + rest;
    assert forall|i: int| 0 <= i < inner.len() + 1 implies text[i] != '>' by {
        if i > 0 {
            assert(text[i] == inner[i - 1]);
        }
    }
    assert(text[inner.len() as int + 1] == '>');
    lemma_find_is(text, '>', inner.len() as int + 1);
    assert(text.subrange(1, inner.len() as int + 1) =~= inner);
    assert(text.skip(inner.len() as int + 2) =~= rest);
}

proof fn lemma_reference_shown(
    inner: Seq<char>,
    rest: Seq<char>,
    channels: Map<Seq<char>, Seq<char>>,
    users: Map<Seq<char>, Seq<char>>,
    color: bool,
)
    requires
        !inner.contains('>'),
        reference(inner, channels, users, color) is Some,
    ensures
        resolved(seq!['<'] + inner + seq!['>'] + rest, channels, users, color) == reference(
            inner,
            channels,
            users,
            color,
        )->0 + resolved(rest, channels, users, color),
{
    lemma_bracketed(inner, rest);
}

/// What stands before the label of a reference.
proof fn lemma_reference_parts(kind: char, id: Seq<char>, label: Seq<char>)
    requires
        !id.contains('|'),
    ensures
        reference_id(seq![kind] + id) == id,
        reference_label(seq![kind] + id).len() == 0,
        reference_id(seq![kind] + id + seq!['|'] + label) == id,
        reference_label(seq![kind] + id + seq!['|'] + label) == label,
{
    assert((seq![kind] + id).skip(1) =~= id);
    assert((seq![kind] + id + seq!['|'] + label).skip(1) =~= id + seq!['|'] + label);
    crate::text::law_before_and_after_make_up_the_text(id, '|');
    crate::text::law_first_division(id, label, '|');
}

/// A mention is shown as an `@` and the name of the user that it names, with a label or
/// without; what stands behind it is resolved on its own.
pub proof fn law_users_are_shown_by_name(
    id: Seq<char>,
    label: Seq<char>,
    rest: Seq<char>,
    channels: Map<Seq<char>, Seq<char>>,
    users: Map<Seq<char>, Seq<char>>,
    color: bool,
)
    requires
        !id.contains('>'),
        !id.contains('|'),
        !label.contains('>'),
    ensures
        resolved(seq!['<', '@'] + id + seq!['>'] + rest, channels, users, color) == yellow(
            color,
            seq!['@'] + name_or_id(users, id),
        ) + resolved(rest, channels, users, color),
        resolved(
            seq!['<', '@'] + id + seq!['|'] + label + seq!['>'] + rest,
            channels,
            users,
            color,
        ) == yellow(color, seq!['@'] + name_or_id(users, id)) + resolved(
            rest,
            channels,
            users,
            color,
        ),
{
    lemma_reference_parts('@', id, label);
    lemma_yellow(color, seq!['@'] + name_or_id(users, id));
    let plain = seq!['@'] + id;
    let labelled = seq!['@'] + id + seq!['|'] + label;
    lemma_no_bracket('@', id, label);
    lemma_reference_shown(plain, rest, channels, users, color);
    lemma_reference_shown(labelled, rest, channels, users, color);
    assert(seq!['<'] + plain + seq!['>'] + rest =~= seq!['<', '@'] + id + seq!['>'] + rest);
    assert(seq!['<'] + labelled + seq!['>'] + rest =~= seq!['<', '@'] + id + seq!['|'] + label
        + seq!['>'] + rest);
}

proof fn lemma_no_bracket(kind: char, id: Seq<char>, label: Seq<char>)
    requires
        kind != '>',
        !id.contains('>'),
        !label.contains('>'),
    ensures
        !(seq![kind] + id).contains('>'),
        !(seq![kind] + id + seq!['|'] + label).contains('>'),
{
    let plain = seq![kind] + id;
    let labelled = seq![kind] + id + seq!['|'] + label;
    assert forall|i: int| 0 <= i < plain.len() implies plain[i] != '>' by {
        if i > 0 {
            assert(plain[i] == id[i - 1]);
        }
    }
    assert forall|i: int| 0 <= i < labelled.len() implies labelled[i] != '>' by {
        if i < plain.len() {
            assert(labelled[i] == plain[i]);
        } else if i > plain.len() {
            assert(labelled[i] == label[i - plain.len() - 1]);
        }
    }
}

/// A channel reference is shown by the name of the channel, where it has one that is not
/// just its id; otherwise by a `#` and the label, or the id where there is no label. What
/// stands behind it is resolved on its own.
pub proof fn law_channels_are_shown_by_name(
    id: Seq<char>,
    label: Seq<char>,
    rest: Seq<char>,
    channels: Map<Seq<char>, Seq<char>>,
    users: Map<Seq<char>, Seq<char>>,
    color: bool,
)
    requires
        !id.contains('>'),
        !id.contains('|'),
        !label.contains('>'),
    ensures
        ({
            let named = channels.contains_key(id) && channels[id] != id;
            let plain = resolved(seq!['<', '#'] + id + seq!['>'] + rest, channels, users, color);
            let labelled = resolved(
                seq!['<', '#'] + id + seq!['|'] + label + seq!['>'] + rest,
                channels,
                users,
                color,
            );
            let more = resolved(rest, channels, users, color);
            &&& named ==> plain == yellow(color, channels[id]) + more && labelled == yellow(
                color,
                channels[id],
            ) + more
            &&& !named ==> plain == yellow(color, seq!['#'] + id) + more
            &&& !named && label.len() > 0 ==> labelled == yellow(color, seq!['#'] + label) + more
            &&& !named && label.len() == 0 ==> labelled == yellow(color, seq!['#'] + id) + more
        }),
{
    lemma_reference_parts('#', id, label);
    lemma_yellow(color, channels[id]);
    lemma_yellow(color, seq!['#'] + id);
    lemma_yellow(color, seq!['#'] + label);
    let plain = seq!['#'] + id;
    let labelled = seq!['#'] + id + seq!['|'] + label;
    lemma_no_bracket('#', id, label);
    lemma_reference_shown(plain, rest, channels, users, color);
    lemma_reference_shown(labelled, rest, channels, users, color);
    assert(seq!['<'] + plain + seq!['>'] + rest =~= seq!['<', '#'] + id + seq!['>'] + rest);
    assert(seq!['<'] + labelled + seq!['>'] + rest =~= seq!['<', '#'] + id + seq!['|'] + label
        + seq!['>'] + rest);
}

/// A word behind `<!` is shown behind an `@`, each by itself; what stands behind it is
/// resolved on its own.
pub proof fn law_special_mentions_keep_their_word(
    word: Seq<char>,
    rest: Seq<char>,
    channels: Map<Seq<char>, Seq<char>>,
    users: Map<Seq<char>, Seq<char>>,
    color: bool,
)
    requires
        !word.contains('>'),
    ensures
        resolved(seq!['<', '!'] + word + seq!['>'] + rest, channels, users, color) == yellow(
            color,
            seq!['@'] + word,
        ) + resolved(rest, channels, users, color),
{
    let inner = seq!['!'] + word;
    lemma_no_bracket('!', word, Seq::empty());
    lemma_yellow(color, seq!['@'] + word);
    assert(inner.skip(1) =~= word);
    lemma_reference_shown(inner, rest, channels, users, color);
    assert(seq!['<'] + inner + seq!['>'] + rest =~= seq!['<', '!'] + word + seq!['>'] + rest);
}

/// A character that opens no reference is copied: any but `<`, a `<` before anything but
/// `@`, `#` and `!`, and a `<` without a `>` behind it.
pub proof fn law_everything_else_is_copied(
    ch: char,
    rest: Seq<char>,
    channels: Map<Seq<char>, Seq<char>>,
    users: Map<Seq<char>, Seq<char>>,
    color: bool,
)
    requires
        ch != '<' || rest.len() == 0 || (rest[0] != '@' && rest[0] != '#' && rest[0] != '!')
            || !rest.contains('>'),
    ensures
        resolved(seq![ch] + rest, channels, users, color) == seq![ch] + resolved(
            rest,
            channels,
            users,
            color,
        ),
        resolved(Seq::empty(), channels, users, color).len() == 0,
{
    let text = seq![ch] + rest;
    assert(text.drop_first() =~= rest);
    lemma_find(text, '>');
    lemma_find(rest, '>');
    if let Some(inner) = bracketed(text) {
        if inner.len() > 0 {
            assert(inner[0] == rest[0]);
            assert(rest[find(text, '>') - 1] == '>');
        }
    }
}

/// The mentioned users of a text are those of its mentions, one after the other: the id of
/// each, with a label or without, where it is not empty.
pub proof fn law_mentions_are_listed(id: Seq<char>, label: Seq<char>, rest: Seq<char>)
    requires
        !id.contains('>'),
        !id.contains('|'),
        !label.contains('>'),
    ensures
        id.len() > 0 ==> mention_ids(seq!['<', '@'] + id + seq!['>'] + rest) == seq![id]
            + mention_ids(rest) && mention_ids(
            seq!['<', '@'] + id + seq!['|'] + label + seq!['>'] + rest,
        ) == seq![id] + mention_ids(rest),
        id.len() == 0 ==> mention_ids(seq!['<', '@'] + id + seq!['>'] + rest) == mention_ids(rest)
            && mention_ids(seq!['<', '@'] + id + seq!['|'] + label + seq!['>'] + rest)
            == mention_ids(rest),
{
    let plain = seq!['<', '@'] + id + seq!['>'] + rest;
    assert(plain.skip(2) =~= id + seq!['>'] + rest);
    crate::text::law_first_division(id, rest, '>');
    crate::text::law_before_and_after_make_up_the_text(id, '|');
    lemma_find(plain.skip(2), '>');
    assert((id + seq!['>'] + rest)[id.len() as int] == '>');
    let both = id + seq!['|'] + label;
    let labelled = seq!['<', '@'] + id + seq!['|'] + label + seq!['>'] + rest;
    assert(labelled.skip(2) =~= both + seq!['>'] + rest);
    assert forall|i: int| 0 <= i < both.len() implies both[i] != '>' by {
        if i < id.len() {
            assert(both[i] == id[i]);
        } else if i > id.len() {
            assert(both[i] == label[i - id.len() - 1]);
        }
    }
    crate::text::law_first_division(both, rest, '>');
    crate::text::law_first_division(id, label, '|');
    lemma_find(labelled.skip(2), '>');
    assert((both + seq!['>'] + rest)[both.len() as int] == '>');
}

/// Characters that open no mention mention nobody, and neither does an opening without an
/// end.
pub proof fn law_nobody_else_is_listed(ch: char, rest: Seq<char>)
    ensures
        mention_ids(Seq::empty()).len() == 0,
        ch != '<' || rest.len() == 0 || rest[0] != '@' ==> mention_ids(seq![ch] + rest)
            == mention_ids(rest),
        !rest.contains('>') ==> mention_ids(seq!['<', '@'] + rest).len() == 0,
{
    let text = seq![ch] + rest;
    assert(text.drop_first() =~= rest);
    assert((seq!['<', '@'] + rest).skip(2) =~= rest);
    lemma_find(rest, '>');
    if rest.len() > 0 {
        assert(text[1] == rest[0]);
    }
}

/// One more item is listed behind the others where it is not among them, and not again
/// where it is.
pub proof fn law_first_mentions_keep_their_order(items: Seq<Seq<char>>, item: Seq<char>)
    ensures
        first_of_each(Seq::empty()).len() == 0,
        items.contains(item) ==> first_of_each(items.push(item)) == first_of_each(items),
        !items.contains(item) ==> first_of_each(items.push(item)) == first_of_each(items).push(
            item,
        ),
{
    assert(items.push(item).drop_last() =~= items);
    lemma_first_of_each(items);
}

/// The name of a shortcode is replaced between its colons where it is known; where it is
/// not, the first colon is copied, and what stands behind it is resolved on its own, so
/// that its second colon may open another one.
pub proof fn law_shortcodes_one_by_one(name: Seq<char>, rest: Seq<char>)
    requires
        !name.contains(':'),
    ensures
        emojified(seq![':'] + name + seq![':'] + rest) == match emoji(name) {
            Some(e) => e + emojified(rest),
            None => seq![':'] + name + emojified(seq![':'] + rest),
        },
        emojified(seq![':'] + name) == seq![':'] + name,
        emojified(Seq::empty()).len() == 0,
{
    let tail = name + seq![':'] + rest;
    let text = seq![':'] + name + seq![':'] + rest;
    assert(text.drop_first() =~= tail);
    crate::text::law_first_division(name, rest, ':');
    lemma_find(tail, ':');
    assert(tail[name.len() as int] == ':');
    law_known_names_are_shortcodes(name);
    assert(tail =~= name + (seq![':'] + rest));
    lemma_emojified_copies(name, seq![':'] + rest);
    assert(seq![':'] + (name + emojified(seq![':'] + rest)) =~= seq![':'] + name + emojified(
        seq![':'] + rest,
    ));
    let open = seq![':'] + name;
    assert(open.drop_first() =~= name);
    lemma_find(name, ':');
    lemma_emojified_copies(name, Seq::empty());
    assert(name + Seq::<char>::empty() =~= name);
    assert(emojified(name) =~= name);
}

/// Characters other than colons are copied.
pub proof fn law_text_around_shortcodes_is_copied(ch: char, rest: Seq<char>)
    requires
        ch != ':',
    ensures
        emojified(seq![ch] + rest) == seq![ch] + emojified(rest),
{
    lemma_emojified_copies(seq![ch], rest);
}

/// A word that holds neither the pattern's first character nor what it is replaced by stands
/// at the start behind a replacement exactly where it stood there before.
proof fn lemma_replacing_keeps_words(s: Seq<char>, pat: Seq<char>, to: char, word: Seq<char>)
    requires
        pat.len() > 0,
        !word.contains(pat[0]),
        !word.contains(to),
    ensures
        starts_with(replace(s, pat, seq![to]), word) <==> starts_with(s, word),
    decreases word.len(),
{
    let r = replace(s, pat, seq![to]);
    if word.len() == 0 {
        assert(r.take(0) =~= word);
        assert(s.take(0) =~= word);
    } else if s.len() > 0 {
        let more = word.drop_first();
        assert(word[0] != pat[0] && word[0] != to);
        assert forall|i: int| 0 <= i < more.len() implies more[i] != pat[0] && more[i] != to by {
            assert(more[i] == word[i + 1]);
        }
        if starts_with(s, pat) {
            assert(s.take(pat.len() as int)[0] == s[0]);
            assert(r[0] == to);
            if starts_with(s, word) {
                assert(s.take(word.len() as int)[0] == s[0]);
            }
            if starts_with(r, word) {
                assert(r.take(word.len() as int)[0] == r[0]);
            }
        } else {
            lemma_replacing_keeps_words(s.drop_first(), pat, to, more);
            assert(r.drop_first() =~= replace(s.drop_first(), pat, seq![to]));
            lemma_starts_with_first(s, word);
            lemma_starts_with_first(r, word);
        }
    }
}

proof fn lemma_starts_with_first(s: Seq<char>, word: Seq<char>)
    requires
        s.len() > 0,
        word.len() > 0,
    ensures
        starts_with(s, word) <==> s[0] == word[0] && starts_with(s.drop_first(), word.drop_first()),
{
    if starts_with(s, word) {
        assert(s.take(word.len() as int)[0] == s[0]);
        assert(s.drop_first().take(word.len() - 1) =~= word.drop_first());
    }
    if s[0] == word[0] && starts_with(s.drop_first(), word.drop_first()) {
        assert(s.take(word.len() as int) =~= seq![s[0]] + s.drop_first().take(word.len() - 1));
        assert(word =~= seq![word[0]] + word.drop_first());
    }
}

/// Entities are decoded one by one, and what stands behind one is decoded on its own: what
/// an entity gives never becomes part of another.
pub proof fn law_entities_are_decoded_one_by_one(rest: Seq<char>)
    ensures
        decoded(seq!['&', 'l', 't', ';'] + rest) == seq!['<'] + decoded(rest),
        decoded(seq!['&', 'g', 't', ';'] + rest) == seq!['>'] + decoded(rest),
        decoded(seq!['&', 'a', 'm', 'p', ';'] + rest) == seq!['&'] + decoded(rest),
        decoded(Seq::empty()).len() == 0,
{
    reveal_strlit("&lt;");
    reveal_strlit("&gt;");
    reveal_strlit("&amp;");
    reveal_strlit("<");
    reveal_strlit(">");
    reveal_strlit("&");
    assert("&lt;"@ =~= seq!['&', 'l', 't', ';']);
    assert("&gt;"@ =~= seq!['&', 'g', 't', ';']);
    assert("&amp;"@ =~= seq!['&', 'a', 'm', 'p', ';']);
    assert("<"@ =~= seq!['<']);
    assert(">"@ =~= seq!['>']);
    assert("&"@ =~= seq!['&']);
    let one = replace(rest, "&lt;"@, "<"@);
    let two = replace(one, "&gt;"@, ">"@);
    lemma_replace_hits(rest, "&lt;"@, "<"@);
    lemma_replace_copies("<"@, one, "&gt;"@, ">"@);
    lemma_replace_copies("<"@, two, "&amp;"@, "&"@);
    lemma_replace_copies("&gt;"@, rest, "&lt;"@, "<"@);
    lemma_replace_hits(one, "&gt;"@, ">"@);
    lemma_replace_copies(">"@, two, "&amp;"@, "&"@);
    lemma_replace_copies("&amp;"@, rest, "&lt;"@, "<"@);
    lemma_replace_copies("&amp;"@, one, "&gt;"@, ">"@);
    lemma_replace_hits(two, "&amp;"@, "&"@);
}

/// Any other character is copied: one that is no ampersand, and an ampersand that begins no
/// entity.
pub proof fn law_what_is_no_entity_is_copied(ch: char, rest: Seq<char>)
    requires
        ch == '&' ==> !starts_with(rest, seq!['l', 't', ';']) && !starts_with(
            rest,
            seq!['g', 't', ';'],
        ) && !starts_with(rest, seq!['a', 'm', 'p', ';']),
    ensures
        decoded(seq![ch] + rest) == seq![ch] + decoded(rest),
{
    reveal_strlit("&lt;");
    reveal_strlit("&gt;");
    reveal_strlit("&amp;");
    reveal_strlit("<");
    reveal_strlit(">");
    assert("&lt;"@.drop_first() =~= seq!['l', 't', ';']);
    assert("&gt;"@.drop_first() =~= seq!['g', 't', ';']);
    assert("&amp;"@.drop_first() =~= seq!['a', 'm', 'p', ';']);
    assert("<"@ =~= seq!['<']);
    assert(">"@ =~= seq!['>']);
    let one = replace(rest, "&lt;"@, "<"@);
    let two = replace(one, "&gt;"@, ">"@);
    lemma_replacing_keeps_words(rest, "&lt;"@, '<', seq!['g', 't', ';']);
    lemma_replacing_keeps_words(rest, "&lt;"@, '<', seq!['a', 'm', 'p', ';']);
    lemma_replacing_keeps_words(one, "&gt;"@, '>', seq!['a', 'm', 'p', ';']);
    lemma_starts_with_first(seq![ch] + rest, "&lt;"@);
    lemma_starts_with_first(seq![ch] + one, "&gt;"@);
    lemma_starts_with_first(seq![ch] + two, "&amp;"@);
    assert((seq![ch] + rest).drop_first() =~= rest);
    assert((seq![ch] + one).drop_first() =~= one);
    assert((seq![ch] + two).drop_first() =~= two);
}

} // verus!
