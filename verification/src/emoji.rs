//! Emoji shortcodes.
use vstd::prelude::*;
use vstd::string::*;

use crate::text::{same_text, str_opt};

verus! {

/// The most common Slack emoji shortcodes, each with the emoji it stands for. Not
/// exhaustive: no workspace-custom emoji and no skin-tone variants, just enough
/// that everyday chat renders instead of showing `:shortcode:` text.
pub const EMOJI: [(&'static str, &'static str); 176] = [
    ("smile", "😄"),
    ("smiley", "😄"),
    ("grin", "😁"),
    ("grinning", "😀"),
    ("laughing", "😆"),
    ("satisfied", "😆"),
    ("joy", "😂"),
    ("rofl", "🤣"),
    ("rolling_on_the_floor_laughing", "🤣"),
    ("blush", "😊"),
    ("wink", "😉"),
    ("slightly_smiling_face", "🙂"),
    ("upside_down_face", "🙃"),
    ("relieved", "😌"),
    ("heart_eyes", "😍"),
    ("kissing_heart", "😘"),
    ("yum", "😋"),
    ("sunglasses", "😎"),
    ("smirk", "😏"),
    ("unamused", "😒"),
    ("thinking_face", "🤔"),
    ("thinking", "🤔"),
    ("neutral_face", "😐"),
    ("expressionless", "😑"),
    ("no_mouth", "😶"),
    ("roll_eyes", "🙄"),
    ("confused", "😕"),
    ("worried", "😟"),
    ("slightly_frowning_face", "🙁"),
    ("frowning_face", "☹️"),
    ("open_mouth", "😮"),
    ("hushed", "😯"),
    ("astonished", "😲"),
    ("flushed", "😳"),
    ("pleading_face", "🥺"),
    ("cry", "😢"),
    ("sob", "😭"),
    ("disappointed", "😞"),
    ("persevere", "😣"),
    ("confounded", "😖"),
    ("tired_face", "😫"),
    ("weary", "😩"),
    ("triumph", "😤"),
    ("angry", "😠"),
    ("rage", "😡"),
    ("dizzy_face", "😵"),
    ("scream", "😱"),
    ("fearful", "😨"),
    ("cold_sweat", "😰"),
    ("sweat_smile", "😅"),
    ("sweat", "😓"),
    ("sleepy", "😪"),
    ("sleeping", "😴"),
    ("zzz", "💤"),
    ("mask", "😷"),
    ("nauseated_face", "🤢"),
    ("sneezing_face", "🤧"),
    ("innocent", "😇"),
    ("smiling_imp", "😈"),
    ("imp", "👿"),
    ("japanese_ogre", "👹"),
    ("skull", "💀"),
    ("ghost", "👻"),
    ("alien", "👽"),
    ("robot_face", "🤖"),
    ("poop", "💩"),
    ("hankey", "💩"),
    ("shit", "💩"),
    ("clown_face", "🤡"),
    ("smiley_cat", "🐱"),
    ("cat", "🐱"),
    ("wave", "👋"),
    ("raised_hand", "✋"),
    ("hand", "✋"),
    ("ok_hand", "👌"),
    ("thumbsup", "👍"),
    ("+1", "👍"),
    ("thumbsdown", "👎"),
    ("-1", "👎"),
    ("fist", "✊"),
    ("fist_raised", "✊"),
    ("punch", "👊"),
    ("fist_oncoming", "👊"),
    ("clap", "👏"),
    ("raised_hands", "🙌"),
    ("pray", "🙏"),
    ("muscle", "💪"),
    ("point_up", "☝️"),
    ("point_down", "👇"),
    ("point_left", "👈"),
    ("point_right", "👉"),
    ("v", "✌️"),
    ("crossed_fingers", "🤞"),
    ("handshake", "🤝"),
    ("heart", "❤️"),
    ("orange_heart", "🧡"),
    ("yellow_heart", "💛"),
    ("green_heart", "💚"),
    ("blue_heart", "💙"),
    ("purple_heart", "💜"),
    ("black_heart", "🖤"),
    ("broken_heart", "💔"),
    ("two_hearts", "💕"),
    ("sparkling_heart", "💖"),
    ("heartbeat", "💓"),
    ("100", "💯"),
    ("fire", "🔥"),
    ("star", "⭐"),
    ("star2", "🌟"),
    ("sparkles", "✨"),
    ("tada", "🎉"),
    ("confetti_ball", "🎊"),
    ("rocket", "🚀"),
    ("eyes", "👀"),
    ("eye", "👁️"),
    ("warning", "⚠️"),
    ("exclamation", "❗"),
    ("question", "❓"),
    ("white_check_mark", "✅"),
    ("heavy_check_mark", "✅"),
    ("check", "✅"),
    ("x", "❌"),
    ("heavy_plus_sign", "➕"),
    ("heavy_minus_sign", "➖"),
    ("zap", "⚡"),
    ("boom", "💥"),
    ("collision", "💥"),
    ("bulb", "💡"),
    ("coffee", "☕"),
    ("beer", "🍺"),
    ("beers", "🍺"),
    ("pizza", "🍕"),
    ("cake", "🍰"),
    ("birthday", "🎂"),
    ("gift", "🎁"),
    ("trophy", "🏆"),
    ("medal", "🏅"),
    ("sports_medal", "🏅"),
    ("checkered_flag", "🏁"),
    ("bell", "🔔"),
    ("no_bell", "🔕"),
    ("lock", "🔒"),
    ("unlock", "🔓"),
    ("key", "🔑"),
    ("hourglass", "⌛"),
    ("hourglass_flowing_sand", "⏳"),
    ("clock1", "🕐"),
    ("clock", "🕐"),
    ("calendar", "📅"),
    ("email", "✉️"),
    ("envelope", "✉️"),
    ("phone", "📞"),
    ("computer", "💻"),
    ("moneybag", "💰"),
    ("gem", "💎"),
    ("raised_eyebrow", "🤨"),
    ("shrug", "🤷"),
    ("facepalm", "🤦"),
    ("wave_hand", "👋"),
    ("loudspeaker", "📢"),
    ("mega", "📣"),
    ("speech_balloon", "💬"),
    ("thought_balloon", "💭"),
    ("arrow_right", "➡️"),
    ("arrow_left", "⬅️"),
    ("arrow_up", "⬆️"),
    ("arrow_down", "⬇️"),
    ("recycle", "♻️"),
    ("new", "🆕"),
    ("ok", "🆗"),
    ("sos", "🆘"),
    ("up", "🆙"),
    ("us", "🇺🇸"),
    ("flag-us", "🇺🇸"),
    ("de", "🇩🇪"),
    ("flag-de", "🇩🇪"),
];

/// The emoji of the first entry of the table, at or after `from`, that is named `name`.
pub open spec fn emoji_from(name: Seq<char>, from: int) -> Option<Seq<char>>
    decreases EMOJI@.len() - from,
{
    if from < 0 || from >= EMOJI@.len() {
        None
    } else if EMOJI@[from].0@ == name {
        Some(EMOJI@[from].1@)
    } else {
        emoji_from(name, from + 1)
    }
}

/// The emoji that the shortcode `name` stands for, where the table knows it.
pub open spec fn emoji(name: Seq<char>) -> Option<Seq<char>> {
    emoji_from(name, 0)
}

/// Looks a shortcode up, without its colons.
pub fn emoji_for(name: &str) -> (r: Option<&'static str>)
    ensures
        str_opt(r) == emoji(name@),
{
    let mut i: usize = 0;
    while i < EMOJI.len()
        invariant
            i <= EMOJI@.len(),
            emoji_from(name@, i as int) == emoji(name@),
        decreases EMOJI@.len() - i,
    {
        if same_text(EMOJI[i].0, name) {
            return Some(EMOJI[i].1);
        }
        i += 1;
    }
    None
}

/// Every entry is found under its name, unless an earlier one has the same name, and what no
/// entry is named is not found.
pub proof fn law_every_entry_is_found(i: int, name: Seq<char>)
    ensures
        0 <= i < EMOJI@.len() && (forall|j: int|
            0 <= j < i ==> (#[trigger] EMOJI@[j]).0@ != EMOJI@[i].0@) ==> emoji(EMOJI@[i].0@)
            == Some(EMOJI@[i].1@),
        (forall|j: int| 0 <= j < EMOJI@.len() ==> (#[trigger] EMOJI@[j]).0@ != name) ==> emoji(
            name,
        ) is None,
{
    lemma_entry_from(i, 0);
    lemma_no_entry_from(name, 0);
}

proof fn lemma_entry_from(i: int, from: int)
    ensures
        0 <= from <= i < EMOJI@.len() && (forall|j: int|
            0 <= j < i ==> (#[trigger] EMOJI@[j]).0@ != EMOJI@[i].0@) ==> emoji_from(
            EMOJI@[i].0@,
            from,
        ) == Some(EMOJI@[i].1@),
    decreases i - from,
{
    if 0 <= from < i {
        lemma_entry_from(i, from + 1);
    }
}

proof fn lemma_no_entry_from(name: Seq<char>, from: int)
    ensures
        0 <= from && (forall|j: int| 0 <= j < EMOJI@.len() ==> (#[trigger] EMOJI@[j]).0@ != name)
            ==> emoji_from(name, from) is None,
    decreases EMOJI@.len() - from,
{
    if 0 <= from < EMOJI@.len() {
        lemma_no_entry_from(name, from + 1);
    }
}

} // verus!
