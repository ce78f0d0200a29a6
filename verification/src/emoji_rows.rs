//! What holds of every entry of the emoji table.
use vstd::prelude::*;

use crate::emoji::{emoji, emoji_from, EMOJI};
use crate::markup::{is_shortcode, is_shortcode_char};

verus! {

/// Whether an entry is named like a shortcode, and its emoji holds no colon and begins
/// with a character that no shortcode is written with.
pub open spec fn is_good_row(row: (&'static str, &'static str)) -> bool {
    &&& is_shortcode(row.0@)
    &&& row.1@.len() > 0
    &&& !is_shortcode_char(row.1@[0])
    &&& !row.1@.contains(':')
}

proof fn lemma_rows_from_0()
    ensures
        forall|i: int| 0 <= i < 22 ==> is_good_row(#[trigger] EMOJI@[i]),
{
    reveal_strlit("smile");
    reveal_strlit("😄");
    assert(is_good_row(EMOJI@[0]));
    reveal_strlit("smiley");
    assert(is_good_row(EMOJI@[1]));
    reveal_strlit("grin");
    reveal_strlit("😁");
    assert(is_good_row(EMOJI@[2]));
    reveal_strlit("grinning");
    reveal_strlit("😀");
    assert(is_good_row(EMOJI@[3]));
    reveal_strlit("laughing");
    reveal_strlit("😆");
    assert(is_good_row(EMOJI@[4]));
    reveal_strlit("satisfied");
    assert(is_good_row(EMOJI@[5]));
    reveal_strlit("joy");
    reveal_strlit("😂");
    assert(is_good_row(EMOJI@[6]));
    reveal_strlit("rofl");
    reveal_strlit("🤣");
    assert(is_good_row(EMOJI@[7]));
    reveal_strlit("rolling_on_the_floor_laughing");
    assert(is_good_row(EMOJI@[8]));
    reveal_strlit("blush");
    reveal_strlit("😊");
    assert(is_good_row(EMOJI@[9]));
    reveal_strlit("wink");
    reveal_strlit("😉");
    assert(is_good_row(EMOJI@[10]));
    reveal_strlit("slightly_smiling_face");
    reveal_strlit("🙂");
    assert(is_good_row(EMOJI@[11]));
    reveal_strlit("upside_down_face");
    reveal_strlit("🙃");
    assert(is_good_row(EMOJI@[12]));
    reveal_strlit("relieved");
    reveal_strlit("😌");
    assert(is_good_row(EMOJI@[13]));
    reveal_strlit("heart_eyes");
    reveal_strlit("😍");
    assert(is_good_row(EMOJI@[14]));
    reveal_strlit("kissing_heart");
    reveal_strlit("😘");
    assert(is_good_row(EMOJI@[15]));
    reveal_strlit("yum");
    reveal_strlit("😋");
    assert(is_good_row(EMOJI@[16]));
    reveal_strlit("sunglasses");
    reveal_strlit("😎");
    assert(is_good_row(EMOJI@[17]));
    reveal_strlit("smirk");
    reveal_strlit("😏");
    assert(is_good_row(EMOJI@[18]));
    reveal_strlit("unamused");
    reveal_strlit("😒");
    assert(is_good_row(EMOJI@[19]));
    reveal_strlit("thinking_face");
    reveal_strlit("🤔");
    assert(is_good_row(EMOJI@[20]));
    reveal_strlit("thinking");
    assert(is_good_row(EMOJI@[21]));
}

proof fn lemma_rows_from_22()
    ensures
        forall|i: int| 22 <= i < 44 ==> is_good_row(#[trigger] EMOJI@[i]),
{
    reveal_strlit("neutral_face");
    reveal_strlit("😐");
    assert(is_good_row(EMOJI@[22]));
    reveal_strlit("expressionless");
    reveal_strlit("😑");
    assert(is_good_row(EMOJI@[23]));
    reveal_strlit("no_mouth");
    reveal_strlit("😶");
    assert(is_good_row(EMOJI@[24]));
    reveal_strlit("roll_eyes");
    reveal_strlit("🙄");
    assert(is_good_row(EMOJI@[25]));
    reveal_strlit("confused");
    reveal_strlit("😕");
    assert(is_good_row(EMOJI@[26]));
    reveal_strlit("worried");
    reveal_strlit("😟");
    assert(is_good_row(EMOJI@[27]));
    reveal_strlit("slightly_frowning_face");
    reveal_strlit("🙁");
    assert(is_good_row(EMOJI@[28]));
    reveal_strlit("frowning_face");
    reveal_strlit("☹️");
    assert(is_good_row(EMOJI@[29]));
    reveal_strlit("open_mouth");
    reveal_strlit("😮");
    assert(is_good_row(EMOJI@[30]));
    reveal_strlit("hushed");
    reveal_strlit("😯");
    assert(is_good_row(EMOJI@[31]));
    reveal_strlit("astonished");
    reveal_strlit("😲");
    assert(is_good_row(EMOJI@[32]));
    reveal_strlit("flushed");
    reveal_strlit("😳");
    assert(is_good_row(EMOJI@[33]));
    reveal_strlit("pleading_face");
    reveal_strlit("🥺");
    assert(is_good_row(EMOJI@[34]));
    reveal_strlit("cry");
    reveal_strlit("😢");
    assert(is_good_row(EMOJI@[35]));
    reveal_strlit("sob");
    reveal_strlit("😭");
    assert(is_good_row(EMOJI@[36]));
    reveal_strlit("disappointed");
    reveal_strlit("😞");
    assert(is_good_row(EMOJI@[37]));
    reveal_strlit("persevere");
    reveal_strlit("😣");
    assert(is_good_row(EMOJI@[38]));
    reveal_strlit("confounded");
    reveal_strlit("😖");
    assert(is_good_row(EMOJI@[39]));
    reveal_strlit("tired_face");
    reveal_strlit("😫");
    assert(is_good_row(EMOJI@[40]));
    reveal_strlit("weary");
    reveal_strlit("😩");
    assert(is_good_row(EMOJI@[41]));
    reveal_strlit("triumph");
    reveal_strlit("😤");
    assert(is_good_row(EMOJI@[42]));
    reveal_strlit("angry");
    reveal_strlit("😠");
    assert(is_good_row(EMOJI@[43]));
}

proof fn lemma_rows_from_44()
    ensures
        forall|i: int| 44 <= i < 66 ==> is_good_row(#[trigger] EMOJI@[i]),
{
    reveal_strlit("rage");
    reveal_strlit("😡");
    assert(is_good_row(EMOJI@[44]));
    reveal_strlit("dizzy_face");
    reveal_strlit("😵");
    assert(is_good_row(EMOJI@[45]));
    reveal_strlit("scream");
    reveal_strlit("😱");
    assert(is_good_row(EMOJI@[46]));
    reveal_strlit("fearful");
    reveal_strlit("😨");
    assert(is_good_row(EMOJI@[47]));
    reveal_strlit("cold_sweat");
    reveal_strlit("😰");
    assert(is_good_row(EMOJI@[48]));
    reveal_strlit("sweat_smile");
    reveal_strlit("😅");
    assert(is_good_row(EMOJI@[49]));
    reveal_strlit("sweat");
    reveal_strlit("😓");
    assert(is_good_row(EMOJI@[50]));
    reveal_strlit("sleepy");
    reveal_strlit("😪");
    assert(is_good_row(EMOJI@[51]));
    reveal_strlit("sleeping");
    reveal_strlit("😴");
    assert(is_good_row(EMOJI@[52]));
    reveal_strlit("zzz");
    reveal_strlit("💤");
    assert(is_good_row(EMOJI@[53]));
    reveal_strlit("mask");
    reveal_strlit("😷");
    assert(is_good_row(EMOJI@[54]));
    reveal_strlit("nauseated_face");
    reveal_strlit("🤢");
    assert(is_good_row(EMOJI@[55]));
    reveal_strlit("sneezing_face");
    reveal_strlit("🤧");
    assert(is_good_row(EMOJI@[56]));
    reveal_strlit("innocent");
    reveal_strlit("😇");
    assert(is_good_row(EMOJI@[57]));
    reveal_strlit("smiling_imp");
    reveal_strlit("😈");
    assert(is_good_row(EMOJI@[58]));
    reveal_strlit("imp");
    reveal_strlit("👿");
    assert(is_good_row(EMOJI@[59]));
    reveal_strlit("japanese_ogre");
    reveal_strlit("👹");
    assert(is_good_row(EMOJI@[60]));
    reveal_strlit("skull");
    reveal_strlit("💀");
    assert(is_good_row(EMOJI@[61]));
    reveal_strlit("ghost");
    reveal_strlit("👻");
    assert(is_good_row(EMOJI@[62]));
    reveal_strlit("alien");
    reveal_strlit("👽");
    assert(is_good_row(EMOJI@[63]));
    reveal_strlit("robot_face");
    reveal_strlit("🤖");
    assert(is_good_row(EMOJI@[64]));
    reveal_strlit("poop");
    reveal_strlit("💩");
    assert(is_good_row(EMOJI@[65]));
}

proof fn lemma_rows_from_66()
    ensures
        forall|i: int| 66 <= i < 88 ==> is_good_row(#[trigger] EMOJI@[i]),
{
    reveal_strlit("hankey");
    reveal_strlit("💩");
    assert(is_good_row(EMOJI@[66]));
    reveal_strlit("shit");
    assert(is_good_row(EMOJI@[67]));
    reveal_strlit("clown_face");
    reveal_strlit("🤡");
    assert(is_good_row(EMOJI@[68]));
    reveal_strlit("smiley_cat");
    reveal_strlit("🐱");
    assert(is_good_row(EMOJI@[69]));
    reveal_strlit("cat");
    assert(is_good_row(EMOJI@[70]));
    reveal_strlit("wave");
    reveal_strlit("👋");
    assert(is_good_row(EMOJI@[71]));
    reveal_strlit("raised_hand");
    reveal_strlit("✋");
    assert(is_good_row(EMOJI@[72]));
    reveal_strlit("hand");
    assert(is_good_row(EMOJI@[73]));
    reveal_strlit("ok_hand");
    reveal_strlit("👌");
    assert(is_good_row(EMOJI@[74]));
    reveal_strlit("thumbsup");
    reveal_strlit("👍");
    assert(is_good_row(EMOJI@[75]));
    reveal_strlit("+1");
    assert(is_good_row(EMOJI@[76]));
    reveal_strlit("thumbsdown");
    reveal_strlit("👎");
    assert(is_good_row(EMOJI@[77]));
    reveal_strlit("-1");
    assert(is_good_row(EMOJI@[78]));
    reveal_strlit("fist");
    reveal_strlit("✊");
    assert(is_good_row(EMOJI@[79]));
    reveal_strlit("fist_raised");
    assert(is_good_row(EMOJI@[80]));
    reveal_strlit("punch");
    reveal_strlit("👊");
    assert(is_good_row(EMOJI@[81]));
    reveal_strlit("fist_oncoming");
    assert(is_good_row(EMOJI@[82]));
    reveal_strlit("clap");
    reveal_strlit("👏");
    assert(is_good_row(EMOJI@[83]));
    reveal_strlit("raised_hands");
    reveal_strlit("🙌");
    assert(is_good_row(EMOJI@[84]));
    reveal_strlit("pray");
    reveal_strlit("🙏");
    assert(is_good_row(EMOJI@[85]));
    reveal_strlit("muscle");
    reveal_strlit("💪");
    assert(is_good_row(EMOJI@[86]));
    reveal_strlit("point_up");
    reveal_strlit("☝️");
    assert(is_good_row(EMOJI@[87]));
}

proof fn lemma_rows_from_88()
    ensures
        forall|i: int| 88 <= i < 110 ==> is_good_row(#[trigger] EMOJI@[i]),
{
    reveal_strlit("point_down");
    reveal_strlit("👇");
    assert(is_good_row(EMOJI@[88]));
    reveal_strlit("point_left");
    reveal_strlit("👈");
    assert(is_good_row(EMOJI@[89]));
    reveal_strlit("point_right");
    reveal_strlit("👉");
    assert(is_good_row(EMOJI@[90]));
    reveal_strlit("v");
    reveal_strlit("✌️");
    assert(is_good_row(EMOJI@[91]));
    reveal_strlit("crossed_fingers");
    reveal_strlit("🤞");
    assert(is_good_row(EMOJI@[92]));
    reveal_strlit("handshake");
    reveal_strlit("🤝");
    assert(is_good_row(EMOJI@[93]));
    reveal_strlit("heart");
    reveal_strlit("❤️");
    assert(is_good_row(EMOJI@[94]));
    reveal_strlit("orange_heart");
    reveal_strlit("🧡");
    assert(is_good_row(EMOJI@[95]));
    reveal_strlit("yellow_heart");
    reveal_strlit("💛");
    assert(is_good_row(EMOJI@[96]));
    reveal_strlit("green_heart");
    reveal_strlit("💚");
    assert(is_good_row(EMOJI@[97]));
    reveal_strlit("blue_heart");
    reveal_strlit("💙");
    assert(is_good_row(EMOJI@[98]));
    reveal_strlit("purple_heart");
    reveal_strlit("💜");
    assert(is_good_row(EMOJI@[99]));
    reveal_strlit("black_heart");
    reveal_strlit("🖤");
    assert(is_good_row(EMOJI@[100]));
    reveal_strlit("broken_heart");
    reveal_strlit("💔");
    assert(is_good_row(EMOJI@[101]));
    reveal_strlit("two_hearts");
    reveal_strlit("💕");
    assert(is_good_row(EMOJI@[102]));
    reveal_strlit("sparkling_heart");
    reveal_strlit("💖");
    assert(is_good_row(EMOJI@[103]));
    reveal_strlit("heartbeat");
    reveal_strlit("💓");
    assert(is_good_row(EMOJI@[104]));
    reveal_strlit("100");
    reveal_strlit("💯");
    assert(is_good_row(EMOJI@[105]));
    reveal_strlit("fire");
    reveal_strlit("🔥");
    assert(is_good_row(EMOJI@[106]));
    reveal_strlit("star");
    reveal_strlit("⭐");
    assert(is_good_row(EMOJI@[107]));
    reveal_strlit("star2");
    reveal_strlit("🌟");
    assert(is_good_row(EMOJI@[108]));
    reveal_strlit("sparkles");
    reveal_strlit("✨");
    assert(is_good_row(EMOJI@[109]));
}

proof fn lemma_rows_from_110()
    ensures
        forall|i: int| 110 <= i < 132 ==> is_good_row(#[trigger] EMOJI@[i]),
{
    reveal_strlit("tada");
    reveal_strlit("🎉");
    assert(is_good_row(EMOJI@[110]));
    reveal_strlit("confetti_ball");
    reveal_strlit("🎊");
    assert(is_good_row(EMOJI@[111]));
    reveal_strlit("rocket");
    reveal_strlit("🚀");
    assert(is_good_row(EMOJI@[112]));
    reveal_strlit("eyes");
    reveal_strlit("👀");
    assert(is_good_row(EMOJI@[113]));
    reveal_strlit("eye");
    reveal_strlit("👁️");
    assert(is_good_row(EMOJI@[114]));
    reveal_strlit("warning");
    reveal_strlit("⚠️");
    assert(is_good_row(EMOJI@[115]));
    reveal_strlit("exclamation");
    reveal_strlit("❗");
    assert(is_good_row(EMOJI@[116]));
    reveal_strlit("question");
    reveal_strlit("❓");
    assert(is_good_row(EMOJI@[117]));
    reveal_strlit("white_check_mark");
    reveal_strlit("✅");
    assert(is_good_row(EMOJI@[118]));
    reveal_strlit("heavy_check_mark");
    assert(is_good_row(EMOJI@[119]));
    reveal_strlit("check");
    assert(is_good_row(EMOJI@[120]));
    reveal_strlit("x");
    reveal_strlit("❌");
    assert(is_good_row(EMOJI@[121]));
    reveal_strlit("heavy_plus_sign");
    reveal_strlit("➕");
    assert(is_good_row(EMOJI@[122]));
    reveal_strlit("heavy_minus_sign");
    reveal_strlit("➖");
    assert(is_good_row(EMOJI@[123]));
    reveal_strlit("zap");
    reveal_strlit("⚡");
    assert(is_good_row(EMOJI@[124]));
    reveal_strlit("boom");
    reveal_strlit("💥");
    assert(is_good_row(EMOJI@[125]));
    reveal_strlit("collision");
    assert(is_good_row(EMOJI@[126]));
    reveal_strlit("bulb");
    reveal_strlit("💡");
    assert(is_good_row(EMOJI@[127]));
    reveal_strlit("coffee");
    reveal_strlit("☕");
    assert(is_good_row(EMOJI@[128]));
    reveal_strlit("beer");
    reveal_strlit("🍺");
    assert(is_good_row(EMOJI@[129]));
    reveal_strlit("beers");
    assert(is_good_row(EMOJI@[130]));
    reveal_strlit("pizza");
    reveal_strlit("🍕");
    assert(is_good_row(EMOJI@[131]));
}

proof fn lemma_rows_from_132()
    ensures
        forall|i: int| 132 <= i < 154 ==> is_good_row(#[trigger] EMOJI@[i]),
{
    reveal_strlit("cake");
    reveal_strlit("🍰");
    assert(is_good_row(EMOJI@[132]));
    reveal_strlit("birthday");
    reveal_strlit("🎂");
    assert(is_good_row(EMOJI@[133]));
    reveal_strlit("gift");
    reveal_strlit("🎁");
    assert(is_good_row(EMOJI@[134]));
    reveal_strlit("trophy");
    reveal_strlit("🏆");
    assert(is_good_row(EMOJI@[135]));
    reveal_strlit("medal");
    reveal_strlit("🏅");
    assert(is_good_row(EMOJI@[136]));
    reveal_strlit("sports_medal");
    assert(is_good_row(EMOJI@[137]));
    reveal_strlit("checkered_flag");
    reveal_strlit("🏁");
    assert(is_good_row(EMOJI@[138]));
    reveal_strlit("bell");
    reveal_strlit("🔔");
    assert(is_good_row(EMOJI@[139]));
    reveal_strlit("no_bell");
    reveal_strlit("🔕");
    assert(is_good_row(EMOJI@[140]));
    reveal_strlit("lock");
    reveal_strlit("🔒");
    assert(is_good_row(EMOJI@[141]));
    reveal_strlit("unlock");
    reveal_strlit("🔓");
    assert(is_good_row(EMOJI@[142]));
    reveal_strlit("key");
    reveal_strlit("🔑");
    assert(is_good_row(EMOJI@[143]));
    reveal_strlit("hourglass");
    reveal_strlit("⌛");
    assert(is_good_row(EMOJI@[144]));
    reveal_strlit("hourglass_flowing_sand");
    reveal_strlit("⏳");
    assert(is_good_row(EMOJI@[145]));
    reveal_strlit("clock1");
    reveal_strlit("🕐");
    assert(is_good_row(EMOJI@[146]));
    reveal_strlit("clock");
    assert(is_good_row(EMOJI@[147]));
    reveal_strlit("calendar");
    reveal_strlit("📅");
    assert(is_good_row(EMOJI@[148]));
    reveal_strlit("email");
    reveal_strlit("✉️");
    assert(is_good_row(EMOJI@[149]));
    reveal_strlit("envelope");
    assert(is_good_row(EMOJI@[150]));
    reveal_strlit("phone");
    reveal_strlit("📞");
    assert(is_good_row(EMOJI@[151]));
    reveal_strlit("computer");
    reveal_strlit("💻");
    assert(is_good_row(EMOJI@[152]));
    reveal_strlit("moneybag");
    reveal_strlit("💰");
    assert(is_good_row(EMOJI@[153]));
}

proof fn lemma_rows_from_154()
    ensures
        forall|i: int| 154 <= i < 176 ==> is_good_row(#[trigger] EMOJI@[i]),
{
    reveal_strlit("gem");
    reveal_strlit("💎");
    assert(is_good_row(EMOJI@[154]));
    reveal_strlit("raised_eyebrow");
    reveal_strlit("🤨");
    assert(is_good_row(EMOJI@[155]));
    reveal_strlit("shrug");
    reveal_strlit("🤷");
    assert(is_good_row(EMOJI@[156]));
    reveal_strlit("facepalm");
    reveal_strlit("🤦");
    assert(is_good_row(EMOJI@[157]));
    reveal_strlit("wave_hand");
    reveal_strlit("👋");
    assert(is_good_row(EMOJI@[158]));
    reveal_strlit("loudspeaker");
    reveal_strlit("📢");
    assert(is_good_row(EMOJI@[159]));
    reveal_strlit("mega");
    reveal_strlit("📣");
    assert(is_good_row(EMOJI@[160]));
    reveal_strlit("speech_balloon");
    reveal_strlit("💬");
    assert(is_good_row(EMOJI@[161]));
    reveal_strlit("thought_balloon");
    reveal_strlit("💭");
    assert(is_good_row(EMOJI@[162]));
    reveal_strlit("arrow_right");
    reveal_strlit("➡️");
    assert(is_good_row(EMOJI@[163]));
    reveal_strlit("arrow_left");
    reveal_strlit("⬅️");
    assert(is_good_row(EMOJI@[164]));
    reveal_strlit("arrow_up");
    reveal_strlit("⬆️");
    assert(is_good_row(EMOJI@[165]));
    reveal_strlit("arrow_down");
    reveal_strlit("⬇️");
    assert(is_good_row(EMOJI@[166]));
    reveal_strlit("recycle");
    reveal_strlit("♻️");
    assert(is_good_row(EMOJI@[167]));
    reveal_strlit("new");
    reveal_strlit("🆕");
    assert(is_good_row(EMOJI@[168]));
    reveal_strlit("ok");
    reveal_strlit("🆗");
    assert(is_good_row(EMOJI@[169]));
    reveal_strlit("sos");
    reveal_strlit("🆘");
    assert(is_good_row(EMOJI@[170]));
    reveal_strlit("up");
    reveal_strlit("🆙");
    assert(is_good_row(EMOJI@[171]));
    reveal_strlit("us");
    reveal_strlit("🇺🇸");
    assert(is_good_row(EMOJI@[172]));
    reveal_strlit("flag-us");
    assert(is_good_row(EMOJI@[173]));
    reveal_strlit("de");
    reveal_strlit("🇩🇪");
    assert(is_good_row(EMOJI@[174]));
    reveal_strlit("flag-de");
    assert(is_good_row(EMOJI@[175]));
}

proof fn lemma_every_row_is_good()
    ensures
        forall|i: int| 0 <= i < EMOJI@.len() ==> is_good_row(#[trigger] EMOJI@[i]),
{
    lemma_rows_from_0();
    lemma_rows_from_22();
    lemma_rows_from_44();
    lemma_rows_from_66();
    lemma_rows_from_88();
    lemma_rows_from_110();
    lemma_rows_from_132();
    lemma_rows_from_154();
}

proof fn lemma_found_row(name: Seq<char>, from: int)
    requires
        0 <= from <= EMOJI@.len(),
    ensures
        emoji_from(name, from) matches Some(e) ==> exists|i: int|
            0 <= i < EMOJI@.len() && name == #[trigger] EMOJI@[i].0@ && e == EMOJI@[i].1@,
    decreases EMOJI@.len() - from,
{
    if from < EMOJI@.len() && EMOJI@[from].0@ != name {
        lemma_found_row(name, from + 1);
    }
}

/// Every known name is written like a shortcode, and its emoji holds no colon and begins
/// with a character that no shortcode is written with.
pub proof fn law_known_names_are_shortcodes(name: Seq<char>)
    ensures
        emoji(name) matches Some(e) ==> is_shortcode(name) && e.len() > 0 && !is_shortcode_char(
            e[0],
        ) && !e.contains(':'),
{
    lemma_found_row(name, 0);
    lemma_every_row_is_good();
    if let Some(e) = emoji(name) {
        let i = choose|i: int|
            0 <= i < EMOJI@.len() && name == #[trigger] EMOJI@[i].0@ && e == EMOJI@[i].1@;
        assert(is_good_row(EMOJI@[i]));
    }
}

} // verus!
