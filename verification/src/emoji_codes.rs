//! The emoji table by code points. Some emoji are made of two characters, and many look
//! alike on a terminal, so each entry is given here in numbers.
use vstd::prelude::*;

use crate::emoji::{emoji, law_every_entry_is_found, EMOJI};

verus! {

/// Whether entry `i` of the table is named `name` and stands for `codes`.
pub open spec fn is_entry(i: int, name: Seq<char>, codes: Seq<char>) -> bool {
    &&& 0 <= i < EMOJI@.len()
    &&& EMOJI@[i].0@ == name
    &&& EMOJI@[i].1@ == codes
}

/// What an entry stands for is what its name is shown as, unless an earlier entry has the
/// same name.
pub proof fn law_entries_are_shown(i: int, name: Seq<char>, codes: Seq<char>)
    requires
        is_entry(i, name, codes),
        forall|j: int| 0 <= j < i ==> (#[trigger] EMOJI@[j]).0@ != name,
    ensures
        emoji(name) == Some(codes),
{
    law_every_entry_is_found(i, name);
}

/// The entries from 0 to 21.
pub proof fn law_entries_from_0()
    ensures
        is_entry(0, "smile"@, seq!['\u{1f604}']),
        is_entry(1, "smiley"@, seq!['\u{1f604}']),
        is_entry(2, "grin"@, seq!['\u{1f601}']),
        is_entry(3, "grinning"@, seq!['\u{1f600}']),
        is_entry(4, "laughing"@, seq!['\u{1f606}']),
        is_entry(5, "satisfied"@, seq!['\u{1f606}']),
        is_entry(6, "joy"@, seq!['\u{1f602}']),
        is_entry(7, "rofl"@, seq!['\u{1f923}']),
        is_entry(8, "rolling_on_the_floor_laughing"@, seq!['\u{1f923}']),
        is_entry(9, "blush"@, seq!['\u{1f60a}']),
        is_entry(10, "wink"@, seq!['\u{1f609}']),
        is_entry(11, "slightly_smiling_face"@, seq!['\u{1f642}']),
        is_entry(12, "upside_down_face"@, seq!['\u{1f643}']),
        is_entry(13, "relieved"@, seq!['\u{1f60c}']),
        is_entry(14, "heart_eyes"@, seq!['\u{1f60d}']),
        is_entry(15, "kissing_heart"@, seq!['\u{1f618}']),
        is_entry(16, "yum"@, seq!['\u{1f60b}']),
        is_entry(17, "sunglasses"@, seq!['\u{1f60e}']),
        is_entry(18, "smirk"@, seq!['\u{1f60f}']),
        is_entry(19, "unamused"@, seq!['\u{1f612}']),
        is_entry(20, "thinking_face"@, seq!['\u{1f914}']),
        is_entry(21, "thinking"@, seq!['\u{1f914}']),
{
    reveal_strlit("😄");
    reveal_strlit("😁");
    reveal_strlit("😀");
    reveal_strlit("😆");
    reveal_strlit("😂");
    reveal_strlit("🤣");
    reveal_strlit("😊");
    reveal_strlit("😉");
    reveal_strlit("🙂");
    reveal_strlit("🙃");
    reveal_strlit("😌");
    reveal_strlit("😍");
    reveal_strlit("😘");
    reveal_strlit("😋");
    reveal_strlit("😎");
    reveal_strlit("😏");
    reveal_strlit("😒");
    reveal_strlit("🤔");
    assert(EMOJI@[0].1@ =~= seq!['\u{1f604}']);
    assert(EMOJI@[1].1@ =~= seq!['\u{1f604}']);
    assert(EMOJI@[2].1@ =~= seq!['\u{1f601}']);
    assert(EMOJI@[3].1@ =~= seq!['\u{1f600}']);
    assert(EMOJI@[4].1@ =~= seq!['\u{1f606}']);
    assert(EMOJI@[5].1@ =~= seq!['\u{1f606}']);
    assert(EMOJI@[6].1@ =~= seq!['\u{1f602}']);
    assert(EMOJI@[7].1@ =~= seq!['\u{1f923}']);
    assert(EMOJI@[8].1@ =~= seq!['\u{1f923}']);
    assert(EMOJI@[9].1@ =~= seq!['\u{1f60a}']);
    assert(EMOJI@[10].1@ =~= seq!['\u{1f609}']);
    assert(EMOJI@[11].1@ =~= seq!['\u{1f642}']);
    assert(EMOJI@[12].1@ =~= seq!['\u{1f643}']);
    assert(EMOJI@[13].1@ =~= seq!['\u{1f60c}']);
    assert(EMOJI@[14].1@ =~= seq!['\u{1f60d}']);
    assert(EMOJI@[15].1@ =~= seq!['\u{1f618}']);
    assert(EMOJI@[16].1@ =~= seq!['\u{1f60b}']);
    assert(EMOJI@[17].1@ =~= seq!['\u{1f60e}']);
    assert(EMOJI@[18].1@ =~= seq!['\u{1f60f}']);
    assert(EMOJI@[19].1@ =~= seq!['\u{1f612}']);
    assert(EMOJI@[20].1@ =~= seq!['\u{1f914}']);
    assert(EMOJI@[21].1@ =~= seq!['\u{1f914}']);
}

/// The entries from 22 to 43.
pub proof fn law_entries_from_22()
    ensures
        is_entry(22, "neutral_face"@, seq!['\u{1f610}']),
        is_entry(23, "expressionless"@, seq!['\u{1f611}']),
        is_entry(24, "no_mouth"@, seq!['\u{1f636}']),
        is_entry(25, "roll_eyes"@, seq!['\u{1f644}']),
        is_entry(26, "confused"@, seq!['\u{1f615}']),
        is_entry(27, "worried"@, seq!['\u{1f61f}']),
        is_entry(28, "slightly_frowning_face"@, seq!['\u{1f641}']),
        is_entry(29, "frowning_face"@, seq!['\u{2639}', '\u{fe0f}']),
        is_entry(30, "open_mouth"@, seq!['\u{1f62e}']),
        is_entry(31, "hushed"@, seq!['\u{1f62f}']),
        is_entry(32, "astonished"@, seq!['\u{1f632}']),
        is_entry(33, "flushed"@, seq!['\u{1f633}']),
        is_entry(34, "pleading_face"@, seq!['\u{1f97a}']),
        is_entry(35, "cry"@, seq!['\u{1f622}']),
        is_entry(36, "sob"@, seq!['\u{1f62d}']),
        is_entry(37, "disappointed"@, seq!['\u{1f61e}']),
        is_entry(38, "persevere"@, seq!['\u{1f623}']),
        is_entry(39, "confounded"@, seq!['\u{1f616}']),
        is_entry(40, "tired_face"@, seq!['\u{1f62b}']),
        is_entry(41, "weary"@, seq!['\u{1f629}']),
        is_entry(42, "triumph"@, seq!['\u{1f624}']),
        is_entry(43, "angry"@, seq!['\u{1f620}']),
{
    reveal_strlit("😐");
    reveal_strlit("😑");
    reveal_strlit("😶");
    reveal_strlit("🙄");
    reveal_strlit("😕");
    reveal_strlit("😟");
    reveal_strlit("🙁");
    reveal_strlit("☹️");
    reveal_strlit("😮");
    reveal_strlit("😯");
    reveal_strlit("😲");
    reveal_strlit("😳");
    reveal_strlit("🥺");
    reveal_strlit("😢");
    reveal_strlit("😭");
    reveal_strlit("😞");
    reveal_strlit("😣");
    reveal_strlit("😖");
    reveal_strlit("😫");
    reveal_strlit("😩");
    reveal_strlit("😤");
    reveal_strlit("😠");
    assert(EMOJI@[22].1@ =~= seq!['\u{1f610}']);
    assert(EMOJI@[23].1@ =~= seq!['\u{1f611}']);
    assert(EMOJI@[24].1@ =~= seq!['\u{1f636}']);
    assert(EMOJI@[25].1@ =~= seq!['\u{1f644}']);
    assert(EMOJI@[26].1@ =~= seq!['\u{1f615}']);
    assert(EMOJI@[27].1@ =~= seq!['\u{1f61f}']);
    assert(EMOJI@[28].1@ =~= seq!['\u{1f641}']);
    assert(EMOJI@[29].1@ =~= seq!['\u{2639}', '\u{fe0f}']);
    assert(EMOJI@[30].1@ =~= seq!['\u{1f62e}']);
    assert(EMOJI@[31].1@ =~= seq!['\u{1f62f}']);
    assert(EMOJI@[32].1@ =~= seq!['\u{1f632}']);
    assert(EMOJI@[33].1@ =~= seq!['\u{1f633}']);
    assert(EMOJI@[34].1@ =~= seq!['\u{1f97a}']);
    assert(EMOJI@[35].1@ =~= seq!['\u{1f622}']);
    assert(EMOJI@[36].1@ =~= seq!['\u{1f62d}']);
    assert(EMOJI@[37].1@ =~= seq!['\u{1f61e}']);
    assert(EMOJI@[38].1@ =~= seq!['\u{1f623}']);
    assert(EMOJI@[39].1@ =~= seq!['\u{1f616}']);
    assert(EMOJI@[40].1@ =~= seq!['\u{1f62b}']);
    assert(EMOJI@[41].1@ =~= seq!['\u{1f629}']);
    assert(EMOJI@[42].1@ =~= seq!['\u{1f624}']);
    assert(EMOJI@[43].1@ =~= seq!['\u{1f620}']);
}

/// The entries from 44 to 65.
pub proof fn law_entries_from_44()
    ensures
        is_entry(44, "rage"@, seq!['\u{1f621}']),
        is_entry(45, "dizzy_face"@, seq!['\u{1f635}']),
        is_entry(46, "scream"@, seq!['\u{1f631}']),
        is_entry(47, "fearful"@, seq!['\u{1f628}']),
        is_entry(48, "cold_sweat"@, seq!['\u{1f630}']),
        is_entry(49, "sweat_smile"@, seq!['\u{1f605}']),
        is_entry(50, "sweat"@, seq!['\u{1f613}']),
        is_entry(51, "sleepy"@, seq!['\u{1f62a}']),
        is_entry(52, "sleeping"@, seq!['\u{1f634}']),
        is_entry(53, "zzz"@, seq!['\u{1f4a4}']),
        is_entry(54, "mask"@, seq!['\u{1f637}']),
        is_entry(55, "nauseated_face"@, seq!['\u{1f922}']),
        is_entry(56, "sneezing_face"@, seq!['\u{1f927}']),
        is_entry(57, "innocent"@, seq!['\u{1f607}']),
        is_entry(58, "smiling_imp"@, seq!['\u{1f608}']),
        is_entry(59, "imp"@, seq!['\u{1f47f}']),
        is_entry(60, "japanese_ogre"@, seq!['\u{1f479}']),
        is_entry(61, "skull"@, seq!['\u{1f480}']),
        is_entry(62, "ghost"@, seq!['\u{1f47b}']),
        is_entry(63, "alien"@, seq!['\u{1f47d}']),
        is_entry(64, "robot_face"@, seq!['\u{1f916}']),
        is_entry(65, "poop"@, seq!['\u{1f4a9}']),
{
    reveal_strlit("😡");
    reveal_strlit("😵");
    reveal_strlit("😱");
    reveal_strlit("😨");
    reveal_strlit("😰");
    reveal_strlit("😅");
    reveal_strlit("😓");
    reveal_strlit("😪");
    reveal_strlit("😴");
    reveal_strlit("💤");
    reveal_strlit("😷");
    reveal_strlit("🤢");
    reveal_strlit("🤧");
    reveal_strlit("😇");
    reveal_strlit("😈");
    reveal_strlit("👿");
    reveal_strlit("👹");
    reveal_strlit("💀");
    reveal_strlit("👻");
    reveal_strlit("👽");
    reveal_strlit("🤖");
    reveal_strlit("💩");
    assert(EMOJI@[44].1@ =~= seq!['\u{1f621}']);
    assert(EMOJI@[45].1@ =~= seq!['\u{1f635}']);
    assert(EMOJI@[46].1@ =~= seq!['\u{1f631}']);
    assert(EMOJI@[47].1@ =~= seq!['\u{1f628}']);
    assert(EMOJI@[48].1@ =~= seq!['\u{1f630}']);
    assert(EMOJI@[49].1@ =~= seq!['\u{1f605}']);
    assert(EMOJI@[50].1@ =~= seq!['\u{1f613}']);
    assert(EMOJI@[51].1@ =~= seq!['\u{1f62a}']);
    assert(EMOJI@[52].1@ =~= seq!['\u{1f634}']);
    assert(EMOJI@[53].1@ =~= seq!['\u{1f4a4}']);
    assert(EMOJI@[54].1@ =~= seq!['\u{1f637}']);
    assert(EMOJI@[55].1@ =~= seq!['\u{1f922}']);
    assert(EMOJI@[56].1@ =~= seq!['\u{1f927}']);
    assert(EMOJI@[57].1@ =~= seq!['\u{1f607}']);
    assert(EMOJI@[58].1@ =~= seq!['\u{1f608}']);
    assert(EMOJI@[59].1@ =~= seq!['\u{1f47f}']);
    assert(EMOJI@[60].1@ =~= seq!['\u{1f479}']);
    assert(EMOJI@[61].1@ =~= seq!['\u{1f480}']);
    assert(EMOJI@[62].1@ =~= seq!['\u{1f47b}']);
    assert(EMOJI@[63].1@ =~= seq!['\u{1f47d}']);
    assert(EMOJI@[64].1@ =~= seq!['\u{1f916}']);
    assert(EMOJI@[65].1@ =~= seq!['\u{1f4a9}']);
}

/// The entries from 66 to 87.
pub proof fn law_entries_from_66()
    ensures
        is_entry(66, "hankey"@, seq!['\u{1f4a9}']),
        is_entry(67, "shit"@, seq!['\u{1f4a9}']),
        is_entry(68, "clown_face"@, seq!['\u{1f921}']),
        is_entry(69, "smiley_cat"@, seq!['\u{1f431}']),
        is_entry(70, "cat"@, seq!['\u{1f431}']),
        is_entry(71, "wave"@, seq!['\u{1f44b}']),
        is_entry(72, "raised_hand"@, seq!['\u{270b}']),
        is_entry(73, "hand"@, seq!['\u{270b}']),
        is_entry(74, "ok_hand"@, seq!['\u{1f44c}']),
        is_entry(75, "thumbsup"@, seq!['\u{1f44d}']),
        is_entry(76, "+1"@, seq!['\u{1f44d}']),
        is_entry(77, "thumbsdown"@, seq!['\u{1f44e}']),
        is_entry(78, "-1"@, seq!['\u{1f44e}']),
        is_entry(79, "fist"@, seq!['\u{270a}']),
        is_entry(80, "fist_raised"@, seq!['\u{270a}']),
        is_entry(81, "punch"@, seq!['\u{1f44a}']),
        is_entry(82, "fist_oncoming"@, seq!['\u{1f44a}']),
        is_entry(83, "clap"@, seq!['\u{1f44f}']),
        is_entry(84, "raised_hands"@, seq!['\u{1f64c}']),
        is_entry(85, "pray"@, seq!['\u{1f64f}']),
        is_entry(86, "muscle"@, seq!['\u{1f4aa}']),
        is_entry(87, "point_up"@, seq!['\u{261d}', '\u{fe0f}']),
{
    reveal_strlit("💩");
    reveal_strlit("🤡");
    reveal_strlit("🐱");
    reveal_strlit("👋");
    reveal_strlit("✋");
    reveal_strlit("👌");
    reveal_strlit("👍");
    reveal_strlit("👎");
    reveal_strlit("✊");
    reveal_strlit("👊");
    reveal_strlit("👏");
    reveal_strlit("🙌");
    reveal_strlit("🙏");
    reveal_strlit("💪");
    reveal_strlit("☝️");
    assert(EMOJI@[66].1@ =~= seq!['\u{1f4a9}']);
    assert(EMOJI@[67].1@ =~= seq!['\u{1f4a9}']);
    assert(EMOJI@[68].1@ =~= seq!['\u{1f921}']);
    assert(EMOJI@[69].1@ =~= seq!['\u{1f431}']);
    assert(EMOJI@[70].1@ =~= seq!['\u{1f431}']);
    assert(EMOJI@[71].1@ =~= seq!['\u{1f44b}']);
    assert(EMOJI@[72].1@ =~= seq!['\u{270b}']);
    assert(EMOJI@[73].1@ =~= seq!['\u{270b}']);
    assert(EMOJI@[74].1@ =~= seq!['\u{1f44c}']);
    assert(EMOJI@[75].1@ =~= seq!['\u{1f44d}']);
    assert(EMOJI@[76].1@ =~= seq!['\u{1f44d}']);
    assert(EMOJI@[77].1@ =~= seq!['\u{1f44e}']);
    assert(EMOJI@[78].1@ =~= seq!['\u{1f44e}']);
    assert(EMOJI@[79].1@ =~= seq!['\u{270a}']);
    assert(EMOJI@[80].1@ =~= seq!['\u{270a}']);
    assert(EMOJI@[81].1@ =~= seq!['\u{1f44a}']);
    assert(EMOJI@[82].1@ =~= seq!['\u{1f44a}']);
    assert(EMOJI@[83].1@ =~= seq!['\u{1f44f}']);
    assert(EMOJI@[84].1@ =~= seq!['\u{1f64c}']);
    assert(EMOJI@[85].1@ =~= seq!['\u{1f64f}']);
    assert(EMOJI@[86].1@ =~= seq!['\u{1f4aa}']);
    assert(EMOJI@[87].1@ =~= seq!['\u{261d}', '\u{fe0f}']);
}

/// The entries from 88 to 109.
pub proof fn law_entries_from_88()
    ensures
        is_entry(88, "point_down"@, seq!['\u{1f447}']),
        is_entry(89, "point_left"@, seq!['\u{1f448}']),
        is_entry(90, "point_right"@, seq!['\u{1f449}']),
        is_entry(91, "v"@, seq!['\u{270c}', '\u{fe0f}']),
        is_entry(92, "crossed_fingers"@, seq!['\u{1f91e}']),
        is_entry(93, "handshake"@, seq!['\u{1f91d}']),
        is_entry(94, "heart"@, seq!['\u{2764}', '\u{fe0f}']),
        is_entry(95, "orange_heart"@, seq!['\u{1f9e1}']),
        is_entry(96, "yellow_heart"@, seq!['\u{1f49b}']),
        is_entry(97, "green_heart"@, seq!['\u{1f49a}']),
        is_entry(98, "blue_heart"@, seq!['\u{1f499}']),
        is_entry(99, "purple_heart"@, seq!['\u{1f49c}']),
        is_entry(100, "black_heart"@, seq!['\u{1f5a4}']),
        is_entry(101, "broken_heart"@, seq!['\u{1f494}']),
        is_entry(102, "two_hearts"@, seq!['\u{1f495}']),
        is_entry(103, "sparkling_heart"@, seq!['\u{1f496}']),
        is_entry(104, "heartbeat"@, seq!['\u{1f493}']),
        is_entry(105, "100"@, seq!['\u{1f4af}']),
        is_entry(106, "fire"@, seq!['\u{1f525}']),
        is_entry(107, "star"@, seq!['\u{2b50}']),
        is_entry(108, "star2"@, seq!['\u{1f31f}']),
        is_entry(109, "sparkles"@, seq!['\u{2728}']),
{
    reveal_strlit("👇");
    reveal_strlit("👈");
    reveal_strlit("👉");
    reveal_strlit("✌️");
    reveal_strlit("🤞");
    reveal_strlit("🤝");
    reveal_strlit("❤️");
    reveal_strlit("🧡");
    reveal_strlit("💛");
    reveal_strlit("💚");
    reveal_strlit("💙");
    reveal_strlit("💜");
    reveal_strlit("🖤");
    reveal_strlit("💔");
    reveal_strlit("💕");
    reveal_strlit("💖");
    reveal_strlit("💓");
    reveal_strlit("💯");
    reveal_strlit("🔥");
    reveal_strlit("⭐");
    reveal_strlit("🌟");
    reveal_strlit("✨");
    assert(EMOJI@[88].1@ =~= seq!['\u{1f447}']);
    assert(EMOJI@[89].1@ =~= seq!['\u{1f448}']);
    assert(EMOJI@[90].1@ =~= seq!['\u{1f449}']);
    assert(EMOJI@[91].1@ =~= seq!['\u{270c}', '\u{fe0f}']);
    assert(EMOJI@[92].1@ =~= seq!['\u{1f91e}']);
    assert(EMOJI@[93].1@ =~= seq!['\u{1f91d}']);
    assert(EMOJI@[94].1@ =~= seq!['\u{2764}', '\u{fe0f}']);
    assert(EMOJI@[95].1@ =~= seq!['\u{1f9e1}']);
    assert(EMOJI@[96].1@ =~= seq!['\u{1f49b}']);
    assert(EMOJI@[97].1@ =~= seq!['\u{1f49a}']);
    assert(EMOJI@[98].1@ =~= seq!['\u{1f499}']);
    assert(EMOJI@[99].1@ =~= seq!['\u{1f49c}']);
    assert(EMOJI@[100].1@ =~= seq!['\u{1f5a4}']);
    assert(EMOJI@[101].1@ =~= seq!['\u{1f494}']);
    assert(EMOJI@[102].1@ =~= seq!['\u{1f495}']);
    assert(EMOJI@[103].1@ =~= seq!['\u{1f496}']);
    assert(EMOJI@[104].1@ =~= seq!['\u{1f493}']);
    assert(EMOJI@[105].1@ =~= seq!['\u{1f4af}']);
    assert(EMOJI@[106].1@ =~= seq!['\u{1f525}']);
    assert(EMOJI@[107].1@ =~= seq!['\u{2b50}']);
    assert(EMOJI@[108].1@ =~= seq!['\u{1f31f}']);
    assert(EMOJI@[109].1@ =~= seq!['\u{2728}']);
}

/// The entries from 110 to 131.
pub proof fn law_entries_from_110()
    ensures
        is_entry(110, "tada"@, seq!['\u{1f389}']),
        is_entry(111, "confetti_ball"@, seq!['\u{1f38a}']),
        is_entry(112, "rocket"@, seq!['\u{1f680}']),
        is_entry(113, "eyes"@, seq!['\u{1f440}']),
        is_entry(114, "eye"@, seq!['\u{1f441}', '\u{fe0f}']),
        is_entry(115, "warning"@, seq!['\u{26a0}', '\u{fe0f}']),
        is_entry(116, "exclamation"@, seq!['\u{2757}']),
        is_entry(117, "question"@, seq!['\u{2753}']),
        is_entry(118, "white_check_mark"@, seq!['\u{2705}']),
        is_entry(119, "heavy_check_mark"@, seq!['\u{2705}']),
        is_entry(120, "check"@, seq!['\u{2705}']),
        is_entry(121, "x"@, seq!['\u{274c}']),
        is_entry(122, "heavy_plus_sign"@, seq!['\u{2795}']),
        is_entry(123, "heavy_minus_sign"@, seq!['\u{2796}']),
        is_entry(124, "zap"@, seq!['\u{26a1}']),
        is_entry(125, "boom"@, seq!['\u{1f4a5}']),
        is_entry(126, "collision"@, seq!['\u{1f4a5}']),
        is_entry(127, "bulb"@, seq!['\u{1f4a1}']),
        is_entry(128, "coffee"@, seq!['\u{2615}']),
        is_entry(129, "beer"@, seq!['\u{1f37a}']),
        is_entry(130, "beers"@, seq!['\u{1f37a}']),
        is_entry(131, "pizza"@, seq!['\u{1f355}']),
{
    reveal_strlit("🎉");
    reveal_strlit("🎊");
    reveal_strlit("🚀");
    reveal_strlit("👀");
    reveal_strlit("👁️");
    reveal_strlit("⚠️");
    reveal_strlit("❗");
    reveal_strlit("❓");
    reveal_strlit("✅");
    reveal_strlit("❌");
    reveal_strlit("➕");
    reveal_strlit("➖");
    reveal_strlit("⚡");
    reveal_strlit("💥");
    reveal_strlit("💡");
    reveal_strlit("☕");
    reveal_strlit("🍺");
    reveal_strlit("🍕");
    assert(EMOJI@[110].1@ =~= seq!['\u{1f389}']);
    assert(EMOJI@[111].1@ =~= seq!['\u{1f38a}']);
    assert(EMOJI@[112].1@ =~= seq!['\u{1f680}']);
    assert(EMOJI@[113].1@ =~= seq!['\u{1f440}']);
    assert(EMOJI@[114].1@ =~= seq!['\u{1f441}', '\u{fe0f}']);
    assert(EMOJI@[115].1@ =~= seq!['\u{26a0}', '\u{fe0f}']);
    assert(EMOJI@[116].1@ =~= seq!['\u{2757}']);
    assert(EMOJI@[117].1@ =~= seq!['\u{2753}']);
    assert(EMOJI@[118].1@ =~= seq!['\u{2705}']);
    assert(EMOJI@[119].1@ =~= seq!['\u{2705}']);
    assert(EMOJI@[120].1@ =~= seq!['\u{2705}']);
    assert(EMOJI@[121].1@ =~= seq!['\u{274c}']);
    assert(EMOJI@[122].1@ =~= seq!['\u{2795}']);
    assert(EMOJI@[123].1@ =~= seq!['\u{2796}']);
    assert(EMOJI@[124].1@ =~= seq!['\u{26a1}']);
    assert(EMOJI@[125].1@ =~= seq!['\u{1f4a5}']);
    assert(EMOJI@[126].1@ =~= seq!['\u{1f4a5}']);
    assert(EMOJI@[127].1@ =~= seq!['\u{1f4a1}']);
    assert(EMOJI@[128].1@ =~= seq!['\u{2615}']);
    assert(EMOJI@[129].1@ =~= seq!['\u{1f37a}']);
    assert(EMOJI@[130].1@ =~= seq!['\u{1f37a}']);
    assert(EMOJI@[131].1@ =~= seq!['\u{1f355}']);
}

/// The entries from 132 to 153.
pub proof fn law_entries_from_132()
    ensures
        is_entry(132, "cake"@, seq!['\u{1f370}']),
        is_entry(133, "birthday"@, seq!['\u{1f382}']),
        is_entry(134, "gift"@, seq!['\u{1f381}']),
        is_entry(135, "trophy"@, seq!['\u{1f3c6}']),
        is_entry(136, "medal"@, seq!['\u{1f3c5}']),
        is_entry(137, "sports_medal"@, seq!['\u{1f3c5}']),
        is_entry(138, "checkered_flag"@, seq!['\u{1f3c1}']),
        is_entry(139, "bell"@, seq!['\u{1f514}']),
        is_entry(140, "no_bell"@, seq!['\u{1f515}']),
        is_entry(141, "lock"@, seq!['\u{1f512}']),
        is_entry(142, "unlock"@, seq!['\u{1f513}']),
        is_entry(143, "key"@, seq!['\u{1f511}']),
        is_entry(144, "hourglass"@, seq!['\u{231b}']),
        is_entry(145, "hourglass_flowing_sand"@, seq!['\u{23f3}']),
        is_entry(146, "clock1"@, seq!['\u{1f550}']),
        is_entry(147, "clock"@, seq!['\u{1f550}']),
        is_entry(148, "calendar"@, seq!['\u{1f4c5}']),
        is_entry(149, "email"@, seq!['\u{2709}', '\u{fe0f}']),
        is_entry(150, "envelope"@, seq!['\u{2709}', '\u{fe0f}']),
        is_entry(151, "phone"@, seq!['\u{1f4de}']),
        is_entry(152, "computer"@, seq!['\u{1f4bb}']),
        is_entry(153, "moneybag"@, seq!['\u{1f4b0}']),
{
    reveal_strlit("🍰");
    reveal_strlit("🎂");
    reveal_strlit("🎁");
    reveal_strlit("🏆");
    reveal_strlit("🏅");
    reveal_strlit("🏁");
    reveal_strlit("🔔");
    reveal_strlit("🔕");
    reveal_strlit("🔒");
    reveal_strlit("🔓");
    reveal_strlit("🔑");
    reveal_strlit("⌛");
    reveal_strlit("⏳");
    reveal_strlit("🕐");
    reveal_strlit("📅");
    reveal_strlit("✉️");
    reveal_strlit("📞");
    reveal_strlit("💻");
    reveal_strlit("💰");
    assert(EMOJI@[132].1@ =~= seq!['\u{1f370}']);
    assert(EMOJI@[133].1@ =~= seq!['\u{1f382}']);
    assert(EMOJI@[134].1@ =~= seq!['\u{1f381}']);
    assert(EMOJI@[135].1@ =~= seq!['\u{1f3c6}']);
    assert(EMOJI@[136].1@ =~= seq!['\u{1f3c5}']);
    assert(EMOJI@[137].1@ =~= seq!['\u{1f3c5}']);
    assert(EMOJI@[138].1@ =~= seq!['\u{1f3c1}']);
    assert(EMOJI@[139].1@ =~= seq!['\u{1f514}']);
    assert(EMOJI@[140].1@ =~= seq!['\u{1f515}']);
    assert(EMOJI@[141].1@ =~= seq!['\u{1f512}']);
    assert(EMOJI@[142].1@ =~= seq!['\u{1f513}']);
    assert(EMOJI@[143].1@ =~= seq!['\u{1f511}']);
    assert(EMOJI@[144].1@ =~= seq!['\u{231b}']);
    assert(EMOJI@[145].1@ =~= seq!['\u{23f3}']);
    assert(EMOJI@[146].1@ =~= seq!['\u{1f550}']);
    assert(EMOJI@[147].1@ =~= seq!['\u{1f550}']);
    assert(EMOJI@[148].1@ =~= seq!['\u{1f4c5}']);
    assert(EMOJI@[149].1@ =~= seq!['\u{2709}', '\u{fe0f}']);
    assert(EMOJI@[150].1@ =~= seq!['\u{2709}', '\u{fe0f}']);
    assert(EMOJI@[151].1@ =~= seq!['\u{1f4de}']);
    assert(EMOJI@[152].1@ =~= seq!['\u{1f4bb}']);
    assert(EMOJI@[153].1@ =~= seq!['\u{1f4b0}']);
}

/// The entries from 154 to 175.
pub proof fn law_entries_from_154()
    ensures
        is_entry(154, "gem"@, seq!['\u{1f48e}']),
        is_entry(155, "raised_eyebrow"@, seq!['\u{1f928}']),
        is_entry(156, "shrug"@, seq!['\u{1f937}']),
        is_entry(157, "facepalm"@, seq!['\u{1f926}']),
        is_entry(158, "wave_hand"@, seq!['\u{1f44b}']),
        is_entry(159, "loudspeaker"@, seq!['\u{1f4e2}']),
        is_entry(160, "mega"@, seq!['\u{1f4e3}']),
        is_entry(161, "speech_balloon"@, seq!['\u{1f4ac}']),
        is_entry(162, "thought_balloon"@, seq!['\u{1f4ad}']),
        is_entry(163, "arrow_right"@, seq!['\u{27a1}', '\u{fe0f}']),
        is_entry(164, "arrow_left"@, seq!['\u{2b05}', '\u{fe0f}']),
        is_entry(165, "arrow_up"@, seq!['\u{2b06}', '\u{fe0f}']),
        is_entry(166, "arrow_down"@, seq!['\u{2b07}', '\u{fe0f}']),
        is_entry(167, "recycle"@, seq!['\u{267b}', '\u{fe0f}']),
        is_entry(168, "new"@, seq!['\u{1f195}']),
        is_entry(169, "ok"@, seq!['\u{1f197}']),
        is_entry(170, "sos"@, seq!['\u{1f198}']),
        is_entry(171, "up"@, seq!['\u{1f199}']),
        is_entry(172, "us"@, seq!['\u{1f1fa}', '\u{1f1f8}']),
        is_entry(173, "flag-us"@, seq!['\u{1f1fa}', '\u{1f1f8}']),
        is_entry(174, "de"@, seq!['\u{1f1e9}', '\u{1f1ea}']),
        is_entry(175, "flag-de"@, seq!['\u{1f1e9}', '\u{1f1ea}']),
{
    reveal_strlit("💎");
    reveal_strlit("🤨");
    reveal_strlit("🤷");
    reveal_strlit("🤦");
    reveal_strlit("👋");
    reveal_strlit("📢");
    reveal_strlit("📣");
    reveal_strlit("💬");
    reveal_strlit("💭");
    reveal_strlit("➡️");
    reveal_strlit("⬅️");
    reveal_strlit("⬆️");
    reveal_strlit("⬇️");
    reveal_strlit("♻️");
    reveal_strlit("🆕");
    reveal_strlit("🆗");
    reveal_strlit("🆘");
    reveal_strlit("🆙");
    reveal_strlit("🇺🇸");
    reveal_strlit("🇩🇪");
    assert(EMOJI@[154].1@ =~= seq!['\u{1f48e}']);
    assert(EMOJI@[155].1@ =~= seq!['\u{1f928}']);
    assert(EMOJI@[156].1@ =~= seq!['\u{1f937}']);
    assert(EMOJI@[157].1@ =~= seq!['\u{1f926}']);
    assert(EMOJI@[158].1@ =~= seq!['\u{1f44b}']);
    assert(EMOJI@[159].1@ =~= seq!['\u{1f4e2}']);
    assert(EMOJI@[160].1@ =~= seq!['\u{1f4e3}']);
    assert(EMOJI@[161].1@ =~= seq!['\u{1f4ac}']);
    assert(EMOJI@[162].1@ =~= seq!['\u{1f4ad}']);
    assert(EMOJI@[163].1@ =~= seq!['\u{27a1}', '\u{fe0f}']);
    assert(EMOJI@[164].1@ =~= seq!['\u{2b05}', '\u{fe0f}']);
    assert(EMOJI@[165].1@ =~= seq!['\u{2b06}', '\u{fe0f}']);
    assert(EMOJI@[166].1@ =~= seq!['\u{2b07}', '\u{fe0f}']);
    assert(EMOJI@[167].1@ =~= seq!['\u{267b}', '\u{fe0f}']);
    assert(EMOJI@[168].1@ =~= seq!['\u{1f195}']);
    assert(EMOJI@[169].1@ =~= seq!['\u{1f197}']);
    assert(EMOJI@[170].1@ =~= seq!['\u{1f198}']);
    assert(EMOJI@[171].1@ =~= seq!['\u{1f199}']);
    assert(EMOJI@[172].1@ =~= seq!['\u{1f1fa}', '\u{1f1f8}']);
    assert(EMOJI@[173].1@ =~= seq!['\u{1f1fa}', '\u{1f1f8}']);
    assert(EMOJI@[174].1@ =~= seq!['\u{1f1e9}', '\u{1f1ea}']);
    assert(EMOJI@[175].1@ =~= seq!['\u{1f1e9}', '\u{1f1ea}']);
}

} // verus!
