//! The named color tables: ANSI palette names and CSS color names.

use vstd::prelude::*;
use crate::strutil::str_eq;

verus! {

/// The value stored under the first entry of `t` whose key is `key`.
pub open spec fn table_lookup<V>(t: Seq<(Seq<char>, V)>, key: Seq<char>) -> Option<V>
    decreases t.len(),
{
    if t.len() == 0 {
        None
    } else if t[0].0 == key {
        Some(t[0].1)
    } else {
        table_lookup(t.drop_first(), key)
    }
}

/// A table of string keys viewed as character sequences.
pub open spec fn keyed_view<V>(t: Seq<(&'static str, V)>) -> Seq<(Seq<char>, V)> {
    t.map_values(|p: (&'static str, V)| (p.0@, p.1))
}

/// Looks `key` up in `t`, returning the value of the first matching entry.
pub fn lookup_in<V: Copy>(t: &Vec<(&'static str, V)>, key: &str) -> (r: Option<V>)
    ensures
        r == table_lookup(keyed_view(t@), key@),
{
    let mut i: usize = 0;
    assert(keyed_view(t@).skip(0) =~= keyed_view(t@));
    while i < t.len()
        invariant
            i <= t@.len(),
            table_lookup(keyed_view(t@), key@) == table_lookup(keyed_view(t@).skip(i as int), key@),
        decreases t.len() - i,
    {
        let ghost rest = keyed_view(t@).skip(i as int);
        assert(rest.drop_first() =~= keyed_view(t@).skip(i + 1));
        assert(rest[0] == (t@[i as int].0@, t@[i as int].1));
        if str_eq(t[i].0, key) {
            return Some(t[i].1);
        }
        i = i + 1;
    }
    None
}

/// Looks `key` up in `t`, returning the first matching entry itself.
pub fn lookup_entry<V: Copy>(t: &Vec<(&'static str, V)>, key: &str) -> (r: Option<(&'static str, V)>)
    ensures
        match r {
            Some(e) => e.0@ == key@ && table_lookup(keyed_view(t@), key@) == Some(e.1),
            None => table_lookup(keyed_view(t@), key@) is None,
        },
{
    let mut i: usize = 0;
    assert(keyed_view(t@).skip(0) =~= keyed_view(t@));
    while i < t.len()
        invariant
            i <= t@.len(),
            table_lookup(keyed_view(t@), key@) == table_lookup(keyed_view(t@).skip(i as int), key@),
        decreases t.len() - i,
    {
        let ghost rest = keyed_view(t@).skip(i as int);
        assert(rest.drop_first() =~= keyed_view(t@).skip(i + 1));
        assert(rest[0] == (t@[i as int].0@, t@[i as int].1));
        if str_eq(t[i].0, key) {
            return Some(t[i]);
        }
        i = i + 1;
    }
    None
}

/// Names of the 256-color palette entries, with their palette index.
pub open spec fn ansi_names() -> Seq<(Seq<char>, u8)> {
    seq![
        ("black"@, 0u8),
        ("red"@, 1u8),
        ("green"@, 2u8),
        ("yellow"@, 3u8),
        ("blue"@, 4u8),
        ("magenta"@, 5u8),
        ("cyan"@, 6u8),
        ("white"@, 7u8),
        ("bright_black"@, 8u8),
        ("grey"@, 8u8),
        ("gray"@, 8u8),
        ("bright_red"@, 9u8),
        ("bright_green"@, 10u8),
        ("bright_yellow"@, 11u8),
        ("bright_blue"@, 12u8),
        ("bright_magenta"@, 13u8),
        ("bright_cyan"@, 14u8),
        ("bright_white"@, 15u8),
        ("grey0"@, 16u8),
        ("gray0"@, 16u8),
        ("navy_blue"@, 17u8),
        ("dark_blue"@, 18u8),
        ("blue3"@, 20u8),
        ("blue1"@, 21u8),
        ("dark_green"@, 22u8),
        ("deep_sky_blue4"@, 25u8),
        ("dodger_blue3"@, 26u8),
        ("dodger_blue2"@, 27u8),
        ("green4"@, 28u8),
        ("spring_green4"@, 29u8),
        ("turquoise4"@, 30u8),
        ("deep_sky_blue3"@, 32u8),
        ("dodger_blue1"@, 33u8),
        ("dark_cyan"@, 36u8),
        ("light_sea_green"@, 37u8),
        ("deep_sky_blue2"@, 38u8),
        ("deep_sky_blue1"@, 39u8),
        ("green3"@, 40u8),
        ("spring_green3"@, 41u8),
        ("cyan3"@, 43u8),
        ("dark_turquoise"@, 44u8),
        ("turquoise2"@, 45u8),
        ("green1"@, 46u8),
        ("spring_green2"@, 47u8),
        ("spring_green1"@, 48u8),
        ("medium_spring_green"@, 49u8),
        ("cyan2"@, 50u8),
        ("cyan1"@, 51u8),
        ("purple4"@, 55u8),
        ("purple3"@, 56u8),
        ("blue_violet"@, 57u8),
        ("grey37"@, 59u8),
        ("gray37"@, 59u8),
        ("medium_purple4"@, 60u8),
        ("slate_blue3"@, 62u8),
        ("royal_blue1"@, 63u8),
        ("chartreuse4"@, 64u8),
        ("pale_turquoise4"@, 66u8),
        ("steel_blue"@, 67u8),
        ("steel_blue3"@, 68u8),
        ("cornflower_blue"@, 69u8),
        ("dark_sea_green4"@, 71u8),
        ("dark_sea_green"@, 71u8),
        ("cadet_blue"@, 73u8),
        ("sky_blue3"@, 74u8),
        ("chartreuse3"@, 76u8),
        ("sea_green3"@, 78u8),
        ("aquamarine3"@, 79u8),
        ("medium_turquoise"@, 80u8),
        ("steel_blue1"@, 81u8),
        ("sea_green2"@, 83u8),
        ("sea_green1"@, 85u8),
        ("dark_slate_gray2"@, 87u8),
        ("dark_red"@, 88u8),
        ("dark_magenta"@, 91u8),
        ("orange4"@, 94u8),
        ("light_pink4"@, 95u8),
        ("plum4"@, 96u8),
        ("medium_purple3"@, 98u8),
        ("slate_blue1"@, 99u8),
        ("wheat4"@, 101u8),
        ("grey53"@, 102u8),
        ("gray53"@, 102u8),
        ("light_slate_grey"@, 103u8),
        ("light_slate_gray"@, 103u8),
        ("medium_purple"@, 104u8),
        ("light_slate_blue"@, 105u8),
        ("yellow4"@, 106u8),
        ("dark_olive_green3"@, 110u8),
        ("light_sky_blue3"@, 110u8),
        ("sky_blue2"@, 111u8),
        ("chartreuse2"@, 112u8),
        ("pale_green3"@, 114u8),
        ("dark_slate_gray3"@, 116u8),
        ("sky_blue1"@, 117u8),
        ("chartreuse1"@, 118u8),
        ("light_green"@, 120u8),
        ("aquamarine1"@, 122u8),
        ("dark_slate_gray1"@, 123u8),
        ("deep_pink4"@, 125u8),
        ("medium_violet_red"@, 126u8),
        ("dark_violet"@, 128u8),
        ("purple"@, 129u8),
        ("medium_orchid3"@, 133u8),
        ("medium_orchid"@, 134u8),
        ("dark_goldenrod"@, 136u8),
        ("rosy_brown"@, 138u8),
        ("grey63"@, 139u8),
        ("gray63"@, 139u8),
        ("medium_purple2"@, 140u8),
        ("medium_purple1"@, 141u8),
        ("dark_khaki"@, 143u8),
        ("navajo_white3"@, 144u8),
        ("grey69"@, 145u8),
        ("gray69"@, 145u8),
        ("light_steel_blue3"@, 146u8),
        ("light_steel_blue"@, 147u8),
        ("dark_olive_green2"@, 155u8),
        ("pale_green1"@, 156u8),
        ("dark_sea_green2"@, 157u8),
        ("pale_turquoise1"@, 159u8),
        ("red3"@, 160u8),
        ("deep_pink3"@, 162u8),
        ("magenta3"@, 164u8),
        ("dark_orange3"@, 166u8),
        ("indian_red"@, 167u8),
        ("hot_pink3"@, 168u8),
        ("hot_pink2"@, 169u8),
        ("orchid"@, 170u8),
        ("orange3"@, 172u8),
        ("light_salmon3"@, 173u8),
        ("light_pink3"@, 174u8),
        ("pink3"@, 175u8),
        ("plum3"@, 176u8),
        ("violet"@, 177u8),
        ("gold3"@, 178u8),
        ("light_goldenrod3"@, 179u8),
        ("tan"@, 180u8),
        ("misty_rose3"@, 181u8),
        ("thistle3"@, 182u8),
        ("plum2"@, 183u8),
        ("yellow3"@, 184u8),
        ("khaki3"@, 185u8),
        ("light_yellow3"@, 187u8),
        ("grey84"@, 188u8),
        ("gray84"@, 188u8),
        ("light_steel_blue1"@, 189u8),
        ("yellow2"@, 190u8),
        ("dark_olive_green1"@, 192u8),
        ("dark_sea_green1"@, 193u8),
        ("honeydew2"@, 194u8),
        ("light_cyan1"@, 195u8),
        ("red1"@, 196u8),
        ("deep_pink2"@, 197u8),
        ("deep_pink1"@, 199u8),
        ("magenta2"@, 200u8),
        ("magenta1"@, 201u8),
        ("orange_red1"@, 202u8),
        ("indian_red1"@, 204u8),
        ("hot_pink"@, 206u8),
        ("medium_orchid1"@, 207u8),
        ("dark_orange"@, 208u8),
        ("salmon1"@, 209u8),
        ("light_coral"@, 210u8),
        ("pale_violet_red1"@, 211u8),
        ("orchid2"@, 212u8),
        ("orchid1"@, 213u8),
        ("orange1"@, 214u8),
        ("sandy_brown"@, 215u8),
        ("light_salmon1"@, 216u8),
        ("light_pink1"@, 217u8),
        ("pink1"@, 218u8),
        ("plum1"@, 219u8),
        ("gold1"@, 220u8),
        ("light_goldenrod2"@, 222u8),
        ("navajo_white1"@, 223u8),
        ("misty_rose1"@, 224u8),
        ("thistle1"@, 225u8),
        ("yellow1"@, 226u8),
        ("light_goldenrod1"@, 227u8),
        ("khaki1"@, 228u8),
        ("wheat1"@, 229u8),
        ("cornsilk1"@, 230u8),
        ("grey100"@, 231u8),
        ("gray100"@, 231u8),
        ("grey3"@, 232u8),
        ("gray3"@, 232u8),
        ("grey7"@, 233u8),
        ("gray7"@, 233u8),
        ("grey11"@, 234u8),
        ("gray11"@, 234u8),
        ("grey15"@, 235u8),
        ("gray15"@, 235u8),
        ("grey19"@, 236u8),
        ("gray19"@, 236u8),
        ("grey23"@, 237u8),
        ("gray23"@, 237u8),
        ("grey27"@, 238u8),
        ("gray27"@, 238u8),
        ("grey30"@, 239u8),
        ("gray30"@, 239u8),
        ("grey35"@, 240u8),
        ("gray35"@, 240u8),
        ("grey39"@, 241u8),
        ("gray39"@, 241u8),
        ("grey42"@, 242u8),
        ("gray42"@, 242u8),
        ("grey46"@, 243u8),
        ("gray46"@, 243u8),
        ("grey50"@, 244u8),
        ("gray50"@, 244u8),
        ("grey54"@, 245u8),
        ("gray54"@, 245u8),
        ("grey58"@, 246u8),
        ("gray58"@, 246u8),
        ("grey62"@, 247u8),
        ("gray62"@, 247u8),
        ("grey66"@, 248u8),
        ("gray66"@, 248u8),
        ("dark_grey"@, 248u8),
        ("dark_gray"@, 248u8),
        ("grey70"@, 249u8),
        ("gray70"@, 249u8),
        ("grey74"@, 250u8),
        ("gray74"@, 250u8),
        ("light_grey"@, 250u8),
        ("light_gray"@, 250u8),
        ("grey78"@, 251u8),
        ("gray78"@, 251u8),
        ("grey82"@, 252u8),
        ("gray82"@, 252u8),
        ("grey85"@, 253u8),
        ("gray85"@, 253u8),
        ("grey89"@, 254u8),
        ("gray89"@, 254u8),
        ("grey93"@, 255u8),
        ("gray93"@, 255u8)
    ]
}

/// The palette-name table used at run time.
pub fn ansi_name_table() -> (t: Vec<(&'static str, u8)>)
    ensures
        keyed_view(t@) == ansi_names(),
{
    let t = vec![
        ("black", 0u8),
        ("red", 1u8),
        ("green", 2u8),
        ("yellow", 3u8),
        ("blue", 4u8),
        ("magenta", 5u8),
        ("cyan", 6u8),
        ("white", 7u8),
        ("bright_black", 8u8),
        ("grey", 8u8),
        ("gray", 8u8),
        ("bright_red", 9u8),
        ("bright_green", 10u8),
        ("bright_yellow", 11u8),
        ("bright_blue", 12u8),
        ("bright_magenta", 13u8),
        ("bright_cyan", 14u8),
        ("bright_white", 15u8),
        ("grey0", 16u8),
        ("gray0", 16u8),
        ("navy_blue", 17u8),
        ("dark_blue", 18u8),
        ("blue3", 20u8),
        ("blue1", 21u8),
        ("dark_green", 22u8),
        ("deep_sky_blue4", 25u8),
        ("dodger_blue3", 26u8),
        ("dodger_blue2", 27u8),
        ("green4", 28u8),
        ("spring_green4", 29u8),
        ("turquoise4", 30u8),
        ("deep_sky_blue3", 32u8),
        ("dodger_blue1", 33u8),
        ("dark_cyan", 36u8),
        ("light_sea_green", 37u8),
        ("deep_sky_blue2", 38u8),
        ("deep_sky_blue1", 39u8),
        ("green3", 40u8),
        ("spring_green3", 41u8),
        ("cyan3", 43u8),
        ("dark_turquoise", 44u8),
        ("turquoise2", 45u8),
        ("green1", 46u8),
        ("spring_green2", 47u8),
        ("spring_green1", 48u8),
        ("medium_spring_green", 49u8),
        ("cyan2", 50u8),
        ("cyan1", 51u8),
        ("purple4", 55u8),
        ("purple3", 56u8),
        ("blue_violet", 57u8),
        ("grey37", 59u8),
        ("gray37", 59u8),
        ("medium_purple4", 60u8),
        ("slate_blue3", 62u8),
        ("royal_blue1", 63u8),
        ("chartreuse4", 64u8),
        ("pale_turquoise4", 66u8),
        ("steel_blue", 67u8),
        ("steel_blue3", 68u8),
        ("cornflower_blue", 69u8),
        ("dark_sea_green4", 71u8),
        ("dark_sea_green", 71u8),
        ("cadet_blue", 73u8),
        ("sky_blue3", 74u8),
        ("chartreuse3", 76u8),
        ("sea_green3", 78u8),
        ("aquamarine3", 79u8),
        ("medium_turquoise", 80u8),
        ("steel_blue1", 81u8),
        ("sea_green2", 83u8),
        ("sea_green1", 85u8),
        ("dark_slate_gray2", 87u8),
        ("dark_red", 88u8),
        ("dark_magenta", 91u8),
        ("orange4", 94u8),
        ("light_pink4", 95u8),
        ("plum4", 96u8),
        ("medium_purple3", 98u8),
        ("slate_blue1", 99u8),
        ("wheat4", 101u8),
        ("grey53", 102u8),
        ("gray53", 102u8),
        ("light_slate_grey", 103u8),
        ("light_slate_gray", 103u8),
        ("medium_purple", 104u8),
        ("light_slate_blue", 105u8),
        ("yellow4", 106u8),
        ("dark_olive_green3", 110u8),
        ("light_sky_blue3", 110u8),
        ("sky_blue2", 111u8),
        ("chartreuse2", 112u8),
        ("pale_green3", 114u8),
        ("dark_slate_gray3", 116u8),
        ("sky_blue1", 117u8),
        ("chartreuse1", 118u8),
        ("light_green", 120u8),
        ("aquamarine1", 122u8),
        ("dark_slate_gray1", 123u8),
        ("deep_pink4", 125u8),
        ("medium_violet_red", 126u8),
        ("dark_violet", 128u8),
        ("purple", 129u8),
        ("medium_orchid3", 133u8),
        ("medium_orchid", 134u8),
        ("dark_goldenrod", 136u8),
        ("rosy_brown", 138u8),
        ("grey63", 139u8),
        ("gray63", 139u8),
        ("medium_purple2", 140u8),
        ("medium_purple1", 141u8),
        ("dark_khaki", 143u8),
        ("navajo_white3", 144u8),
        ("grey69", 145u8),
        ("gray69", 145u8),
        ("light_steel_blue3", 146u8),
        ("light_steel_blue", 147u8),
        ("dark_olive_green2", 155u8),
        ("pale_green1", 156u8),
        ("dark_sea_green2", 157u8),
        ("pale_turquoise1", 159u8),
        ("red3", 160u8),
        ("deep_pink3", 162u8),
        ("magenta3", 164u8),
        ("dark_orange3", 166u8),
        ("indian_red", 167u8),
        ("hot_pink3", 168u8),
        ("hot_pink2", 169u8),
        ("orchid", 170u8),
        ("orange3", 172u8),
        ("light_salmon3", 173u8),
        ("light_pink3", 174u8),
        ("pink3", 175u8),
        ("plum3", 176u8),
        ("violet", 177u8),
        ("gold3", 178u8),
        ("light_goldenrod3", 179u8),
        ("tan", 180u8),
        ("misty_rose3", 181u8),
        ("thistle3", 182u8),
        ("plum2", 183u8),
        ("yellow3", 184u8),
        ("khaki3", 185u8),
        ("light_yellow3", 187u8),
        ("grey84", 188u8),
        ("gray84", 188u8),
        ("light_steel_blue1", 189u8),
        ("yellow2", 190u8),
        ("dark_olive_green1", 192u8),
        ("dark_sea_green1", 193u8),
        ("honeydew2", 194u8),
        ("light_cyan1", 195u8),
        ("red1", 196u8),
        ("deep_pink2", 197u8),
        ("deep_pink1", 199u8),
        ("magenta2", 200u8),
        ("magenta1", 201u8),
        ("orange_red1", 202u8),
        ("indian_red1", 204u8),
        ("hot_pink", 206u8),
        ("medium_orchid1", 207u8),
        ("dark_orange", 208u8),
        ("salmon1", 209u8),
        ("light_coral", 210u8),
        ("pale_violet_red1", 211u8),
        ("orchid2", 212u8),
        ("orchid1", 213u8),
        ("orange1", 214u8),
        ("sandy_brown", 215u8),
        ("light_salmon1", 216u8),
        ("light_pink1", 217u8),
        ("pink1", 218u8),
        ("plum1", 219u8),
        ("gold1", 220u8),
        ("light_goldenrod2", 222u8),
        ("navajo_white1", 223u8),
        ("misty_rose1", 224u8),
        ("thistle1", 225u8),
        ("yellow1", 226u8),
        ("light_goldenrod1", 227u8),
        ("khaki1", 228u8),
        ("wheat1", 229u8),
        ("cornsilk1", 230u8),
        ("grey100", 231u8),
        ("gray100", 231u8),
        ("grey3", 232u8),
        ("gray3", 232u8),
        ("grey7", 233u8),
        ("gray7", 233u8),
        ("grey11", 234u8),
        ("gray11", 234u8),
        ("grey15", 235u8),
        ("gray15", 235u8),
        ("grey19", 236u8),
        ("gray19", 236u8),
        ("grey23", 237u8),
        ("gray23", 237u8),
        ("grey27", 238u8),
        ("gray27", 238u8),
        ("grey30", 239u8),
        ("gray30", 239u8),
        ("grey35", 240u8),
        ("gray35", 240u8),
        ("grey39", 241u8),
        ("gray39", 241u8),
        ("grey42", 242u8),
        ("gray42", 242u8),
        ("grey46", 243u8),
        ("gray46", 243u8),
        ("grey50", 244u8),
        ("gray50", 244u8),
        ("grey54", 245u8),
        ("gray54", 245u8),
        ("grey58", 246u8),
        ("gray58", 246u8),
        ("grey62", 247u8),
        ("gray62", 247u8),
        ("grey66", 248u8),
        ("gray66", 248u8),
        ("dark_grey", 248u8),
        ("dark_gray", 248u8),
        ("grey70", 249u8),
        ("gray70", 249u8),
        ("grey74", 250u8),
        ("gray74", 250u8),
        ("light_grey", 250u8),
        ("light_gray", 250u8),
        ("grey78", 251u8),
        ("gray78", 251u8),
        ("grey82", 252u8),
        ("gray82", 252u8),
        ("grey85", 253u8),
        ("gray85", 253u8),
        ("grey89", 254u8),
        ("gray89", 254u8),
        ("grey93", 255u8),
        ("gray93", 255u8)
    ];
    assert(keyed_view(t@) =~= ansi_names());
    t
}

/// CSS color names (lowercase, sorted) with their RGB values.
pub open spec fn css_names() -> Seq<(Seq<char>, (u8, u8, u8))> {
    seq![
        ("aliceblue"@, (240u8, 248u8, 255u8)),
        ("antiquewhite"@, (250u8, 235u8, 215u8)),
        ("aqua"@, (0u8, 255u8, 255u8)),
        ("aquamarine"@, (127u8, 255u8, 212u8)),
        ("azure"@, (240u8, 255u8, 255u8)),
        ("beige"@, (245u8, 245u8, 220u8)),
        ("bisque"@, (255u8, 228u8, 196u8)),
        ("black"@, (0u8, 0u8, 0u8)),
        ("blanchedalmond"@, (255u8, 235u8, 205u8)),
        ("blue"@, (0u8, 0u8, 255u8)),
        ("blueviolet"@, (138u8, 43u8, 226u8)),
        ("brown"@, (165u8, 42u8, 42u8)),
        ("burlywood"@, (222u8, 184u8, 135u8)),
        ("cadetblue"@, (95u8, 158u8, 160u8)),
        ("chartreuse"@, (127u8, 255u8, 0u8)),
        ("chocolate"@, (210u8, 105u8, 30u8)),
        ("coral"@, (255u8, 127u8, 80u8)),
        ("cornflowerblue"@, (100u8, 149u8, 237u8)),
        ("cornsilk"@, (255u8, 248u8, 220u8)),
        ("crimson"@, (220u8, 20u8, 60u8)),
        ("cyan"@, (0u8, 255u8, 255u8)),
        ("darkblue"@, (0u8, 0u8, 139u8)),
        ("darkcyan"@, (0u8, 139u8, 139u8)),
        ("darkgoldenrod"@, (184u8, 134u8, 11u8)),
        ("darkgray"@, (169u8, 169u8, 169u8)),
        ("darkgreen"@, (0u8, 100u8, 0u8)),
        ("darkgrey"@, (169u8, 169u8, 169u8)),
        ("darkkhaki"@, (189u8, 183u8, 107u8)),
        ("darkmagenta"@, (139u8, 0u8, 139u8)),
        ("darkolivegreen"@, (85u8, 107u8, 47u8)),
        ("darkorange"@, (255u8, 140u8, 0u8)),
        ("darkorchid"@, (153u8, 50u8, 204u8)),
        ("darkred"@, (139u8, 0u8, 0u8)),
        ("darksalmon"@, (233u8, 150u8, 122u8)),
        ("darkseagreen"@, (143u8, 188u8, 143u8)),
        ("darkslateblue"@, (72u8, 61u8, 139u8)),
        ("darkslategray"@, (47u8, 79u8, 79u8)),
        ("darkslategrey"@, (47u8, 79u8, 79u8)),
        ("darkturquoise"@, (0u8, 206u8, 209u8)),
        ("darkviolet"@, (148u8, 0u8, 211u8)),
        ("deeppink"@, (255u8, 20u8, 147u8)),
        ("deepskyblue"@, (0u8, 191u8, 255u8)),
        ("dimgray"@, (105u8, 105u8, 105u8)),
        ("dimgrey"@, (105u8, 105u8, 105u8)),
        ("dodgerblue"@, (30u8, 144u8, 255u8)),
        ("firebrick"@, (178u8, 34u8, 34u8)),
        ("floralwhite"@, (255u8, 250u8, 240u8)),
        ("forestgreen"@, (34u8, 139u8, 34u8)),
        ("fuchsia"@, (255u8, 0u8, 255u8)),
        ("gainsboro"@, (220u8, 220u8, 220u8)),
        ("ghostwhite"@, (248u8, 248u8, 255u8)),
        ("gold"@, (255u8, 215u8, 0u8)),
        ("goldenrod"@, (218u8, 165u8, 32u8)),
        ("gray"@, (128u8, 128u8, 128u8)),
        ("green"@, (0u8, 128u8, 0u8)),
        ("greenyellow"@, (173u8, 255u8, 47u8)),
        ("grey"@, (128u8, 128u8, 128u8)),
        ("honeydew"@, (240u8, 255u8, 240u8)),
        ("hotpink"@, (255u8, 105u8, 180u8)),
        ("indianred"@, (205u8, 92u8, 92u8)),
        ("indigo"@, (75u8, 0u8, 130u8)),
        ("ivory"@, (255u8, 255u8, 240u8)),
        ("khaki"@, (240u8, 230u8, 140u8)),
        ("lavender"@, (230u8, 230u8, 250u8)),
        ("lavenderblush"@, (255u8, 240u8, 245u8)),
        ("lawngreen"@, (124u8, 252u8, 0u8)),
        ("lemonchiffon"@, (255u8, 250u8, 205u8)),
        ("lightblue"@, (173u8, 216u8, 230u8)),
        ("lightcoral"@, (240u8, 128u8, 128u8)),
        ("lightcyan"@, (224u8, 255u8, 255u8)),
        ("lightgoldenrodyellow"@, (250u8, 250u8, 210u8)),
        ("lightgray"@, (211u8, 211u8, 211u8)),
        ("lightgreen"@, (144u8, 238u8, 144u8)),
        ("lightgrey"@, (211u8, 211u8, 211u8)),
        ("lightpink"@, (255u8, 182u8, 193u8)),
        ("lightsalmon"@, (255u8, 160u8, 122u8)),
        ("lightseagreen"@, (32u8, 178u8, 170u8)),
        ("lightskyblue"@, (135u8, 206u8, 250u8)),
        ("lightslategray"@, (119u8, 136u8, 153u8)),
        ("lightslategrey"@, (119u8, 136u8, 153u8)),
        ("lightsteelblue"@, (176u8, 196u8, 222u8)),
        ("lightyellow"@, (255u8, 255u8, 224u8)),
        ("lime"@, (0u8, 255u8, 0u8)),
        ("limegreen"@, (50u8, 205u8, 50u8)),
        ("linen"@, (250u8, 240u8, 230u8)),
        ("magenta"@, (255u8, 0u8, 255u8)),
        ("maroon"@, (128u8, 0u8, 0u8)),
        ("mediumaquamarine"@, (102u8, 205u8, 170u8)),
        ("mediumblue"@, (0u8, 0u8, 205u8)),
        ("mediumorchid"@, (186u8, 85u8, 211u8)),
        ("mediumpurple"@, (147u8, 112u8, 219u8)),
        ("mediumseagreen"@, (60u8, 179u8, 113u8)),
        ("mediumslateblue"@, (123u8, 104u8, 238u8)),
        ("mediumspringgreen"@, (0u8, 250u8, 154u8)),
        ("mediumturquoise"@, (72u8, 209u8, 204u8)),
        ("mediumvioletred"@, (199u8, 21u8, 133u8)),
        ("midnightblue"@, (25u8, 25u8, 112u8)),
        ("mintcream"@, (245u8, 255u8, 250u8)),
        ("mistyrose"@, (255u8, 228u8, 225u8)),
        ("moccasin"@, (255u8, 228u8, 181u8)),
        ("navajowhite"@, (255u8, 222u8, 173u8)),
        ("navy"@, (0u8, 0u8, 128u8)),
        ("oldlace"@, (253u8, 245u8, 230u8)),
        ("olive"@, (128u8, 128u8, 0u8)),
        ("olivedrab"@, (107u8, 142u8, 35u8)),
        ("orange"@, (255u8, 165u8, 0u8)),
        ("orangered"@, (255u8, 69u8, 0u8)),
        ("orchid"@, (218u8, 112u8, 214u8)),
        ("palegoldenrod"@, (238u8, 232u8, 170u8)),
        ("palegreen"@, (152u8, 251u8, 152u8)),
        ("paleturquoise"@, (175u8, 238u8, 238u8)),
        ("palevioletred"@, (219u8, 112u8, 147u8)),
        ("papayawhip"@, (255u8, 239u8, 213u8)),
        ("peachpuff"@, (255u8, 218u8, 185u8)),
        ("peru"@, (205u8, 133u8, 63u8)),
        ("pink"@, (255u8, 192u8, 203u8)),
        ("plum"@, (221u8, 160u8, 221u8)),
        ("powderblue"@, (176u8, 224u8, 230u8)),
        ("purple"@, (128u8, 0u8, 128u8)),
        ("rebeccapurple"@, (102u8, 51u8, 153u8)),
        ("red"@, (255u8, 0u8, 0u8)),
        ("rosybrown"@, (188u8, 143u8, 143u8)),
        ("royalblue"@, (65u8, 105u8, 225u8)),
        ("saddlebrown"@, (139u8, 69u8, 19u8)),
        ("salmon"@, (250u8, 128u8, 114u8)),
        ("sandybrown"@, (244u8, 164u8, 96u8)),
        ("seagreen"@, (46u8, 139u8, 87u8)),
        ("seashell"@, (255u8, 245u8, 238u8)),
        ("sienna"@, (160u8, 82u8, 45u8)),
        ("silver"@, (192u8, 192u8, 192u8)),
        ("skyblue"@, (135u8, 206u8, 235u8)),
        ("slateblue"@, (106u8, 90u8, 205u8)),
        ("slategray"@, (112u8, 128u8, 144u8)),
        ("slategrey"@, (112u8, 128u8, 144u8)),
        ("snow"@, (255u8, 250u8, 250u8)),
        ("springgreen"@, (0u8, 255u8, 127u8)),
        ("steelblue"@, (70u8, 130u8, 180u8)),
        ("tan"@, (210u8, 180u8, 140u8)),
        ("teal"@, (0u8, 128u8, 128u8)),
        ("thistle"@, (216u8, 191u8, 216u8)),
        ("tomato"@, (255u8, 99u8, 71u8)),
        ("turquoise"@, (64u8, 224u8, 208u8)),
        ("violet"@, (238u8, 130u8, 238u8)),
        ("wheat"@, (245u8, 222u8, 179u8)),
        ("white"@, (255u8, 255u8, 255u8)),
        ("whitesmoke"@, (245u8, 245u8, 245u8)),
        ("yellow"@, (255u8, 255u8, 0u8)),
        ("yellowgreen"@, (154u8, 205u8, 50u8))
    ]
}

/// The CSS color table used at run time.
pub fn css_name_table() -> (t: Vec<(&'static str, (u8, u8, u8))>)
    ensures
        keyed_view(t@) == css_names(),
{
    let t = vec![
        ("aliceblue", (240u8, 248u8, 255u8)),
        ("antiquewhite", (250u8, 235u8, 215u8)),
        ("aqua", (0u8, 255u8, 255u8)),
        ("aquamarine", (127u8, 255u8, 212u8)),
        ("azure", (240u8, 255u8, 255u8)),
        ("beige", (245u8, 245u8, 220u8)),
        ("bisque", (255u8, 228u8, 196u8)),
        ("black", (0u8, 0u8, 0u8)),
        ("blanchedalmond", (255u8, 235u8, 205u8)),
        ("blue", (0u8, 0u8, 255u8)),
        ("blueviolet", (138u8, 43u8, 226u8)),
        ("brown", (165u8, 42u8, 42u8)),
        ("burlywood", (222u8, 184u8, 135u8)),
        ("cadetblue", (95u8, 158u8, 160u8)),
        ("chartreuse", (127u8, 255u8, 0u8)),
        ("chocolate", (210u8, 105u8, 30u8)),
        ("coral", (255u8, 127u8, 80u8)),
        ("cornflowerblue", (100u8, 149u8, 237u8)),
        ("cornsilk", (255u8, 248u8, 220u8)),
        ("crimson", (220u8, 20u8, 60u8)),
        ("cyan", (0u8, 255u8, 255u8)),
        ("darkblue", (0u8, 0u8, 139u8)),
        ("darkcyan", (0u8, 139u8, 139u8)),
        ("darkgoldenrod", (184u8, 134u8, 11u8)),
        ("darkgray", (169u8, 169u8, 169u8)),
        ("darkgreen", (0u8, 100u8, 0u8)),
        ("darkgrey", (169u8, 169u8, 169u8)),
        ("darkkhaki", (189u8, 183u8, 107u8)),
        ("darkmagenta", (139u8, 0u8, 139u8)),
        ("darkolivegreen", (85u8, 107u8, 47u8)),
        ("darkorange", (255u8, 140u8, 0u8)),
        ("darkorchid", (153u8, 50u8, 204u8)),
        ("darkred", (139u8, 0u8, 0u8)),
        ("darksalmon", (233u8, 150u8, 122u8)),
        ("darkseagreen", (143u8, 188u8, 143u8)),
        ("darkslateblue", (72u8, 61u8, 139u8)),
        ("darkslategray", (47u8, 79u8, 79u8)),
        ("darkslategrey", (47u8, 79u8, 79u8)),
        ("darkturquoise", (0u8, 206u8, 209u8)),
        ("darkviolet", (148u8, 0u8, 211u8)),
        ("deeppink", (255u8, 20u8, 147u8)),
        ("deepskyblue", (0u8, 191u8, 255u8)),
        ("dimgray", (105u8, 105u8, 105u8)),
        ("dimgrey", (105u8, 105u8, 105u8)),
        ("dodgerblue", (30u8, 144u8, 255u8)),
        ("firebrick", (178u8, 34u8, 34u8)),
        ("floralwhite", (255u8, 250u8, 240u8)),
        ("forestgreen", (34u8, 139u8, 34u8)),
        ("fuchsia", (255u8, 0u8, 255u8)),
        ("gainsboro", (220u8, 220u8, 220u8)),
        ("ghostwhite", (248u8, 248u8, 255u8)),
        ("gold", (255u8, 215u8, 0u8)),
        ("goldenrod", (218u8, 165u8, 32u8)),
        ("gray", (128u8, 128u8, 128u8)),
        ("green", (0u8, 128u8, 0u8)),
        ("greenyellow", (173u8, 255u8, 47u8)),
        ("grey", (128u8, 128u8, 128u8)),
        ("honeydew", (240u8, 255u8, 240u8)),
        ("hotpink", (255u8, 105u8, 180u8)),
        ("indianred", (205u8, 92u8, 92u8)),
        ("indigo", (75u8, 0u8, 130u8)),
        ("ivory", (255u8, 255u8, 240u8)),
        ("khaki", (240u8, 230u8, 140u8)),
        ("lavender", (230u8, 230u8, 250u8)),
        ("lavenderblush", (255u8, 240u8, 245u8)),
        ("lawngreen", (124u8, 252u8, 0u8)),
        ("lemonchiffon", (255u8, 250u8, 205u8)),
        ("lightblue", (173u8, 216u8, 230u8)),
        ("lightcoral", (240u8, 128u8, 128u8)),
        ("lightcyan", (224u8, 255u8, 255u8)),
        ("lightgoldenrodyellow", (250u8, 250u8, 210u8)),
        ("lightgray", (211u8, 211u8, 211u8)),
        ("lightgreen", (144u8, 238u8, 144u8)),
        ("lightgrey", (211u8, 211u8, 211u8)),
        ("lightpink", (255u8, 182u8, 193u8)),
        ("lightsalmon", (255u8, 160u8, 122u8)),
        ("lightseagreen", (32u8, 178u8, 170u8)),
        ("lightskyblue", (135u8, 206u8, 250u8)),
        ("lightslategray", (119u8, 136u8, 153u8)),
        ("lightslategrey", (119u8, 136u8, 153u8)),
        ("lightsteelblue", (176u8, 196u8, 222u8)),
        ("lightyellow", (255u8, 255u8, 224u8)),
        ("lime", (0u8, 255u8, 0u8)),
        ("limegreen", (50u8, 205u8, 50u8)),
        ("linen", (250u8, 240u8, 230u8)),
        ("magenta", (255u8, 0u8, 255u8)),
        ("maroon", (128u8, 0u8, 0u8)),
        ("mediumaquamarine", (102u8, 205u8, 170u8)),
        ("mediumblue", (0u8, 0u8, 205u8)),
        ("mediumorchid", (186u8, 85u8, 211u8)),
        ("mediumpurple", (147u8, 112u8, 219u8)),
        ("mediumseagreen", (60u8, 179u8, 113u8)),
        ("mediumslateblue", (123u8, 104u8, 238u8)),
        ("mediumspringgreen", (0u8, 250u8, 154u8)),
        ("mediumturquoise", (72u8, 209u8, 204u8)),
        ("mediumvioletred", (199u8, 21u8, 133u8)),
        ("midnightblue", (25u8, 25u8, 112u8)),
        ("mintcream", (245u8, 255u8, 250u8)),
        ("mistyrose", (255u8, 228u8, 225u8)),
        ("moccasin", (255u8, 228u8, 181u8)),
        ("navajowhite", (255u8, 222u8, 173u8)),
        ("navy", (0u8, 0u8, 128u8)),
        ("oldlace", (253u8, 245u8, 230u8)),
        ("olive", (128u8, 128u8, 0u8)),
        ("olivedrab", (107u8, 142u8, 35u8)),
        ("orange", (255u8, 165u8, 0u8)),
        ("orangered", (255u8, 69u8, 0u8)),
        ("orchid", (218u8, 112u8, 214u8)),
        ("palegoldenrod", (238u8, 232u8, 170u8)),
        ("palegreen", (152u8, 251u8, 152u8)),
        ("paleturquoise", (175u8, 238u8, 238u8)),
        ("palevioletred", (219u8, 112u8, 147u8)),
        ("papayawhip", (255u8, 239u8, 213u8)),
        ("peachpuff", (255u8, 218u8, 185u8)),
        ("peru", (205u8, 133u8, 63u8)),
        ("pink", (255u8, 192u8, 203u8)),
        ("plum", (221u8, 160u8, 221u8)),
        ("powderblue", (176u8, 224u8, 230u8)),
        ("purple", (128u8, 0u8, 128u8)),
        ("rebeccapurple", (102u8, 51u8, 153u8)),
        ("red", (255u8, 0u8, 0u8)),
        ("rosybrown", (188u8, 143u8, 143u8)),
        ("royalblue", (65u8, 105u8, 225u8)),
        ("saddlebrown", (139u8, 69u8, 19u8)),
        ("salmon", (250u8, 128u8, 114u8)),
        ("sandybrown", (244u8, 164u8, 96u8)),
        ("seagreen", (46u8, 139u8, 87u8)),
        ("seashell", (255u8, 245u8, 238u8)),
        ("sienna", (160u8, 82u8, 45u8)),
        ("silver", (192u8, 192u8, 192u8)),
        ("skyblue", (135u8, 206u8, 235u8)),
        ("slateblue", (106u8, 90u8, 205u8)),
        ("slategray", (112u8, 128u8, 144u8)),
        ("slategrey", (112u8, 128u8, 144u8)),
        ("snow", (255u8, 250u8, 250u8)),
        ("springgreen", (0u8, 255u8, 127u8)),
        ("steelblue", (70u8, 130u8, 180u8)),
        ("tan", (210u8, 180u8, 140u8)),
        ("teal", (0u8, 128u8, 128u8)),
        ("thistle", (216u8, 191u8, 216u8)),
        ("tomato", (255u8, 99u8, 71u8)),
        ("turquoise", (64u8, 224u8, 208u8)),
        ("violet", (238u8, 130u8, 238u8)),
        ("wheat", (245u8, 222u8, 179u8)),
        ("white", (255u8, 255u8, 255u8)),
        ("whitesmoke", (245u8, 245u8, 245u8)),
        ("yellow", (255u8, 255u8, 0u8)),
        ("yellowgreen", (154u8, 205u8, 50u8))
    ];
    assert(keyed_view(t@) =~= css_names());
    t
}

} // verus!
