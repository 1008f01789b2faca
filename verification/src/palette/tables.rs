//! The hex tables of the Everforest palettes, as the upstream theme writes
//! them (`palette.md` of sainnhe/everforest), each with the sRGB triples it
//! denotes.

use vstd::prelude::*;
use vstd::string::is_ascii;
use vstd::string::StringSliceAdditionalSpecFns;
use crate::color::spec_parse_hex;

verus! {

broadcast use vstd::string::group_string_axioms;

/// Every string of `hexes` is a hex color denoting the triple at the same
/// place in `rgbs`.
pub open spec fn hexes_denote(hexes: Seq<&str>, rgbs: Seq<(u8, u8, u8)>) -> bool {
    &&& hexes.len() == rgbs.len()
    &&& forall|i: int|
        0 <= i < hexes.len() ==> spec_parse_hex(#[trigger] hexes[i].spec_bytes()) == Some(rgbs[i])
}

/// Foreground colors shared by all three dark variants: fg, red, orange,
/// yellow, green, aqua, blue, purple, grey0, grey1, grey2.
pub const DARK_FG: [&'static str; 11] = [
    "#D3C6AA",
    "#E67E80",
    "#E69875",
    "#DBBC7F",
    "#A7C080",
    "#83C092",
    "#7FBBB3",
    "#D699B6",
    "#7A8478",
    "#859289",
    "#9DA9A0",
];

/// The sRGB triples that [`DARK_FG`] writes in hex.
pub open spec fn dark_fg_rgb() -> Seq<(u8, u8, u8)> {
    seq![
        (0xd3, 0xc6, 0xaa),
        (0xe6, 0x7e, 0x80),
        (0xe6, 0x98, 0x75),
        (0xdb, 0xbc, 0x7f),
        (0xa7, 0xc0, 0x80),
        (0x83, 0xc0, 0x92),
        (0x7f, 0xbb, 0xb3),
        (0xd6, 0x99, 0xb6),
        (0x7a, 0x84, 0x78),
        (0x85, 0x92, 0x89),
        (0x9d, 0xa9, 0xa0),
    ]
}

/// Every entry of [`DARK_FG`] is a valid hex color denoting its triple.
pub proof fn lemma_dark_fg_denotes()
    ensures
        hexes_denote(DARK_FG@, dark_fg_rgb()),
{
    reveal_strlit("#D3C6AA");
    assert(is_ascii(DARK_FG@[0]));
    reveal_strlit("#E67E80");
    assert(is_ascii(DARK_FG@[1]));
    reveal_strlit("#E69875");
    assert(is_ascii(DARK_FG@[2]));
    reveal_strlit("#DBBC7F");
    assert(is_ascii(DARK_FG@[3]));
    reveal_strlit("#A7C080");
    assert(is_ascii(DARK_FG@[4]));
    reveal_strlit("#83C092");
    assert(is_ascii(DARK_FG@[5]));
    reveal_strlit("#7FBBB3");
    assert(is_ascii(DARK_FG@[6]));
    reveal_strlit("#D699B6");
    assert(is_ascii(DARK_FG@[7]));
    reveal_strlit("#7A8478");
    assert(is_ascii(DARK_FG@[8]));
    reveal_strlit("#859289");
    assert(is_ascii(DARK_FG@[9]));
    reveal_strlit("#9DA9A0");
    assert(is_ascii(DARK_FG@[10]));
}

/// Neutral background ramp of dark-hard: bg_dim, bg0, bg1, bg2, bg3, bg4, bg5.
pub const DARK_HARD_BG: [&'static str; 7] = [
    "#1E2326",
    "#272E33",
    "#2E383C",
    "#374145",
    "#414B50",
    "#495156",
    "#4F5B58",
];

/// The sRGB triples that [`DARK_HARD_BG`] writes in hex.
pub open spec fn dark_hard_bg_rgb() -> Seq<(u8, u8, u8)> {
    seq![
        (0x1e, 0x23, 0x26),
        (0x27, 0x2e, 0x33),
        (0x2e, 0x38, 0x3c),
        (0x37, 0x41, 0x45),
        (0x41, 0x4b, 0x50),
        (0x49, 0x51, 0x56),
        (0x4f, 0x5b, 0x58),
    ]
}

/// Every entry of [`DARK_HARD_BG`] is a valid hex color denoting its triple.
pub proof fn lemma_dark_hard_bg_denotes()
    ensures
        hexes_denote(DARK_HARD_BG@, dark_hard_bg_rgb()),
{
    reveal_strlit("#1E2326");
    assert(is_ascii(DARK_HARD_BG@[0]));
    reveal_strlit("#272E33");
    assert(is_ascii(DARK_HARD_BG@[1]));
    reveal_strlit("#2E383C");
    assert(is_ascii(DARK_HARD_BG@[2]));
    reveal_strlit("#374145");
    assert(is_ascii(DARK_HARD_BG@[3]));
    reveal_strlit("#414B50");
    assert(is_ascii(DARK_HARD_BG@[4]));
    reveal_strlit("#495156");
    assert(is_ascii(DARK_HARD_BG@[5]));
    reveal_strlit("#4F5B58");
    assert(is_ascii(DARK_HARD_BG@[6]));
}

/// Neutral background ramp of dark-medium: bg_dim, bg0, bg1, bg2, bg3, bg4, bg5.
pub const DARK_MEDIUM_BG: [&'static str; 7] = [
    "#232A2E",
    "#2D353B",
    "#343F44",
    "#3D484D",
    "#475258",
    "#4F585E",
    "#56635F",
];

/// The sRGB triples that [`DARK_MEDIUM_BG`] writes in hex.
pub open spec fn dark_medium_bg_rgb() -> Seq<(u8, u8, u8)> {
    seq![
        (0x23, 0x2a, 0x2e),
        (0x2d, 0x35, 0x3b),
        (0x34, 0x3f, 0x44),
        (0x3d, 0x48, 0x4d),
        (0x47, 0x52, 0x58),
        (0x4f, 0x58, 0x5e),
        (0x56, 0x63, 0x5f),
    ]
}

/// Every entry of [`DARK_MEDIUM_BG`] is a valid hex color denoting its triple.
pub proof fn lemma_dark_medium_bg_denotes()
    ensures
        hexes_denote(DARK_MEDIUM_BG@, dark_medium_bg_rgb()),
{
    reveal_strlit("#232A2E");
    assert(is_ascii(DARK_MEDIUM_BG@[0]));
    reveal_strlit("#2D353B");
    assert(is_ascii(DARK_MEDIUM_BG@[1]));
    reveal_strlit("#343F44");
    assert(is_ascii(DARK_MEDIUM_BG@[2]));
    reveal_strlit("#3D484D");
    assert(is_ascii(DARK_MEDIUM_BG@[3]));
    reveal_strlit("#475258");
    assert(is_ascii(DARK_MEDIUM_BG@[4]));
    reveal_strlit("#4F585E");
    assert(is_ascii(DARK_MEDIUM_BG@[5]));
    reveal_strlit("#56635F");
    assert(is_ascii(DARK_MEDIUM_BG@[6]));
}

/// Neutral background ramp of dark-soft: bg_dim, bg0, bg1, bg2, bg3, bg4, bg5.
pub const DARK_SOFT_BG: [&'static str; 7] = [
    "#293136",
    "#333C43",
    "#3A464C",
    "#434F55",
    "#4D5960",
    "#555F66",
    "#5D6B66",
];

/// The sRGB triples that [`DARK_SOFT_BG`] writes in hex.
pub open spec fn dark_soft_bg_rgb() -> Seq<(u8, u8, u8)> {
    seq![
        (0x29, 0x31, 0x36),
        (0x33, 0x3c, 0x43),
        (0x3a, 0x46, 0x4c),
        (0x43, 0x4f, 0x55),
        (0x4d, 0x59, 0x60),
        (0x55, 0x5f, 0x66),
        (0x5d, 0x6b, 0x66),
    ]
}

/// Every entry of [`DARK_SOFT_BG`] is a valid hex color denoting its triple.
pub proof fn lemma_dark_soft_bg_denotes()
    ensures
        hexes_denote(DARK_SOFT_BG@, dark_soft_bg_rgb()),
{
    reveal_strlit("#293136");
    assert(is_ascii(DARK_SOFT_BG@[0]));
    reveal_strlit("#333C43");
    assert(is_ascii(DARK_SOFT_BG@[1]));
    reveal_strlit("#3A464C");
    assert(is_ascii(DARK_SOFT_BG@[2]));
    reveal_strlit("#434F55");
    assert(is_ascii(DARK_SOFT_BG@[3]));
    reveal_strlit("#4D5960");
    assert(is_ascii(DARK_SOFT_BG@[4]));
    reveal_strlit("#555F66");
    assert(is_ascii(DARK_SOFT_BG@[5]));
    reveal_strlit("#5D6B66");
    assert(is_ascii(DARK_SOFT_BG@[6]));
}

/// Muted accent-tinted backgrounds of dark-hard: bg_visual, bg_red, bg_yellow,
/// bg_green, bg_blue, bg_purple.
pub const DARK_HARD_TINT: [&'static str; 6] = [
    "#4C3743",
    "#493B40",
    "#45443C",
    "#3C4841",
    "#384B55",
    "#463F48",
];

/// The sRGB triples that [`DARK_HARD_TINT`] writes in hex.
pub open spec fn dark_hard_tint_rgb() -> Seq<(u8, u8, u8)> {
    seq![
        (0x4c, 0x37, 0x43),
        (0x49, 0x3b, 0x40),
        (0x45, 0x44, 0x3c),
        (0x3c, 0x48, 0x41),
        (0x38, 0x4b, 0x55),
        (0x46, 0x3f, 0x48),
    ]
}

/// Every entry of [`DARK_HARD_TINT`] is a valid hex color denoting its triple.
pub proof fn lemma_dark_hard_tint_denotes()
    ensures
        hexes_denote(DARK_HARD_TINT@, dark_hard_tint_rgb()),
{
    reveal_strlit("#4C3743");
    assert(is_ascii(DARK_HARD_TINT@[0]));
    reveal_strlit("#493B40");
    assert(is_ascii(DARK_HARD_TINT@[1]));
    reveal_strlit("#45443C");
    assert(is_ascii(DARK_HARD_TINT@[2]));
    reveal_strlit("#3C4841");
    assert(is_ascii(DARK_HARD_TINT@[3]));
    reveal_strlit("#384B55");
    assert(is_ascii(DARK_HARD_TINT@[4]));
    reveal_strlit("#463F48");
    assert(is_ascii(DARK_HARD_TINT@[5]));
}

/// Muted accent-tinted backgrounds of dark-medium: bg_visual, bg_red, bg_yellow,
/// bg_green, bg_blue, bg_purple.
pub const DARK_MEDIUM_TINT: [&'static str; 6] = [
    "#543A48",
    "#514045",
    "#4D4C43",
    "#425047",
    "#3A515D",
    "#4A444E",
];

/// The sRGB triples that [`DARK_MEDIUM_TINT`] writes in hex.
pub open spec fn dark_medium_tint_rgb() -> Seq<(u8, u8, u8)> {
    seq![
        (0x54, 0x3a, 0x48),
        (0x51, 0x40, 0x45),
        (0x4d, 0x4c, 0x43),
        (0x42, 0x50, 0x47),
        (0x3a, 0x51, 0x5d),
        (0x4a, 0x44, 0x4e),
    ]
}

/// Every entry of [`DARK_MEDIUM_TINT`] is a valid hex color denoting its triple.
pub proof fn lemma_dark_medium_tint_denotes()
    ensures
        hexes_denote(DARK_MEDIUM_TINT@, dark_medium_tint_rgb()),
{
    reveal_strlit("#543A48");
    assert(is_ascii(DARK_MEDIUM_TINT@[0]));
    reveal_strlit("#514045");
    assert(is_ascii(DARK_MEDIUM_TINT@[1]));
    reveal_strlit("#4D4C43");
    assert(is_ascii(DARK_MEDIUM_TINT@[2]));
    reveal_strlit("#425047");
    assert(is_ascii(DARK_MEDIUM_TINT@[3]));
    reveal_strlit("#3A515D");
    assert(is_ascii(DARK_MEDIUM_TINT@[4]));
    reveal_strlit("#4A444E");
    assert(is_ascii(DARK_MEDIUM_TINT@[5]));
}

/// Muted accent-tinted backgrounds of dark-soft: bg_visual, bg_red, bg_yellow,
/// bg_green, bg_blue, bg_purple.
pub const DARK_SOFT_TINT: [&'static str; 6] = [
    "#5C3F4F",
    "#59464C",
    "#55544A",
    "#48584E",
    "#3F5865",
    "#4E4953",
];

/// The sRGB triples that [`DARK_SOFT_TINT`] writes in hex.
pub open spec fn dark_soft_tint_rgb() -> Seq<(u8, u8, u8)> {
    seq![
        (0x5c, 0x3f, 0x4f),
        (0x59, 0x46, 0x4c),
        (0x55, 0x54, 0x4a),
        (0x48, 0x58, 0x4e),
        (0x3f, 0x58, 0x65),
        (0x4e, 0x49, 0x53),
    ]
}

/// Every entry of [`DARK_SOFT_TINT`] is a valid hex color denoting its triple.
pub proof fn lemma_dark_soft_tint_denotes()
    ensures
        hexes_denote(DARK_SOFT_TINT@, dark_soft_tint_rgb()),
{
    reveal_strlit("#5C3F4F");
    assert(is_ascii(DARK_SOFT_TINT@[0]));
    reveal_strlit("#59464C");
    assert(is_ascii(DARK_SOFT_TINT@[1]));
    reveal_strlit("#55544A");
    assert(is_ascii(DARK_SOFT_TINT@[2]));
    reveal_strlit("#48584E");
    assert(is_ascii(DARK_SOFT_TINT@[3]));
    reveal_strlit("#3F5865");
    assert(is_ascii(DARK_SOFT_TINT@[4]));
    reveal_strlit("#4E4953");
    assert(is_ascii(DARK_SOFT_TINT@[5]));
}

/// Foreground colors shared by all three light variants: fg, red, orange,
/// yellow, green, aqua, blue, purple, grey0, grey1, grey2.
pub const LIGHT_FG: [&'static str; 11] = [
    "#5C6A72",
    "#F85552",
    "#F57D26",
    "#DFA000",
    "#8DA101",
    "#35A77C",
    "#3A94C5",
    "#DF69BA",
    "#A6B0A0",
    "#939F91",
    "#829181",
];

/// The sRGB triples that [`LIGHT_FG`] writes in hex.
pub open spec fn light_fg_rgb() -> Seq<(u8, u8, u8)> {
    seq![
        (0x5c, 0x6a, 0x72),
        (0xf8, 0x55, 0x52),
        (0xf5, 0x7d, 0x26),
        (0xdf, 0xa0, 0x00),
        (0x8d, 0xa1, 0x01),
        (0x35, 0xa7, 0x7c),
        (0x3a, 0x94, 0xc5),
        (0xdf, 0x69, 0xba),
        (0xa6, 0xb0, 0xa0),
        (0x93, 0x9f, 0x91),
        (0x82, 0x91, 0x81),
    ]
}

/// Every entry of [`LIGHT_FG`] is a valid hex color denoting its triple.
pub proof fn lemma_light_fg_denotes()
    ensures
        hexes_denote(LIGHT_FG@, light_fg_rgb()),
{
    reveal_strlit("#5C6A72");
    assert(is_ascii(LIGHT_FG@[0]));
    reveal_strlit("#F85552");
    assert(is_ascii(LIGHT_FG@[1]));
    reveal_strlit("#F57D26");
    assert(is_ascii(LIGHT_FG@[2]));
    reveal_strlit("#DFA000");
    assert(is_ascii(LIGHT_FG@[3]));
    reveal_strlit("#8DA101");
    assert(is_ascii(LIGHT_FG@[4]));
    reveal_strlit("#35A77C");
    assert(is_ascii(LIGHT_FG@[5]));
    reveal_strlit("#3A94C5");
    assert(is_ascii(LIGHT_FG@[6]));
    reveal_strlit("#DF69BA");
    assert(is_ascii(LIGHT_FG@[7]));
    reveal_strlit("#A6B0A0");
    assert(is_ascii(LIGHT_FG@[8]));
    reveal_strlit("#939F91");
    assert(is_ascii(LIGHT_FG@[9]));
    reveal_strlit("#829181");
    assert(is_ascii(LIGHT_FG@[10]));
}

/// Neutral background ramp of light-hard: bg_dim, bg0, bg1, bg2, bg3, bg4/bg5.
pub const LIGHT_HARD_BG: [&'static str; 6] = [
    "#F2EFDF",
    "#FFFBEF",
    "#F8F5E4",
    "#EDEADA",
    "#E8E5D5",
    "#BEC5B2",
];

/// The sRGB triples that [`LIGHT_HARD_BG`] writes in hex.
pub open spec fn light_hard_bg_rgb() -> Seq<(u8, u8, u8)> {
    seq![
        (0xf2, 0xef, 0xdf),
        (0xff, 0xfb, 0xef),
        (0xf8, 0xf5, 0xe4),
        (0xed, 0xea, 0xda),
        (0xe8, 0xe5, 0xd5),
        (0xbe, 0xc5, 0xb2),
    ]
}

/// Every entry of [`LIGHT_HARD_BG`] is a valid hex color denoting its triple.
pub proof fn lemma_light_hard_bg_denotes()
    ensures
        hexes_denote(LIGHT_HARD_BG@, light_hard_bg_rgb()),
{
    reveal_strlit("#F2EFDF");
    assert(is_ascii(LIGHT_HARD_BG@[0]));
    reveal_strlit("#FFFBEF");
    assert(is_ascii(LIGHT_HARD_BG@[1]));
    reveal_strlit("#F8F5E4");
    assert(is_ascii(LIGHT_HARD_BG@[2]));
    reveal_strlit("#EDEADA");
    assert(is_ascii(LIGHT_HARD_BG@[3]));
    reveal_strlit("#E8E5D5");
    assert(is_ascii(LIGHT_HARD_BG@[4]));
    reveal_strlit("#BEC5B2");
    assert(is_ascii(LIGHT_HARD_BG@[5]));
}

/// Neutral background ramp of light-medium: bg_dim, bg0, bg1, bg2, bg3, bg4/bg5.
pub const LIGHT_MEDIUM_BG: [&'static str; 6] = [
    "#EFEBD4",
    "#FDF6E3",
    "#F4F0D9",
    "#E6E2CC",
    "#E0DCC7",
    "#BDC3AF",
];

/// The sRGB triples that [`LIGHT_MEDIUM_BG`] writes in hex.
pub open spec fn light_medium_bg_rgb() -> Seq<(u8, u8, u8)> {
    seq![
        (0xef, 0xeb, 0xd4),
        (0xfd, 0xf6, 0xe3),
        (0xf4, 0xf0, 0xd9),
        (0xe6, 0xe2, 0xcc),
        (0xe0, 0xdc, 0xc7),
        (0xbd, 0xc3, 0xaf),
    ]
}

/// Every entry of [`LIGHT_MEDIUM_BG`] is a valid hex color denoting its triple.
pub proof fn lemma_light_medium_bg_denotes()
    ensures
        hexes_denote(LIGHT_MEDIUM_BG@, light_medium_bg_rgb()),
{
    reveal_strlit("#EFEBD4");
    assert(is_ascii(LIGHT_MEDIUM_BG@[0]));
    reveal_strlit("#FDF6E3");
    assert(is_ascii(LIGHT_MEDIUM_BG@[1]));
    reveal_strlit("#F4F0D9");
    assert(is_ascii(LIGHT_MEDIUM_BG@[2]));
    reveal_strlit("#E6E2CC");
    assert(is_ascii(LIGHT_MEDIUM_BG@[3]));
    reveal_strlit("#E0DCC7");
    assert(is_ascii(LIGHT_MEDIUM_BG@[4]));
    reveal_strlit("#BDC3AF");
    assert(is_ascii(LIGHT_MEDIUM_BG@[5]));
}

/// Neutral background ramp of light-soft: bg_dim, bg0, bg1, bg2, bg3, bg4/bg5.
pub const LIGHT_SOFT_BG: [&'static str; 6] = [
    "#E5DFC5",
    "#F3EAD3",
    "#EAE4CA",
    "#DDD8BE",
    "#D8D3BA",
    "#B9C0AB",
];

/// The sRGB triples that [`LIGHT_SOFT_BG`] writes in hex.
pub open spec fn light_soft_bg_rgb() -> Seq<(u8, u8, u8)> {
    seq![
        (0xe5, 0xdf, 0xc5),
        (0xf3, 0xea, 0xd3),
        (0xea, 0xe4, 0xca),
        (0xdd, 0xd8, 0xbe),
        (0xd8, 0xd3, 0xba),
        (0xb9, 0xc0, 0xab),
    ]
}

/// Every entry of [`LIGHT_SOFT_BG`] is a valid hex color denoting its triple.
pub proof fn lemma_light_soft_bg_denotes()
    ensures
        hexes_denote(LIGHT_SOFT_BG@, light_soft_bg_rgb()),
{
    reveal_strlit("#E5DFC5");
    assert(is_ascii(LIGHT_SOFT_BG@[0]));
    reveal_strlit("#F3EAD3");
    assert(is_ascii(LIGHT_SOFT_BG@[1]));
    reveal_strlit("#EAE4CA");
    assert(is_ascii(LIGHT_SOFT_BG@[2]));
    reveal_strlit("#DDD8BE");
    assert(is_ascii(LIGHT_SOFT_BG@[3]));
    reveal_strlit("#D8D3BA");
    assert(is_ascii(LIGHT_SOFT_BG@[4]));
    reveal_strlit("#B9C0AB");
    assert(is_ascii(LIGHT_SOFT_BG@[5]));
}

/// Muted accent-tinted backgrounds of light-hard: bg_visual, bg_red, bg_yellow,
/// bg_green, bg_blue, bg_purple.
pub const LIGHT_HARD_TINT: [&'static str; 6] = [
    "#F0F2D4",
    "#FFE7DE",
    "#FEF2D5",
    "#F3F5D9",
    "#ECF5ED",
    "#FCECED",
];

/// The sRGB triples that [`LIGHT_HARD_TINT`] writes in hex.
pub open spec fn light_hard_tint_rgb() -> Seq<(u8, u8, u8)> {
    seq![
        (0xf0, 0xf2, 0xd4),
        (0xff, 0xe7, 0xde),
        (0xfe, 0xf2, 0xd5),
        (0xf3, 0xf5, 0xd9),
        (0xec, 0xf5, 0xed),
        (0xfc, 0xec, 0xed),
    ]
}

/// Every entry of [`LIGHT_HARD_TINT`] is a valid hex color denoting its triple.
pub proof fn lemma_light_hard_tint_denotes()
    ensures
        hexes_denote(LIGHT_HARD_TINT@, light_hard_tint_rgb()),
{
    reveal_strlit("#F0F2D4");
    assert(is_ascii(LIGHT_HARD_TINT@[0]));
    reveal_strlit("#FFE7DE");
    assert(is_ascii(LIGHT_HARD_TINT@[1]));
    reveal_strlit("#FEF2D5");
    assert(is_ascii(LIGHT_HARD_TINT@[2]));
    reveal_strlit("#F3F5D9");
    assert(is_ascii(LIGHT_HARD_TINT@[3]));
    reveal_strlit("#ECF5ED");
    assert(is_ascii(LIGHT_HARD_TINT@[4]));
    reveal_strlit("#FCECED");
    assert(is_ascii(LIGHT_HARD_TINT@[5]));
}

/// Muted accent-tinted backgrounds of light-medium: bg_visual, bg_red, bg_yellow,
/// bg_green, bg_blue, bg_purple.
pub const LIGHT_MEDIUM_TINT: [&'static str; 6] = [
    "#EAEDC8",
    "#FDE3DA",
    "#FAEDCD",
    "#F0F1D2",
    "#E9F0E9",
    "#FAE8E2",
];

/// The sRGB triples that [`LIGHT_MEDIUM_TINT`] writes in hex.
pub open spec fn light_medium_tint_rgb() -> Seq<(u8, u8, u8)> {
    seq![
        (0xea, 0xed, 0xc8),
        (0xfd, 0xe3, 0xda),
        (0xfa, 0xed, 0xcd),
        (0xf0, 0xf1, 0xd2),
        (0xe9, 0xf0, 0xe9),
        (0xfa, 0xe8, 0xe2),
    ]
}

/// Every entry of [`LIGHT_MEDIUM_TINT`] is a valid hex color denoting its triple.
pub proof fn lemma_light_medium_tint_denotes()
    ensures
        hexes_denote(LIGHT_MEDIUM_TINT@, light_medium_tint_rgb()),
{
    reveal_strlit("#EAEDC8");
    assert(is_ascii(LIGHT_MEDIUM_TINT@[0]));
    reveal_strlit("#FDE3DA");
    assert(is_ascii(LIGHT_MEDIUM_TINT@[1]));
    reveal_strlit("#FAEDCD");
    assert(is_ascii(LIGHT_MEDIUM_TINT@[2]));
    reveal_strlit("#F0F1D2");
    assert(is_ascii(LIGHT_MEDIUM_TINT@[3]));
    reveal_strlit("#E9F0E9");
    assert(is_ascii(LIGHT_MEDIUM_TINT@[4]));
    reveal_strlit("#FAE8E2");
    assert(is_ascii(LIGHT_MEDIUM_TINT@[5]));
}

/// Muted accent-tinted backgrounds of light-soft: bg_visual, bg_red, bg_yellow,
/// bg_green, bg_blue, bg_purple.
pub const LIGHT_SOFT_TINT: [&'static str; 6] = [
    "#E1E4BD",
    "#FADBD0",
    "#F1E4C5",
    "#E5E6C5",
    "#E1E7DD",
    "#F1DDD4",
];

/// The sRGB triples that [`LIGHT_SOFT_TINT`] writes in hex.
pub open spec fn light_soft_tint_rgb() -> Seq<(u8, u8, u8)> {
    seq![
        (0xe1, 0xe4, 0xbd),
        (0xfa, 0xdb, 0xd0),
        (0xf1, 0xe4, 0xc5),
        (0xe5, 0xe6, 0xc5),
        (0xe1, 0xe7, 0xdd),
        (0xf1, 0xdd, 0xd4),
    ]
}

/// Every entry of [`LIGHT_SOFT_TINT`] is a valid hex color denoting its triple.
pub proof fn lemma_light_soft_tint_denotes()
    ensures
        hexes_denote(LIGHT_SOFT_TINT@, light_soft_tint_rgb()),
{
    reveal_strlit("#E1E4BD");
    assert(is_ascii(LIGHT_SOFT_TINT@[0]));
    reveal_strlit("#FADBD0");
    assert(is_ascii(LIGHT_SOFT_TINT@[1]));
    reveal_strlit("#F1E4C5");
    assert(is_ascii(LIGHT_SOFT_TINT@[2]));
    reveal_strlit("#E5E6C5");
    assert(is_ascii(LIGHT_SOFT_TINT@[3]));
    reveal_strlit("#E1E7DD");
    assert(is_ascii(LIGHT_SOFT_TINT@[4]));
    reveal_strlit("#F1DDD4");
    assert(is_ascii(LIGHT_SOFT_TINT@[5]));
}

} // verus!
