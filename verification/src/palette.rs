//! The Everforest palettes.
//!
//! Hex values are the official ones from sainnhe/everforest (`palette.md`).
//!
//! Each variant is split into three groups:
//!  - the **neutral** background ramp (bg_dim … bg5) — the theme's actual page
//!    tones, a low-chroma green-grey (dark) / warm cream (light) ladder;
//!  - the shared **foreground** — fg, the seven accents, and three greys;
//!  - the muted **accent-tinted backgrounds** (bg_visual/red/green/blue/yellow)
//!    — these are UI chrome (selection, diff highlights), not page tones.
//!
//! The default recolor palette is neutral + foreground, which keeps a warm or
//! near-neutral image reading as green-grey Everforest instead of getting
//! dragged toward those muted pink/purple chrome tints. The tints are opt-in
//! via `rich` when you want extra colored anchors in the shadows.
//!
//! A palette entry keeps the sRGB triple its hex constant denotes; the
//! perceptual (Oklab) coordinates are computed from it by the program.

pub mod tables;

use vstd::prelude::*;
use crate::color::parse_hex;
use crate::palette::tables::hexes_denote;

verus! {

/// All selectable palette variants.
#[derive(Clone, Copy, Debug, PartialEq, Eq, Structural)]
pub enum Variant {
    DarkHard,
    DarkMedium,
    DarkSoft,
    LightHard,
    LightMedium,
    LightSoft,
}

/// The role a palette color plays when a pixel picks its anchors.
#[derive(Clone, Copy, Debug, PartialEq, Eq, Structural)]
pub enum Group {
    /// A tone of the neutral background ramp; the ramp takes part in a
    /// pixel's blend through its closest member only.
    Ramp,
    /// A foreground color or a muted accent-tinted background.
    Accent,
}

/// One palette entry: the sRGB triple of its hex constant and its group.
#[derive(Clone, Copy, Debug, PartialEq, Eq)]
pub struct PaletteColor {
    pub rgb: [u8; 3],
    pub group: Group,
}

/// A fully resolved palette ready for recoloring.
#[derive(Clone, Debug)]
pub struct Palette {
    pub variant: Variant,
    pub colors: Vec<PaletteColor>,
}

/// The command-line name of a variant.
pub open spec fn spec_variant_name(v: Variant) -> Seq<char> {
    match v {
        Variant::DarkHard => "dark-hard"@,
        Variant::DarkMedium => "dark-medium"@,
        Variant::DarkSoft => "dark-soft"@,
        Variant::LightHard => "light-hard"@,
        Variant::LightMedium => "light-medium"@,
        Variant::LightSoft => "light-soft"@,
    }
}

/// A dark variant (as opposed to a light one).
pub open spec fn is_dark(v: Variant) -> bool {
    v is DarkHard || v is DarkMedium || v is DarkSoft
}

/// The neutral background ramp of a variant.
pub open spec fn ramp_rgb(v: Variant) -> Seq<(u8, u8, u8)> {
    match v {
        Variant::DarkHard => tables::dark_hard_bg_rgb(),
        Variant::DarkMedium => tables::dark_medium_bg_rgb(),
        Variant::DarkSoft => tables::dark_soft_bg_rgb(),
        Variant::LightHard => tables::light_hard_bg_rgb(),
        Variant::LightMedium => tables::light_medium_bg_rgb(),
        Variant::LightSoft => tables::light_soft_bg_rgb(),
    }
}

/// The foreground of a variant: one table for the dark, one for the light.
pub open spec fn foreground_rgb(v: Variant) -> Seq<(u8, u8, u8)> {
    if is_dark(v) {
        tables::dark_fg_rgb()
    } else {
        tables::light_fg_rgb()
    }
}

/// The muted accent-tinted backgrounds of a variant.
pub open spec fn tint_rgb(v: Variant) -> Seq<(u8, u8, u8)> {
    match v {
        Variant::DarkHard => tables::dark_hard_tint_rgb(),
        Variant::DarkMedium => tables::dark_medium_tint_rgb(),
        Variant::DarkSoft => tables::dark_soft_tint_rgb(),
        Variant::LightHard => tables::light_hard_tint_rgb(),
        Variant::LightMedium => tables::light_medium_tint_rgb(),
        Variant::LightSoft => tables::light_soft_tint_rgb(),
    }
}

/// The hex table of a variant's background ramp.
pub open spec fn ramp_hexes(v: Variant) -> Seq<&'static str> {
    match v {
        Variant::DarkHard => tables::DARK_HARD_BG@,
        Variant::DarkMedium => tables::DARK_MEDIUM_BG@,
        Variant::DarkSoft => tables::DARK_SOFT_BG@,
        Variant::LightHard => tables::LIGHT_HARD_BG@,
        Variant::LightMedium => tables::LIGHT_MEDIUM_BG@,
        Variant::LightSoft => tables::LIGHT_SOFT_BG@,
    }
}

/// The hex table of a variant's foreground.
pub open spec fn foreground_hexes(v: Variant) -> Seq<&'static str> {
    if is_dark(v) {
        tables::DARK_FG@
    } else {
        tables::LIGHT_FG@
    }
}

/// The hex table of a variant's accent tints.
pub open spec fn tint_hexes(v: Variant) -> Seq<&'static str> {
    match v {
        Variant::DarkHard => tables::DARK_HARD_TINT@,
        Variant::DarkMedium => tables::DARK_MEDIUM_TINT@,
        Variant::DarkSoft => tables::DARK_SOFT_TINT@,
        Variant::LightHard => tables::LIGHT_HARD_TINT@,
        Variant::LightMedium => tables::LIGHT_MEDIUM_TINT@,
        Variant::LightSoft => tables::LIGHT_SOFT_TINT@,
    }
}

/// The triples of one table, each tagged with a group.
pub open spec fn tagged(rgbs: Seq<(u8, u8, u8)>, group: Group) -> Seq<((u8, u8, u8), Group)> {
    rgbs.map_values(|c: (u8, u8, u8)| (c, group))
}

/// The entries of a variant's palette in order: the ramp, then the
/// foreground, then (when `rich`) the accent tints.
pub open spec fn palette_entries(v: Variant, rich: bool) -> Seq<((u8, u8, u8), Group)> {
    tagged(ramp_rgb(v), Group::Ramp) + tagged(foreground_rgb(v), Group::Accent) + if rich {
        tagged(tint_rgb(v), Group::Accent)
    } else {
        Seq::empty()
    }
}

/// A palette color holds exactly the triple and group of an entry.
pub open spec fn color_is(c: PaletteColor, e: ((u8, u8, u8), Group)) -> bool {
    &&& c.rgb[0] == e.0.0
    &&& c.rgb[1] == e.0.1
    &&& c.rgb[2] == e.0.2
    &&& c.group == e.1
}

/// A sequence of palette colors holds exactly the given entries.
pub open spec fn colors_are(cs: Seq<PaletteColor>, es: Seq<((u8, u8, u8), Group)>) -> bool {
    &&& cs.len() == es.len()
    &&& forall|i: int| 0 <= i < cs.len() ==> color_is(#[trigger] cs[i], es[i])
}

impl Variant {
    pub const ALL: [Variant; 6] = [
        Variant::DarkHard,
        Variant::DarkMedium,
        Variant::DarkSoft,
        Variant::LightHard,
        Variant::LightMedium,
        Variant::LightSoft,
    ];

    /// The variant's command-line name.
    pub fn name(self) -> (name: &'static str)
        ensures
            name@ == spec_variant_name(self),
    {
        match self {
            Variant::DarkHard => "dark-hard",
            Variant::DarkMedium => "dark-medium",
            Variant::DarkSoft => "dark-soft",
            Variant::LightHard => "light-hard",
            Variant::LightMedium => "light-medium",
            Variant::LightSoft => "light-soft",
        }
    }

    /// (neutral background ramp, shared foreground, muted accent tints).
    pub fn hex_groups(self) -> (groups: [&'static [&'static str]; 3])
        ensures
            groups[0]@ == ramp_hexes(self),
            groups[1]@ == foreground_hexes(self),
            groups[2]@ == tint_hexes(self),
            hexes_denote(groups[0]@, ramp_rgb(self)),
            hexes_denote(groups[1]@, foreground_rgb(self)),
            hexes_denote(groups[2]@, tint_rgb(self)),
    {
        proof {
            tables::lemma_dark_fg_denotes();
            tables::lemma_light_fg_denotes();
        }
        match self {
            Variant::DarkHard => {
                proof {
                    tables::lemma_dark_hard_bg_denotes();
                    tables::lemma_dark_hard_tint_denotes();
                }
                [&tables::DARK_HARD_BG, &tables::DARK_FG, &tables::DARK_HARD_TINT]
            },
            Variant::DarkMedium => {
                proof {
                    tables::lemma_dark_medium_bg_denotes();
                    tables::lemma_dark_medium_tint_denotes();
                }
                [&tables::DARK_MEDIUM_BG, &tables::DARK_FG, &tables::DARK_MEDIUM_TINT]
            },
            Variant::DarkSoft => {
                proof {
                    tables::lemma_dark_soft_bg_denotes();
                    tables::lemma_dark_soft_tint_denotes();
                }
                [&tables::DARK_SOFT_BG, &tables::DARK_FG, &tables::DARK_SOFT_TINT]
            },
            Variant::LightHard => {
                proof {
                    tables::lemma_light_hard_bg_denotes();
                    tables::lemma_light_hard_tint_denotes();
                }
                [&tables::LIGHT_HARD_BG, &tables::LIGHT_FG, &tables::LIGHT_HARD_TINT]
            },
            Variant::LightMedium => {
                proof {
                    tables::lemma_light_medium_bg_denotes();
                    tables::lemma_light_medium_tint_denotes();
                }
                [&tables::LIGHT_MEDIUM_BG, &tables::LIGHT_FG, &tables::LIGHT_MEDIUM_TINT]
            },
            Variant::LightSoft => {
                proof {
                    tables::lemma_light_soft_bg_denotes();
                    tables::lemma_light_soft_tint_denotes();
                }
                [&tables::LIGHT_SOFT_BG, &tables::LIGHT_FG, &tables::LIGHT_SOFT_TINT]
            },
        }
    }

    /// Build the resolved palette for this variant.
    ///
    /// `rich` adds the muted accent-tinted backgrounds for extra colored
    /// anchors in the shadows; off by default for a cleaner, greener result.
    pub fn palette(self, rich: bool) -> (palette: Palette)
        ensures
            palette.variant == self,
            colors_are(palette.colors@, palette_entries(self, rich)),
    {
        let groups = self.hex_groups();
        let bg = groups[0];
        let fg = groups[1];
        let tint = groups[2];
        let mut colors: Vec<PaletteColor> = Vec::new();
        push_group(&mut colors, bg, Group::Ramp, Ghost(Seq::empty()), Ghost(ramp_rgb(self)));
        let ghost after_ramp = tagged(ramp_rgb(self), Group::Ramp);
        assert(Seq::<((u8, u8, u8), Group)>::empty() + after_ramp =~= after_ramp);
        push_group(&mut colors, fg, Group::Accent, Ghost(after_ramp), Ghost(foreground_rgb(self)));
        let ghost plain = after_ramp + tagged(foreground_rgb(self), Group::Accent);
        if rich {
            push_group(&mut colors, tint, Group::Accent, Ghost(plain), Ghost(tint_rgb(self)));
        } else {
            assert(plain + Seq::<((u8, u8, u8), Group)>::empty() =~= plain);
        }
        Palette { variant: self, colors }
    }
}

/// Each variant has its own command-line name.
pub proof fn lemma_variant_names_distinct(a: Variant, b: Variant)
    requires
        a != b,
    ensures
        spec_variant_name(a) != spec_variant_name(b),
{
    reveal_strlit("dark-hard");
    reveal_strlit("dark-medium");
    reveal_strlit("dark-soft");
    reveal_strlit("light-hard");
    reveal_strlit("light-medium");
    reveal_strlit("light-soft");
    let na = spec_variant_name(a);
    let nb = spec_variant_name(b);
    if na.len() == nb.len() {
        // Same length: a letter tells them apart.
        if na[0] == nb[0] {
            assert(na[5] != nb[5] || na[6] != nb[6]);
        } else {
            assert(na[0] != nb[0]);
        }
    }
}

/// `Variant::ALL` lists every variant, each once.
pub proof fn lemma_all_variants_once(v: Variant)
    ensures
        exists|i: int| 0 <= i < 6 && Variant::ALL[i] == v,
        forall|i: int, j: int| 0 <= i < j < 6 ==> Variant::ALL[i] != Variant::ALL[j],
{
    let i: int = match v {
        Variant::DarkHard => 0,
        Variant::DarkMedium => 1,
        Variant::DarkSoft => 2,
        Variant::LightHard => 3,
        Variant::LightMedium => 4,
        Variant::LightSoft => 5,
    };
    assert(Variant::ALL[i] == v);
}

/// The rich palette is the plain palette followed by the accent tints.
pub proof fn lemma_rich_extends_plain(v: Variant)
    ensures
        palette_entries(v, true) == palette_entries(v, false) + tagged(tint_rgb(v), Group::Accent),
{
    assert(palette_entries(v, false) =~= tagged(ramp_rgb(v), Group::Ramp) + tagged(
        foreground_rgb(v),
        Group::Accent,
    ));
}

/// The ramp colors of a palette are exactly its leading entries, one per
/// tone of the variant's background ramp.
pub proof fn lemma_ramp_leads(v: Variant, rich: bool, i: int)
    requires
        0 <= i < palette_entries(v, rich).len(),
    ensures
        palette_entries(v, rich)[i].1 == Group::Ramp <==> i < ramp_rgb(v).len(),
        i < ramp_rgb(v).len() ==> palette_entries(v, rich)[i].0 == ramp_rgb(v)[i],
{
    let ramp = tagged(ramp_rgb(v), Group::Ramp);
    let fg = tagged(foreground_rgb(v), Group::Accent);
    let rest = if rich { tagged(tint_rgb(v), Group::Accent) } else { Seq::empty() };
    assert(palette_entries(v, rich) == ramp + fg + rest);
    if i < ramp.len() {
        assert(palette_entries(v, rich)[i] == ramp[i]);
    } else if i < ramp.len() + fg.len() {
        assert(palette_entries(v, rich)[i] == fg[i - ramp.len()]);
    } else {
        assert(palette_entries(v, rich)[i] == rest[i - ramp.len() - fg.len()]);
    }
}

/// Every palette has colors to recolor with.
pub proof fn lemma_palette_nonempty(v: Variant, rich: bool)
    ensures
        palette_entries(v, rich).len() >= 1,
{
}

/// The three dark variants share one foreground, and so do the three light
/// ones.
pub proof fn lemma_shared_foreground(a: Variant, b: Variant)
    requires
        is_dark(a) == is_dark(b),
    ensures
        foreground_rgb(a) == foreground_rgb(b),
{
}

/// `a` is darker than `b` in every channel.
pub open spec fn darker_in_every_channel(a: (u8, u8, u8), b: (u8, u8, u8)) -> bool {
    a.0 < b.0 && a.1 < b.1 && a.2 < b.2
}

/// Every channel of `c` lies in the dark half.
pub open spec fn is_dark_tone(c: (u8, u8, u8)) -> bool {
    c.0 < 0x80 && c.1 < 0x80 && c.2 < 0x80
}

/// Every channel of `c` lies in the light half.
pub open spec fn is_light_tone(c: (u8, u8, u8)) -> bool {
    c.0 >= 0x80 && c.1 >= 0x80 && c.2 >= 0x80
}

/// Each dark variant recolors toward its own page tones: the ramp is dark,
/// and tone by tone dark-hard's ramp is darker in every channel than
/// dark-medium's, which is darker than dark-soft's.
pub proof fn lemma_dark_ramp_contrast(i: int)
    requires
        0 <= i < 7,
    ensures
        palette_entries(Variant::DarkHard, false)[i].1 == Group::Ramp,
        palette_entries(Variant::DarkMedium, false)[i].1 == Group::Ramp,
        palette_entries(Variant::DarkSoft, false)[i].1 == Group::Ramp,
        is_dark_tone(palette_entries(Variant::DarkHard, false)[i].0),
        is_dark_tone(palette_entries(Variant::DarkMedium, false)[i].0),
        is_dark_tone(palette_entries(Variant::DarkSoft, false)[i].0),
        darker_in_every_channel(
            palette_entries(Variant::DarkHard, false)[i].0,
            palette_entries(Variant::DarkMedium, false)[i].0,
        ),
        darker_in_every_channel(
            palette_entries(Variant::DarkMedium, false)[i].0,
            palette_entries(Variant::DarkSoft, false)[i].0,
        ),
{
    lemma_ramp_leads(Variant::DarkHard, false, i);
    lemma_ramp_leads(Variant::DarkMedium, false, i);
    lemma_ramp_leads(Variant::DarkSoft, false, i);
}

/// Each light variant recolors toward its own page tones: the ramp is light,
/// and tone by tone light-hard's ramp is lighter in every channel than
/// light-medium's, which is lighter than light-soft's.
pub proof fn lemma_light_ramp_contrast(i: int)
    requires
        0 <= i < 6,
    ensures
        palette_entries(Variant::LightHard, false)[i].1 == Group::Ramp,
        palette_entries(Variant::LightMedium, false)[i].1 == Group::Ramp,
        palette_entries(Variant::LightSoft, false)[i].1 == Group::Ramp,
        is_light_tone(palette_entries(Variant::LightHard, false)[i].0),
        is_light_tone(palette_entries(Variant::LightMedium, false)[i].0),
        is_light_tone(palette_entries(Variant::LightSoft, false)[i].0),
        darker_in_every_channel(
            palette_entries(Variant::LightMedium, false)[i].0,
            palette_entries(Variant::LightHard, false)[i].0,
        ),
        darker_in_every_channel(
            palette_entries(Variant::LightSoft, false)[i].0,
            palette_entries(Variant::LightMedium, false)[i].0,
        ),
{
    lemma_ramp_leads(Variant::LightHard, false, i);
    lemma_ramp_leads(Variant::LightMedium, false, i);
    lemma_ramp_leads(Variant::LightSoft, false, i);
}

/// The rich palette of each dark variant ends with its own accent tints:
/// dark ones, and tint by tint dark-hard's are darker in every channel than
/// dark-medium's, which are darker than dark-soft's.
pub proof fn lemma_dark_tint_contrast(i: int)
    requires
        0 <= i < 6,
    ensures
        palette_entries(Variant::DarkHard, true).len() == 24,
        palette_entries(Variant::DarkMedium, true).len() == 24,
        palette_entries(Variant::DarkSoft, true).len() == 24,
        palette_entries(Variant::DarkHard, true)[18 + i].1 == Group::Accent,
        palette_entries(Variant::DarkMedium, true)[18 + i].1 == Group::Accent,
        palette_entries(Variant::DarkSoft, true)[18 + i].1 == Group::Accent,
        is_dark_tone(palette_entries(Variant::DarkHard, true)[18 + i].0),
        is_dark_tone(palette_entries(Variant::DarkMedium, true)[18 + i].0),
        is_dark_tone(palette_entries(Variant::DarkSoft, true)[18 + i].0),
        darker_in_every_channel(
            palette_entries(Variant::DarkHard, true)[18 + i].0,
            palette_entries(Variant::DarkMedium, true)[18 + i].0,
        ),
        darker_in_every_channel(
            palette_entries(Variant::DarkMedium, true)[18 + i].0,
            palette_entries(Variant::DarkSoft, true)[18 + i].0,
        ),
{
    lemma_tint_entry(Variant::DarkHard, i);
    lemma_tint_entry(Variant::DarkMedium, i);
    lemma_tint_entry(Variant::DarkSoft, i);
}

/// The rich palette of each light variant ends with its own accent tints:
/// light ones, and tint by tint light-hard's are lighter in every channel
/// than light-medium's, which are lighter than light-soft's.
pub proof fn lemma_light_tint_contrast(i: int)
    requires
        0 <= i < 6,
    ensures
        palette_entries(Variant::LightHard, true).len() == 23,
        palette_entries(Variant::LightMedium, true).len() == 23,
        palette_entries(Variant::LightSoft, true).len() == 23,
        palette_entries(Variant::LightHard, true)[17 + i].1 == Group::Accent,
        palette_entries(Variant::LightMedium, true)[17 + i].1 == Group::Accent,
        palette_entries(Variant::LightSoft, true)[17 + i].1 == Group::Accent,
        is_light_tone(palette_entries(Variant::LightHard, true)[17 + i].0),
        is_light_tone(palette_entries(Variant::LightMedium, true)[17 + i].0),
        is_light_tone(palette_entries(Variant::LightSoft, true)[17 + i].0),
        darker_in_every_channel(
            palette_entries(Variant::LightMedium, true)[17 + i].0,
            palette_entries(Variant::LightHard, true)[17 + i].0,
        ),
        darker_in_every_channel(
            palette_entries(Variant::LightSoft, true)[17 + i].0,
            palette_entries(Variant::LightMedium, true)[17 + i].0,
        ),
{
    lemma_tint_entry(Variant::LightHard, i);
    lemma_tint_entry(Variant::LightMedium, i);
    lemma_tint_entry(Variant::LightSoft, i);
}

proof fn lemma_tint_entry(v: Variant, i: int)
    requires
        0 <= i < tint_rgb(v).len(),
    ensures
        palette_entries(v, true).len() == ramp_rgb(v).len() + foreground_rgb(v).len() + tint_rgb(v).len(),
        palette_entries(v, true)[ramp_rgb(v).len() + foreground_rgb(v).len() + i] == (
            tint_rgb(v)[i],
            Group::Accent,
        ),
{
    lemma_rich_extends_plain(v);
}

/// The foreground of a dark variant is led by a light text color, that of a
/// light variant by a dark one.
pub proof fn lemma_foreground_contrast(v: Variant, rich: bool)
    ensures
        palette_entries(v, rich)[ramp_rgb(v).len() as int].1 == Group::Accent,
        is_dark(v) ==> is_light_tone(palette_entries(v, rich)[ramp_rgb(v).len() as int].0),
        !is_dark(v) ==> is_dark_tone(palette_entries(v, rich)[ramp_rgb(v).len() as int].0),
{
    let k = ramp_rgb(v).len() as int;
    lemma_ramp_leads(v, rich, k);
    let ramp = tagged(ramp_rgb(v), Group::Ramp);
    let fg = tagged(foreground_rgb(v), Group::Accent);
    let rest = if rich { tagged(tint_rgb(v), Group::Accent) } else { Seq::empty() };
    assert(palette_entries(v, rich) == ramp + fg + rest);
    assert(palette_entries(v, rich)[k] == fg[0]);
}

/// Append the colors of one hex table, all in `group`.
fn push_group(
    colors: &mut Vec<PaletteColor>,
    hexes: &[&str],
    group: Group,
    Ghost(prior): Ghost<Seq<((u8, u8, u8), Group)>>,
    Ghost(rgbs): Ghost<Seq<(u8, u8, u8)>>,
)
    requires
        colors_are(old(colors)@, prior),
        hexes_denote(hexes@, rgbs),
    ensures
        colors_are(final(colors)@, prior + tagged(rgbs, group)),
{
    let n = hexes.len();
    for k in 0..n
        invariant
            n == hexes@.len(),
            hexes_denote(hexes@, rgbs),
            colors_are(colors@, prior + tagged(rgbs, group).take(k as int)),
    {
        let rgb = parse_hex(hexes[k]).expect("palette hex constants are valid");
        colors.push(PaletteColor { rgb, group });
        assert(prior + tagged(rgbs, group).take(k + 1) =~= (prior + tagged(rgbs, group).take(
            k as int,
        )).push((rgbs[k as int], group)));
    }
    assert(tagged(rgbs, group).take(n as int) =~= tagged(rgbs, group));
}

} // verus!
