use everwall::color::parse_hex;
use everwall::palette::Group;
use everwall::palette::Palette;
use everwall::palette::PaletteColor;
use everwall::palette::Variant;

fn rgbs(p: &Palette, group: Group) -> Vec<[u8; 3]> {
    p.colors.iter().filter(|c| c.group == group).map(|c| c.rgb).collect()
}

#[test]
fn names() {
    assert_eq!(Variant::DarkHard.name(), "dark-hard");
    assert_eq!(Variant::DarkMedium.name(), "dark-medium");
    assert_eq!(Variant::DarkSoft.name(), "dark-soft");
    assert_eq!(Variant::LightHard.name(), "light-hard");
    assert_eq!(Variant::LightMedium.name(), "light-medium");
    assert_eq!(Variant::LightSoft.name(), "light-soft");
}

#[test]
fn names_are_distinct() {
    for a in Variant::ALL {
        for b in Variant::ALL {
            assert_eq!(a == b, a.name() == b.name());
        }
    }
}

#[test]
fn all_lists_each_variant_once_in_order() {
    assert_eq!(
        Variant::ALL,
        [
            Variant::DarkHard,
            Variant::DarkMedium,
            Variant::DarkSoft,
            Variant::LightHard,
            Variant::LightMedium,
            Variant::LightSoft,
        ]
    );
}

#[test]
fn hex_groups_parse_and_have_theme_sizes() {
    for v in Variant::ALL {
        let [bg, fg, tint] = v.hex_groups();
        let ramp_len = if v.name().starts_with("dark") { 7 } else { 6 };
        assert_eq!(bg.len(), ramp_len);
        assert_eq!(fg.len(), 11);
        assert_eq!(tint.len(), 6);
        for hex in bg.iter().chain(fg.iter()).chain(tint.iter()) {
            assert!(parse_hex(hex).is_some(), "{hex}");
        }
    }
}

#[test]
fn palette_sizes() {
    for v in Variant::ALL {
        let dark = v.name().starts_with("dark");
        let plain = v.palette(false);
        let rich = v.palette(true);
        assert_eq!(plain.variant, v);
        assert_eq!(rich.variant, v);
        assert_eq!(plain.colors.len(), if dark { 18 } else { 17 });
        assert_eq!(rich.colors.len(), if dark { 24 } else { 23 });
    }
}

#[test]
fn dark_medium_palette_values() {
    let p = Variant::DarkMedium.palette(false);
    assert_eq!(p.colors[0], PaletteColor { rgb: [0x23, 0x2A, 0x2E], group: Group::Ramp });
    assert_eq!(p.colors[6], PaletteColor { rgb: [0x56, 0x63, 0x5F], group: Group::Ramp });
    assert_eq!(p.colors[7], PaletteColor { rgb: [0xD3, 0xC6, 0xAA], group: Group::Accent });
    assert_eq!(p.colors[17], PaletteColor { rgb: [0x9D, 0xA9, 0xA0], group: Group::Accent });
}

#[test]
fn light_soft_rich_palette_values() {
    let p = Variant::LightSoft.palette(true);
    assert_eq!(p.colors[0], PaletteColor { rgb: [0xE5, 0xDF, 0xC5], group: Group::Ramp });
    assert_eq!(p.colors[5], PaletteColor { rgb: [0xB9, 0xC0, 0xAB], group: Group::Ramp });
    assert_eq!(p.colors[6], PaletteColor { rgb: [0x5C, 0x6A, 0x72], group: Group::Accent });
    assert_eq!(p.colors[17], PaletteColor { rgb: [0xE1, 0xE4, 0xBD], group: Group::Accent });
    assert_eq!(p.colors[22], PaletteColor { rgb: [0xF1, 0xDD, 0xD4], group: Group::Accent });
}

#[test]
fn rich_extends_plain_with_tints() {
    for v in Variant::ALL {
        let plain = v.palette(false);
        let rich = v.palette(true);
        assert_eq!(&rich.colors[..plain.colors.len()], &plain.colors[..]);
        let tints: Vec<[u8; 3]> = v.hex_groups()[2].iter().map(|h| parse_hex(h).unwrap()).collect();
        let extra: Vec<[u8; 3]> = rich.colors[plain.colors.len()..].iter().map(|c| c.rgb).collect();
        assert_eq!(extra, tints);
        assert!(rich.colors[plain.colors.len()..].iter().all(|c| c.group == Group::Accent));
    }
}

#[test]
fn ramp_is_the_leading_block() {
    for v in Variant::ALL {
        for rich in [false, true] {
            let p = v.palette(rich);
            let ramp: Vec<[u8; 3]> = v.hex_groups()[0].iter().map(|h| parse_hex(h).unwrap()).collect();
            for (i, c) in p.colors.iter().enumerate() {
                assert_eq!(c.group == Group::Ramp, i < ramp.len());
            }
            assert_eq!(rgbs(&p, Group::Ramp), ramp);
        }
    }
}

#[test]
fn palettes_are_never_empty() {
    for v in Variant::ALL {
        assert!(!v.palette(false).colors.is_empty());
        assert!(!v.palette(true).colors.is_empty());
    }
}

#[test]
fn foreground_shared_within_dark_and_within_light() {
    let fg = |v: Variant| v.hex_groups()[1];
    assert_eq!(fg(Variant::DarkHard), fg(Variant::DarkMedium));
    assert_eq!(fg(Variant::DarkHard), fg(Variant::DarkSoft));
    assert_eq!(fg(Variant::LightHard), fg(Variant::LightMedium));
    assert_eq!(fg(Variant::LightHard), fg(Variant::LightSoft));
    assert_ne!(fg(Variant::DarkHard), fg(Variant::LightHard));
}
