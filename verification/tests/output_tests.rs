use everwall::output::output_file_name;
use everwall::palette::Variant;

#[test]
fn named_after_the_stem() {
    assert_eq!(output_file_name(Some("forest"), Variant::DarkMedium), "forest-dark-medium.png");
    assert_eq!(output_file_name(Some("a.b"), Variant::LightSoft), "a.b-light-soft.png");
}

#[test]
fn missing_stem_is_wallpaper() {
    assert_eq!(output_file_name(None, Variant::DarkHard), "wallpaper-dark-hard.png");
}

#[test]
fn every_variant_names_its_own_file() {
    for v in Variant::ALL {
        assert_eq!(output_file_name(Some("x"), v), format!("x-{}.png", v.name()));
    }
}
