use everwall::palette::Group;
use everwall::palette::Palette;
use everwall::palette::PaletteColor;
use everwall::palette::Variant;
use everwall::recolor::nearest_anchors;

fn palette_of(groups: &[Group]) -> Palette {
    Palette {
        variant: Variant::DarkMedium,
        colors: groups.iter().map(|&group| PaletteColor { rgb: [0, 0, 0], group }).collect(),
    }
}

const R: Group = Group::Ramp;
const A: Group = Group::Accent;

#[test]
fn picks_the_nearest_nearest_first() {
    let p = palette_of(&[A, A, A, A]);
    assert_eq!(nearest_anchors(&p, &vec![40, 10, 30, 20], 2), vec![1, 3]);
    assert_eq!(nearest_anchors(&p, &vec![40, 10, 30, 20], 3), vec![1, 3, 2]);
}

#[test]
fn ramp_takes_one_place_only() {
    // Three ramp tones nearer than every accent: only the nearest one counts.
    let p = palette_of(&[R, R, R, A, A, A]);
    let keys = vec![3, 1, 2, 10, 30, 20];
    assert_eq!(nearest_anchors(&p, &keys, 3), vec![1, 3, 5]);
    assert_eq!(nearest_anchors(&p, &keys, 8), vec![1, 3, 5, 4]);
}

#[test]
fn ramp_tie_keeps_the_first_tone() {
    let p = palette_of(&[R, R, A]);
    assert_eq!(nearest_anchors(&p, &vec![5, 5, 9], 3), vec![0, 2]);
}

#[test]
fn ties_go_to_the_earlier_color() {
    let p = palette_of(&[A, A, A]);
    assert_eq!(nearest_anchors(&p, &vec![7, 7, 7], 2), vec![0, 1]);
}

#[test]
fn single_anchor_is_a_hard_snap() {
    let p = palette_of(&[R, A, A, R]);
    let keys = vec![9, 4, 6, 2];
    assert_eq!(nearest_anchors(&p, &keys, 1), vec![3]);
}

#[test]
fn zero_nearest_counts_as_one() {
    let p = palette_of(&[A, A]);
    assert_eq!(nearest_anchors(&p, &vec![2, 1], 0), vec![1]);
}

#[test]
fn budget_is_clamped_to_palette_and_candidates() {
    let p = palette_of(&[A, R, R]);
    // Only two candidates exist (the accent and the nearest ramp tone).
    assert_eq!(nearest_anchors(&p, &vec![1, 2, 3], 100), vec![0, 1]);
}

#[test]
fn more_anchors_only_extend() {
    let p = palette_of(&[R, A, R, A, A, R, A]);
    let keys = vec![12, 7, 3, 9, 9, 5, 1];
    let mut previous: Vec<usize> = Vec::new();
    for n in 0..10 {
        let chosen = nearest_anchors(&p, &keys, n);
        assert!(chosen.len() >= previous.len());
        assert_eq!(&chosen[..previous.len()], &previous[..]);
        previous = chosen;
    }
    assert_eq!(previous, vec![6, 2, 1, 3, 4]);
}

#[test]
fn first_anchor_is_nearest_candidate() {
    let p = Variant::DarkHard.palette(true);
    let keys: Vec<u32> = (0..p.colors.len() as u32).map(|i| (i * 37 + 11) % 29).collect();
    let chosen = nearest_anchors(&p, &keys, 8);
    assert_eq!(chosen.len(), 8);
    let first = chosen[0];
    for (i, c) in p.colors.iter().enumerate() {
        if c.group == Group::Accent {
            assert!(keys[first] <= keys[i]);
        }
    }
    let ramps = chosen.iter().filter(|&&i| p.colors[i].group == Group::Ramp).count();
    assert!(ramps <= 1);
}

#[test]
fn far_ramp_tones_never_matter() {
    let p = Variant::DarkSoft.palette(true);
    let keys: Vec<u32> = (0..p.colors.len() as u32).map(|i| (i * 53 + 7) % 31).collect();
    for nearest in [1, 3, 8, 40] {
        let full = nearest_anchors(&p, &keys, nearest);
        let closest_ramp = (0..p.colors.len())
            .filter(|&i| p.colors[i].group == Group::Ramp)
            .min_by_key(|&i| (keys[i], i))
            .unwrap();
        for r in 0..p.colors.len() {
            if p.colors[r].group != Group::Ramp || r == closest_ramp {
                continue;
            }
            let mut q = p.clone();
            q.colors.remove(r);
            let mut q_keys = keys.clone();
            q_keys.remove(r);
            let without = nearest_anchors(&q, &q_keys, nearest);
            let lifted: Vec<usize> = without.iter().map(|&k| if k < r { k } else { k + 1 }).collect();
            assert_eq!(lifted, full);
        }
    }
}
