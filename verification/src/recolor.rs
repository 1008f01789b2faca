//! Which palette colors take part in a pixel's blend.
//!
//! For every pixel the program finds its nearest palette colors in Oklab space
//! and blends them with Gaussian weights. Blending the few nearest anchors —
//! rather than snapping to a single one — keeps smooth gradients smooth while
//! still pulling the whole image onto the theme's palette.
//!
//! The background ramp is admitted only once. The ramp is a handful of
//! near-neutral tones separated almost purely by lightness, so for any dark
//! pixel it would occupy the entire neighbor set and the accents would never
//! get a vote. Keeping just its closest member preserves the ramp's role as a
//! lightness reference while leaving the remaining slots for chromatic
//! anchors.
//!
//! Distances are given here as ordering keys: `dist_keys[i]` orders palette
//! color `i` by its distance to the pixel, smaller meaning closer. Ties are
//! broken by palette position, so the choice is fully determined.

use vstd::prelude::*;
use crate::palette::Group;
use crate::palette::Palette;
use crate::palette::PaletteColor;
use vstd::relations::injective_on;
use vstd::set_lib::set_int_range;
use vstd::set_lib::lemma_int_range;
use vstd::set_lib::lemma_map_size;
use vstd::set_lib::lemma_subset_equality;

verus! {

/// Palette color `i` comes before palette color `j`: it is closer, or as
/// close and earlier in the palette.
pub open spec fn anchor_before(keys: Seq<u32>, i: int, j: int) -> bool {
    keys[i] < keys[j] || (keys[i] == keys[j] && i < j)
}

/// `j` is the ramp color that stands for the whole ramp: the first ramp color
/// of least distance.
pub open spec fn is_ramp_representative(colors: Seq<PaletteColor>, keys: Seq<u32>, j: int) -> bool {
    &&& 0 <= j < colors.len()
    &&& colors[j].group == Group::Ramp
    &&& forall|i: int|
        0 <= i < colors.len() && #[trigger] colors[i].group == Group::Ramp && i != j
            ==> anchor_before(keys, j, i)
}

/// Palette color `i` may take part in a blend: it is an accent, or the ramp's
/// representative.
pub open spec fn is_candidate(colors: Seq<PaletteColor>, keys: Seq<u32>, i: int) -> bool {
    &&& 0 <= i < colors.len()
    &&& (colors[i].group == Group::Accent || is_ramp_representative(colors, keys, i))
}

/// Palette color `i` is among `chosen`.
pub open spec fn is_chosen(chosen: Seq<usize>, i: int) -> bool {
    exists|t: int| 0 <= t < chosen.len() && chosen[t] as int == i
}

/// How many anchors a pixel may blend: `nearest` clamped to `1..=n`.
pub open spec fn anchor_budget(nearest: int, n: int) -> int {
    if nearest < 1 {
        1
    } else if nearest > n {
        n
    } else {
        nearest
    }
}

/// `chosen` lists, nearest first, the candidates that a pixel blends: as many
/// as the budget allows (all of them when there are fewer), and none farther
/// than a candidate left out.
pub open spec fn are_nearest_anchors(
    colors: Seq<PaletteColor>,
    keys: Seq<u32>,
    nearest: int,
    chosen: Seq<usize>,
) -> bool {
    &&& chosen.len() <= anchor_budget(nearest, colors.len() as int)
    &&& forall|t: int| 0 <= t < chosen.len() ==> is_candidate(colors, keys, #[trigger] chosen[t] as int)
    &&& forall|t: int, u: int|
        0 <= t < u < chosen.len() ==> anchor_before(keys, #[trigger] chosen[t] as int, #[trigger] chosen[u] as int)
    &&& forall|i: int|
        #[trigger] is_candidate(colors, keys, i) && !is_chosen(chosen, i) ==> {
            &&& chosen.len() == anchor_budget(nearest, colors.len() as int)
            &&& forall|t: int| 0 <= t < chosen.len() ==> anchor_before(keys, #[trigger] chosen[t] as int, i)
        }
}

/// The background ramp takes at most one place among a pixel's anchors.
pub proof fn lemma_ramp_admitted_once(
    colors: Seq<PaletteColor>,
    keys: Seq<u32>,
    nearest: int,
    chosen: Seq<usize>,
    t: int,
    u: int,
)
    requires
        are_nearest_anchors(colors, keys, nearest, chosen),
        0 <= t < chosen.len(),
        0 <= u < chosen.len(),
        colors[chosen[t] as int].group == Group::Ramp,
        colors[chosen[u] as int].group == Group::Ramp,
    ensures
        t == u,
{
    assert(is_candidate(colors, keys, chosen[t] as int));
    assert(is_candidate(colors, keys, chosen[u] as int));
    if t < u {
        assert(anchor_before(keys, chosen[t] as int, chosen[u] as int));
        assert(anchor_before(keys, chosen[u] as int, chosen[t] as int));
    } else if u < t {
        assert(anchor_before(keys, chosen[u] as int, chosen[t] as int));
        assert(anchor_before(keys, chosen[t] as int, chosen[u] as int));
    }
}

/// The first anchor is the nearest candidate: every other candidate comes
/// after it. This is the color a pixel falls back to when its blend weights
/// vanish.
pub proof fn lemma_first_anchor_nearest(
    colors: Seq<PaletteColor>,
    keys: Seq<u32>,
    nearest: int,
    chosen: Seq<usize>,
    i: int,
)
    requires
        are_nearest_anchors(colors, keys, nearest, chosen),
        chosen.len() >= 1,
        is_candidate(colors, keys, i),
        i != chosen[0] as int,
    ensures
        anchor_before(keys, chosen[0] as int, i),
{
    if is_chosen(chosen, i) {
        let u = choose|u: int| 0 <= u < chosen.len() && chosen[u] as int == i;
        assert(anchor_before(keys, chosen[0] as int, chosen[u] as int));
    }
}

/// Blending a single anchor is a hard snap: exactly one anchor.
pub proof fn lemma_single_anchor_snap(
    colors: Seq<PaletteColor>,
    keys: Seq<u32>,
    nearest: int,
    chosen: Seq<usize>,
)
    requires
        are_nearest_anchors(colors, keys, nearest, chosen),
        chosen.len() >= 1,
        nearest <= 1,
    ensures
        chosen.len() == 1,
{
}

proof fn lemma_prefix_step(
    colors: Seq<PaletteColor>,
    keys: Seq<u32>,
    n1: int,
    n2: int,
    c1: Seq<usize>,
    c2: Seq<usize>,
    t: int,
)
    requires
        n1 <= n2,
        are_nearest_anchors(colors, keys, n1, c1),
        are_nearest_anchors(colors, keys, n2, c2),
        0 <= t < c1.len(),
        t <= c2.len(),
        forall|s: int| 0 <= s < t ==> #[trigger] c1[s] == c2[s],
    ensures
        t < c2.len(),
        c1[t] == c2[t],
{
    let x = c1[t];
    assert(is_candidate(colors, keys, x as int));
    if !is_chosen(c2, x as int) {
        assert(c2.len() == anchor_budget(n2, colors.len() as int));
        let y = c2[t];
        assert(anchor_before(keys, y as int, x as int));
        assert(is_candidate(colors, keys, y as int));
        if is_chosen(c1, y as int) {
            let s = choose|s: int| 0 <= s < c1.len() && c1[s] == y;
            if s < t {
                assert(c2[s] == y);
                assert(anchor_before(keys, c2[s] as int, c2[t] as int));
            } else if s > t {
                assert(anchor_before(keys, c1[t] as int, c1[s] as int));
            }
        } else {
            assert(anchor_before(keys, c1[t] as int, y as int));
        }
    } else {
        let u = choose|u: int| 0 <= u < c2.len() && c2[u] == x;
        if u < t {
            assert(c1[u] == x);
            assert(anchor_before(keys, c1[u] as int, c1[t] as int));
        } else if u > t {
            let y = c2[t];
            assert(anchor_before(keys, c2[t] as int, c2[u] as int));
            assert(is_candidate(colors, keys, y as int));
            if is_chosen(c1, y as int) {
                let s = choose|s: int| 0 <= s < c1.len() && c1[s] == y;
                if s < t {
                    assert(c2[s] == y);
                    assert(anchor_before(keys, c2[s] as int, c2[t] as int));
                } else if s > t {
                    assert(anchor_before(keys, c1[t] as int, c1[s] as int));
                } else {
                    assert(anchor_before(keys, c2[t] as int, c2[u] as int));
                }
            } else {
                assert(anchor_before(keys, c1[t] as int, y as int));
            }
        }
    }
}

proof fn lemma_prefix_upto(
    colors: Seq<PaletteColor>,
    keys: Seq<u32>,
    n1: int,
    n2: int,
    c1: Seq<usize>,
    c2: Seq<usize>,
    t: int,
)
    requires
        n1 <= n2,
        are_nearest_anchors(colors, keys, n1, c1),
        are_nearest_anchors(colors, keys, n2, c2),
        0 <= t <= c1.len(),
    ensures
        t <= c2.len(),
        forall|s: int| 0 <= s < t ==> #[trigger] c1[s] == c2[s],
    decreases t,
{
    if t > 0 {
        lemma_prefix_upto(colors, keys, n1, n2, c1, c2, t - 1);
        lemma_prefix_step(colors, keys, n1, n2, c1, c2, t - 1);
    }
}

/// Allowing more anchors only adds anchors: the anchors chosen under a
/// smaller `nearest` lead those chosen under a larger one. With equal
/// `nearest` the two choices are the same.
pub proof fn lemma_more_anchors_extend(
    colors: Seq<PaletteColor>,
    keys: Seq<u32>,
    n1: int,
    n2: int,
    c1: Seq<usize>,
    c2: Seq<usize>,
)
    requires
        n1 <= n2,
        are_nearest_anchors(colors, keys, n1, c1),
        are_nearest_anchors(colors, keys, n2, c2),
    ensures
        c1.len() <= c2.len(),
        c1 == c2.subrange(0, c1.len() as int),
{
    lemma_prefix_upto(colors, keys, n1, n2, c1, c2, c1.len() as int);
    assert(c1 =~= c2.subrange(0, c1.len() as int));
}

/// An anchor list as long as a palette of `m` colors, without repeats,
/// names every color of that palette.
proof fn lemma_full_list_covers(s: Seq<usize>, m: int, x: int)
    requires
        s.len() == m,
        forall|t: int| 0 <= t < m ==> #[trigger] s[t] < m,
        forall|t: int, u: int| 0 <= t < m && 0 <= u < m && t != u ==> #[trigger] s[t] != #[trigger] s[u],
        0 <= x < m,
    ensures
        is_chosen(s, x),
{
    let positions = set_int_range(0, m);
    lemma_int_range(0, m);
    let f = |t: int| s[t] as int;
    let values = positions.map(f);
    assert(injective_on(f, positions));
    lemma_map_size(positions, values, f);
    assert(values.subset_of(positions)) by {
        assert forall|v: int| values.contains(v) implies positions.contains(v) by {
            let t = choose|t: int| positions.contains(t) && f(t) == v;
            assert(s[t] < m);
        }
    }
    lemma_subset_equality(values, positions);
    assert(values.contains(x));
    let t = choose|t: int| positions.contains(t) && f(t) == x;
    assert(s[t] as int == x);
}

/// In terms of distances alone: the anchors come nearest first, no candidate
/// left out is nearer than an anchor, the first anchor is at least as near as
/// every candidate, and a ramp tone that is an anchor is at least as near as
/// every ramp tone.
pub proof fn lemma_anchors_by_distance(
    colors: Seq<PaletteColor>,
    keys: Seq<u32>,
    nearest: int,
    chosen: Seq<usize>,
)
    requires
        are_nearest_anchors(colors, keys, nearest, chosen),
    ensures
        forall|t: int, u: int|
            0 <= t < u < chosen.len() ==> keys[#[trigger] chosen[t] as int] <= keys[#[trigger] chosen[u] as int],
        forall|t: int, i: int|
            0 <= t < chosen.len() && is_candidate(colors, keys, i) && !is_chosen(chosen, i) ==> keys[
                #[trigger] chosen[t] as int] <= #[trigger] keys[i],
        forall|i: int|
            #[trigger] is_candidate(colors, keys, i) && chosen.len() >= 1 ==> keys[chosen[0] as int] <= keys[i],
        forall|t: int, i: int|
            0 <= t < chosen.len() && colors[#[trigger] chosen[t] as int].group == Group::Ramp && 0 <= i
                < colors.len() && #[trigger] colors[i].group == Group::Ramp ==> keys[chosen[t] as int]
                <= keys[i],
{
    assert forall|i: int| #[trigger] is_candidate(colors, keys, i) && chosen.len() >= 1 implies keys[
        chosen[0] as int] <= keys[i] by {
        if i != chosen[0] as int {
            lemma_first_anchor_nearest(colors, keys, nearest, chosen, i);
        }
    }
    assert forall|t: int, i: int|
        0 <= t < chosen.len() && colors[#[trigger] chosen[t] as int].group == Group::Ramp && 0 <= i
            < colors.len() && #[trigger] colors[i].group == Group::Ramp implies keys[chosen[t] as int]
            <= keys[i] by {
        assert(is_candidate(colors, keys, chosen[t] as int));
    }
}

/// A pixel blends as many anchors as asked for (a request below one counts
/// as one) and never more, unless fewer candidates exist, in which case it
/// blends every candidate.
pub proof fn lemma_anchor_count(
    colors: Seq<PaletteColor>,
    keys: Seq<u32>,
    nearest: int,
    chosen: Seq<usize>,
)
    requires
        are_nearest_anchors(colors, keys, nearest, chosen),
    ensures
        chosen.len() <= if nearest < 1 { 1 } else { nearest },
        chosen.len() < (if nearest < 1 { 1 } else { nearest }) ==> forall|i: int|
            #[trigger] is_candidate(colors, keys, i) ==> is_chosen(chosen, i),
        forall|i: int| #[trigger] is_candidate(colors, keys, i) ==> chosen.len() >= 1,
{
    let n = colors.len() as int;
    let want: int = if nearest < 1 { 1 } else { nearest };
    assert forall|i: int| #[trigger] is_candidate(colors, keys, i) implies chosen.len() >= 1 by {
        if chosen.len() == 0 {
            assert(!is_chosen(chosen, i));
        }
    }
    if chosen.len() < want {
        assert forall|i: int| #[trigger] is_candidate(colors, keys, i) implies is_chosen(chosen, i) by {
            if !is_chosen(chosen, i) {
                assert(chosen.len() == anchor_budget(nearest, n));
                if want > n {
                    assert(chosen.len() == n);
                    assert forall|t: int, u: int| 0 <= t < n && 0 <= u < n && t != u implies #[trigger] chosen[t]
                        != #[trigger] chosen[u] by {
                        if t < u {
                            assert(anchor_before(keys, chosen[t] as int, chosen[u] as int));
                        } else {
                            assert(anchor_before(keys, chosen[u] as int, chosen[t] as int));
                        }
                    }
                    assert forall|t: int| 0 <= t < n implies #[trigger] chosen[t] < n by {
                        assert(is_candidate(colors, keys, chosen[t] as int));
                    }
                    lemma_full_list_covers(chosen, n, i);
                }
            }
        }
    }
}

/// The position in the full palette of color `k` of the palette with color
/// `r` removed.
pub open spec fn index_in_full(k: int, r: int) -> int {
    if k < r {
        k
    } else {
        k + 1
    }
}

/// Ramp tones other than the closest one never matter: removing such a tone
/// `r` from the palette (and its distance from the keys) leaves the anchors
/// the same palette colors, in the same order.
pub proof fn lemma_far_ramp_tone_never_matters(
    colors: Seq<PaletteColor>,
    keys: Seq<u32>,
    nearest: int,
    j: int,
    r: int,
    chosen: Seq<usize>,
    chosen_without: Seq<usize>,
)
    requires
        keys.len() == colors.len(),
        colors.len() <= usize::MAX,
        is_ramp_representative(colors, keys, j),
        0 <= r < colors.len(),
        r != j,
        colors[r].group == Group::Ramp,
        are_nearest_anchors(colors, keys, nearest, chosen),
        are_nearest_anchors(colors.remove(r), keys.remove(r), nearest, chosen_without),
    ensures
        chosen_without.len() == chosen.len(),
        forall|t: int|
            0 <= t < chosen.len() ==> index_in_full(#[trigger] chosen_without[t] as int, r) == chosen[t] as int,
{
    let n = colors.len() as int;
    let q = colors.remove(r);
    let qk = keys.remove(r);
    let cw = chosen_without;
    assert forall|k: int| 0 <= k < n - 1 implies #[trigger] q[k] == colors[index_in_full(k, r)] && qk[k]
        == keys[index_in_full(k, r)] by {}
    // Order among the remaining colors is unchanged.
    assert forall|a: int, b: int| 0 <= a < n - 1 && 0 <= b < n - 1 implies #[trigger] anchor_before(qk, a, b)
        == anchor_before(keys, index_in_full(a, r), index_in_full(b, r)) by {
        assert(qk[a] == keys[index_in_full(a, r)]);
        assert(qk[b] == keys[index_in_full(b, r)]);
    }
    // The closest ramp tone stays the representative, and the only one.
    let jq: int = if j < r { j } else { j - 1 };
    assert(index_in_full(jq, r) == j);
    assert(is_ramp_representative(q, qk, jq)) by {
        assert forall|k: int|
            0 <= k < q.len() && #[trigger] q[k].group == Group::Ramp && k != jq implies anchor_before(qk, jq, k) by {
            assert(q[k] == colors[index_in_full(k, r)]);
            assert(colors[index_in_full(k, r)].group == Group::Ramp);
            assert(anchor_before(keys, j, index_in_full(k, r)));
            assert(anchor_before(qk, jq, k) == anchor_before(keys, index_in_full(jq, r), index_in_full(k, r)));
        }
    }
    assert forall|k: int| #[trigger] is_ramp_representative(q, qk, k) implies k == jq by {
        if k != jq {
            assert(anchor_before(qk, jq, k));
            assert(anchor_before(qk, k, jq));
        }
    }
    assert forall|i: int| #[trigger] is_ramp_representative(colors, keys, i) implies i == j by {
        if i != j {
            assert(anchor_before(keys, j, i));
            assert(anchor_before(keys, i, j));
        }
    }
    assert(!is_candidate(colors, keys, r));
    // Candidates correspond one to one.
    assert forall|k: int| 0 <= k < n - 1 implies #[trigger] is_candidate(q, qk, k) == is_candidate(
        colors,
        keys,
        index_in_full(k, r),
    ) by {
        assert(q[k] == colors[index_in_full(k, r)]);
        if q[k].group == Group::Ramp {
            if is_ramp_representative(q, qk, k) {
                assert(k == jq);
            }
            if is_ramp_representative(colors, keys, index_in_full(k, r)) {
                assert(index_in_full(k, r) == j);
                assert(k == jq);
            }
        }
    }
    // Lift the anchors chosen without `r` into the full palette.
    let lifted = Seq::new(cw.len(), |t: int| index_in_full(cw[t] as int, r) as usize);
    assert forall|t: int| 0 <= t < cw.len() implies #[trigger] lifted[t] as int == index_in_full(cw[t] as int, r) by {
        assert(is_candidate(q, qk, cw[t] as int));
    }
    assert(cw.len() <= anchor_budget(nearest, n));
    assert forall|t: int| 0 <= t < lifted.len() implies is_candidate(colors, keys, #[trigger] lifted[t] as int) by {
        assert(is_candidate(q, qk, cw[t] as int));
    }
    assert forall|t: int, u: int| 0 <= t < u < lifted.len() implies anchor_before(
        keys,
        #[trigger] lifted[t] as int,
        #[trigger] lifted[u] as int,
    ) by {
        assert(anchor_before(qk, cw[t] as int, cw[u] as int));
        assert(is_candidate(q, qk, cw[t] as int));
        assert(is_candidate(q, qk, cw[u] as int));
    }
    assert forall|i: int| #[trigger] is_candidate(colors, keys, i) && !is_chosen(lifted, i) implies {
        &&& lifted.len() == anchor_budget(nearest, n)
        &&& forall|t: int| 0 <= t < lifted.len() ==> anchor_before(keys, #[trigger] lifted[t] as int, i)
    } by {
        let iq: int = if i < r { i } else { i - 1 };
        assert(i != r);
        assert(index_in_full(iq, r) == i);
        assert(is_candidate(q, qk, iq));
        assert(!is_chosen(cw, iq)) by {
            if is_chosen(cw, iq) {
                let t = choose|t: int| 0 <= t < cw.len() && cw[t] as int == iq;
                assert(lifted[t] as int == i);
            }
        }
        assert forall|t: int| 0 <= t < lifted.len() implies anchor_before(keys, #[trigger] lifted[t] as int, i) by {
            assert(anchor_before(qk, cw[t] as int, iq));
            assert(is_candidate(q, qk, cw[t] as int));
        }
        if anchor_budget(nearest, n - 1) != anchor_budget(nearest, n) {
            // Every color of the smaller palette would be an anchor, `iq` too.
            assert forall|t: int, u: int| 0 <= t < n - 1 && 0 <= u < n - 1 && t != u implies #[trigger] cw[t]
                != #[trigger] cw[u] by {
                if t < u {
                    assert(anchor_before(qk, cw[t] as int, cw[u] as int));
                } else {
                    assert(anchor_before(qk, cw[u] as int, cw[t] as int));
                }
            }
            assert forall|t: int| 0 <= t < n - 1 implies #[trigger] cw[t] < n - 1 by {
                assert(is_candidate(q, qk, cw[t] as int));
            }
            lemma_full_list_covers(cw, n - 1, iq);
        }
    }
    assert(are_nearest_anchors(colors, keys, nearest, lifted));
    lemma_more_anchors_extend(colors, keys, nearest, nearest, lifted, chosen);
    lemma_more_anchors_extend(colors, keys, nearest, nearest, chosen, lifted);
    assert(lifted =~= chosen);
    assert forall|t: int| 0 <= t < chosen.len() implies index_in_full(#[trigger] chosen_without[t] as int, r)
        == chosen[t] as int by {
        assert(lifted[t] == chosen[t]);
    }
}

/// Palette color `i` is past the last anchor chosen so far.
spec fn is_fresh(keys: Seq<u32>, chosen: Seq<usize>, i: int) -> bool {
    chosen.len() == 0 || anchor_before(keys, chosen.last() as int, i)
}

fn is_before(keys: &Vec<u32>, i: usize, j: usize) -> (res: bool)
    requires
        i < keys.len(),
        j < keys.len(),
    ensures
        res == anchor_before(keys@, i as int, j as int),
{
    keys[i] < keys[j] || (keys[i] == keys[j] && i < j)
}

/// The first ramp color of least distance, if the palette has a ramp.
fn ramp_representative(colors: &Vec<PaletteColor>, keys: &Vec<u32>) -> (best: Option<usize>)
    requires
        keys.len() == colors.len(),
    ensures
        best matches Some(b) ==> is_ramp_representative(colors@, keys@, b as int),
        best is None ==> forall|i: int| 0 <= i < colors.len() ==> #[trigger] colors@[i].group != Group::Ramp,
{
    let n = colors.len();
    let mut best: Option<usize> = None;
    for i in 0..n
        invariant
            n == colors.len(),
            keys.len() == n,
            best matches Some(b) ==> {
                &&& b < i
                &&& colors@[b as int].group == Group::Ramp
                &&& forall|j: int|
                    0 <= j < i && #[trigger] colors@[j].group == Group::Ramp && j != b
                        ==> anchor_before(keys@, b as int, j)
            },
            best is None ==> forall|j: int| 0 <= j < i ==> #[trigger] colors@[j].group != Group::Ramp,
    {
        match colors[i].group {
            Group::Ramp => {
                let closer = match best {
                    None => true,
                    Some(b) => keys[i] < keys[b],
                };
                if closer {
                    best = Some(i);
                }
            },
            Group::Accent => {},
        }
    }
    best
}

/// The palette colors a pixel blends, nearest first.
///
/// `dist_keys[i]` orders palette color `i` by its distance to the pixel;
/// `nearest` is how many anchors to blend (clamped to `1..=palette size`, so
/// `1` is a hard snap). Every accent competes, the background ramp through its
/// closest member only.
pub fn nearest_anchors(palette: &Palette, dist_keys: &Vec<u32>, nearest: usize) -> (chosen: Vec<usize>)
    requires
        palette.colors.len() >= 1,
        dist_keys.len() == palette.colors.len(),
    ensures
        chosen.len() >= 1,
        are_nearest_anchors(palette.colors@, dist_keys@, nearest as int, chosen@),
{
    let colors = &palette.colors;
    let keys = dist_keys;
    let n = colors.len();
    let budget: usize = if nearest < 1 {
        1
    } else if nearest > n {
        n
    } else {
        nearest
    };
    let best_ramp = ramp_representative(colors, keys);

    // Which palette colors compete at all.
    let mut candidate: Vec<bool> = Vec::new();
    for i in 0..n
        invariant
            n == colors.len(),
            keys.len() == n,
            candidate.len() == i,
            best_ramp matches Some(b) ==> is_ramp_representative(colors@, keys@, b as int),
            best_ramp is None ==> forall|j: int| 0 <= j < n ==> #[trigger] colors@[j].group != Group::Ramp,
            forall|j: int| 0 <= j < i ==> candidate@[j] == is_candidate(colors@, keys@, j),
    {
        let c = match colors[i].group {
            Group::Accent => true,
            Group::Ramp => match best_ramp {
                Some(b) => b == i,
                None => false,
            },
        };
        proof {
            if colors@[i as int].group == Group::Ramp {
                if let Some(b) = best_ramp {
                    if b != i && is_ramp_representative(colors@, keys@, i as int) {
                        assert(anchor_before(keys@, b as int, i as int));
                        assert(anchor_before(keys@, i as int, b as int));
                    }
                }
            }
        }
        candidate.push(c);
    }
    let ghost some_candidate: int = if colors@[0].group == Group::Accent {
        0
    } else {
        best_ramp->0 as int
    };
    assert(is_candidate(colors@, keys@, some_candidate));

    // Take the candidates one at a time, nearest first.
    let mut chosen: Vec<usize> = Vec::new();
    let mut exhausted = false;
    while !exhausted && chosen.len() < budget
        invariant
            n == colors.len(),
            keys.len() == n,
            candidate.len() == n,
            1 <= budget <= n,
            budget == anchor_budget(nearest as int, n as int),
            forall|j: int| 0 <= j < n ==> candidate@[j] == is_candidate(colors@, keys@, j),
            chosen.len() <= budget,
            forall|t: int| 0 <= t < chosen.len() ==> is_candidate(colors@, keys@, #[trigger] chosen@[t] as int),
            forall|t: int, u: int|
                0 <= t < u < chosen.len() ==> anchor_before(keys@, #[trigger] chosen@[t] as int, #[trigger] chosen@[u] as int),
            forall|i: int|
                #[trigger] is_candidate(colors@, keys@, i) && !is_chosen(chosen@, i) ==> {
                    &&& (exhausted ==> false)
                    &&& forall|t: int| 0 <= t < chosen.len() ==> anchor_before(keys@, #[trigger] chosen@[t] as int, i)
                },
        decreases budget - chosen.len() + if exhausted { 0int } else { 1int },
    {
        assert(forall|t: int| 0 <= t < chosen.len() ==> #[trigger] chosen@[t] < n);
        let mut pick: Option<usize> = None;
        for i in 0..n
            invariant
                n == colors.len(),
                keys.len() == n,
                candidate.len() == n,
                forall|j: int| 0 <= j < n ==> candidate@[j] == is_candidate(colors@, keys@, j),
                forall|t: int| 0 <= t < chosen.len() ==> #[trigger] chosen@[t] < n,
                pick matches Some(p) ==> {
                    &&& p < i
                    &&& is_candidate(colors@, keys@, p as int)
                    &&& is_fresh(keys@, chosen@, p as int)
                    &&& forall|j: int|
                        0 <= j < i && j != p && #[trigger] is_candidate(colors@, keys@, j) && is_fresh(keys@, chosen@, j)
                            ==> anchor_before(keys@, p as int, j)
                },
                pick is None ==> forall|j: int|
                    0 <= j < i && #[trigger] is_candidate(colors@, keys@, j) ==> !is_fresh(keys@, chosen@, j),
        {
            if candidate[i] {
                let fresh = chosen.len() == 0 || is_before(keys, chosen[chosen.len() - 1], i);
                if fresh {
                    let nearer = match pick {
                        None => true,
                        Some(p) => is_before(keys, i, p),
                    };
                    if nearer {
                        pick = Some(i);
                    }
                }
            }
        }
        match pick {
            Some(p) => {
                let ghost before_push = chosen@;
                chosen.push(p);
                proof {
                    assert forall|i: int|
                        #[trigger] is_candidate(colors@, keys@, i) && !is_chosen(chosen@, i) implies
                        forall|t: int| 0 <= t < chosen.len() ==> anchor_before(keys@, #[trigger] chosen@[t] as int, i)
                    by {
                        assert(!is_chosen(before_push, i)) by {
                            if is_chosen(before_push, i) {
                                let k = choose|k: int| 0 <= k < before_push.len() && before_push[k] as int == i;
                                assert(chosen@[k] == i as usize);
                            }
                        }
                        assert(i != p) by {
                            assert(chosen@[chosen.len() - 1] == p);
                        }
                        if before_push.len() > 0 {
                            assert(anchor_before(keys@, before_push.last() as int, i));
                        }
                        assert(is_fresh(keys@, before_push, i));
                    }
                }
            },
            None => {
                proof {
                    assert forall|i: int|
                        #[trigger] is_candidate(colors@, keys@, i) && !is_chosen(chosen@, i) implies false
                    by {
                        if chosen.len() > 0 {
                            assert(anchor_before(keys@, chosen@.last() as int, i));
                        }
                        assert(is_fresh(keys@, chosen@, i));
                    }
                }
                exhausted = true;
            },
        }
    }
    assert(chosen.len() >= 1) by {
        if chosen.len() == 0 {
            assert(!is_chosen(chosen@, some_candidate));
        }
    }
    chosen
}

} // verus!
