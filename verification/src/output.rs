//! The default name of the recolored file.

use vstd::prelude::*;
use vstd::string::StringExecFns;
use crate::palette::Variant;
use crate::palette::spec_variant_name;
use crate::palette::lemma_variant_names_distinct;

verus! {

/// The file name given to the output when none is asked for:
/// `<stem>-<variant>.png`, with `wallpaper` for a missing stem.
pub open spec fn spec_output_file_name(stem: Option<Seq<char>>, variant: Variant) -> Seq<char> {
    let base = match stem {
        Some(s) => s,
        None => "wallpaper"@,
    };
    base + "-"@ + spec_variant_name(variant) + ".png"@
}

/// The default output file name for an input whose file stem is `stem`.
pub fn output_file_name(stem: Option<&str>, variant: Variant) -> (name: String)
    ensures
        name@ == spec_output_file_name(
            match stem {
                Some(s) => Some(s@),
                None => None,
            },
            variant,
        ),
{
    let base = match stem {
        Some(s) => s,
        None => "wallpaper",
    };
    let name = String::from_str(base);
    let name = name.concat("-");
    let name = name.concat(variant.name());
    name.concat(".png")
}

/// The default name keeps the whole stem, followed by `-`, the variant's
/// name and `.png`; without a stem it is named `wallpaper`.
pub proof fn lemma_output_name_keeps_stem(stem: Seq<char>, variant: Variant)
    ensures
        spec_output_file_name(Some(stem), variant).len() == stem.len() + 1 + spec_variant_name(variant).len() + 4,
        spec_output_file_name(Some(stem), variant).subrange(0, stem.len() as int) == stem,
        spec_output_file_name(Some(stem), variant).skip(stem.len() as int) == "-"@ + spec_variant_name(variant)
            + ".png"@,
        spec_output_file_name(None, variant) == spec_output_file_name(Some("wallpaper"@), variant),
{
    reveal_strlit("-");
    reveal_strlit(".png");
    let name = spec_output_file_name(Some(stem), variant);
    let tail = "-"@ + spec_variant_name(variant) + ".png"@;
    assert(name =~= stem + tail);
    assert(name.subrange(0, stem.len() as int) =~= stem);
    assert(name.skip(stem.len() as int) =~= tail);
}

/// Different inputs never share a default output name: two different stems
/// with the same variant, or one stem with two different variants, give
/// different names.
pub proof fn lemma_output_names_distinct(s1: Seq<char>, s2: Seq<char>, v1: Variant, v2: Variant)
    requires
        (s1 != s2 && v1 == v2) || (s1 == s2 && v1 != v2),
    ensures
        spec_output_file_name(Some(s1), v1) != spec_output_file_name(Some(s2), v2),
{
    lemma_output_name_keeps_stem(s1, v1);
    lemma_output_name_keeps_stem(s2, v2);
    let n1 = spec_output_file_name(Some(s1), v1);
    let n2 = spec_output_file_name(Some(s2), v2);
    if n1 == n2 {
        reveal_strlit("-");
        reveal_strlit(".png");
        if v1 != v2 {
            lemma_variant_names_distinct(v1, v2);
            let a = spec_variant_name(v1);
            let b = spec_variant_name(v2);
            if a.len() == b.len() {
                assert(a =~= n1.skip(s1.len() as int).subrange(1, 1 + a.len() as int));
                assert(b =~= n2.skip(s2.len() as int).subrange(1, 1 + b.len() as int));
            }
        } else {
            assert(s1.len() == s2.len());
            assert(s1 =~= n1.subrange(0, s1.len() as int));
            assert(s2 =~= n2.subrange(0, s2.len() as int));
        }
    }
}

} // verus!
