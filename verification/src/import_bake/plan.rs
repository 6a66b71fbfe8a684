//! How an asset is made.
use vstd::prelude::*;
use crate::float::Float64;
use crate::gltf::codec::to_lower;
use crate::gltf::codec;
use crate::json::read;
use crate::native_path::PathStyle;
use crate::resource_path;
use crate::sorting;
use crate::text;
use super::names::{file_name_of, split_name};
use super::names;
use super::types::MeshSite;

verus! {

/// The bit pattern of the smallest number that counts as one.
pub const UNIT_LEAST: u64 = 0x3fef_ffff_ffff_dcd1;

/// The bit pattern of the largest number that counts as one.
pub const UNIT_MOST: u64 = 0x3ff0_0000_0000_1197;

/// Whether a number is one, but for less than a millionth of a millionth.
pub open spec fn is_unit(f: Float64) -> bool {
    UNIT_LEAST <= f.bits <= UNIT_MOST
}

/// The words of a text: the runs of characters that are no white space.
pub open spec fn words(text: Seq<char>) -> Seq<Seq<char>>
    decreases text.len(),
{
    if text.len() == 0 {
        Seq::empty()
    } else if text::is_whitespace(text[0]) {
        words(text.drop_first())
    } else {
        let end = resource_path::first_place(text, |c: char| text::is_whitespace(c));
        if 0 < end <= text.len() {
            seq![text.take(end as int)] + words(text.skip(end as int))
        } else {
            Seq::empty()
        }
    }
}

/// The numbers among the first `n` words.
pub open spec fn numbers_in(readings: read::FloatReadings, list: Seq<Seq<char>>, n: nat) -> Seq<
    Float64,
>
    decreases n,
{
    if n == 0 || n > list.len() {
        Seq::empty()
    } else {
        let before = numbers_in(readings, list, (n - 1) as nat);
        match readings(list[n - 1]) {
            Some(f) => before.push(f),
            None => before,
        }
    }
}

/// Whether all numbers of a list are one.
pub open spec fn all_units(numbers: Seq<Float64>) -> bool {
    forall|i: int| 0 <= i < numbers.len() ==> is_unit(#[trigger] numbers[i])
}

/// Whether a scale changes nothing: it is missing or blank, or all its numbers are one.
pub open spec fn is_identity_scale(readings: read::FloatReadings, scale: Option<Seq<char>>) -> bool {
    match scale {
        None => true,
        Some(s) => {
            let numbers = numbers_in(readings, words(s), words(s).len());
            text::is_blank(s) || (numbers.len() > 0 && all_units(numbers))
        },
    }
}

/// The words of a text.
fn split_words(s: &str) -> (r: Vec<String>)
    ensures
        sorting::text_views(r@) == words(s@),
{
    let cs = text::chars(s);
    let n: usize = cs.len();
    let ghost stop = |c: char| text::is_whitespace(c);
    let mut out: Vec<String> = Vec::new();
    let mut i: usize = 0;
    assert(s@.skip(0) =~= s@);
    assert(sorting::text_views(out@) + words(s@) =~= words(s@));
    while i < n
        invariant
            i <= n == cs@.len(),
            cs@ == s@,
            stop == (|c: char| text::is_whitespace(c)),
            sorting::text_views(out@) + words(s@.skip(i as int)) == words(s@),
        decreases n - i,
    {
        let ghost rest = s@.skip(i as int);
        assert(rest[0] == cs@[i as int]);
        if text::whitespace(cs[i]) {
            assert(rest.drop_first() =~= s@.skip(i + 1));
            i += 1;
        } else {
            let mut end: usize = i;
            while end < n && !text::whitespace(cs[end])
                invariant
                    i <= end <= n == cs@.len(),
                    cs@ == s@,
                    rest == s@.skip(i as int),
                    stop == (|c: char| text::is_whitespace(c)),
                    forall|k: int| 0 <= k < end - i ==> !stop(#[trigger] rest[k]),
                decreases n - end,
            {
                assert(rest[end - i] == cs@[end as int]);
                end += 1;
            }
            let word = text::text_of_range(cs.as_slice(), i, end);
            let ghost before = sorting::text_views(out@);
            let ghost shown = word@;
            proof {
                if end < n {
                    assert(rest[end - i] == cs@[end as int]);
                }
                resource_path::first_place_is(rest, stop, end - i);
                assert(shown =~= rest.take(end - i));
                assert(rest.skip(end - i) =~= s@.skip(end as int));
            }
            out.push(word);
            assert(sorting::text_views(out@) =~= before.push(shown));
            assert(sorting::text_views(out@) + words(s@.skip(end as int)) =~= before + words(rest));
            i = end;
        }
    }
    assert(words(s@.skip(n as int)) =~= Seq::empty());
    assert(sorting::text_views(out@) =~= words(s@));
    out
}

/// Whether a scale changes nothing. `parse` reads its numbers.
pub fn scale_is_none_or_identity<P: Fn(&str) -> Option<Float64>>(
    parse: &P,
    scale: Option<&str>,
) -> (r: bool)
    requires
        read::reads_floats(*parse),
    ensures
        r == is_identity_scale(
            read::readings_of(*parse),
            match scale {
                Some(s) => Some(s@),
                None => None,
            },
        ),
{
    let s: &str = match scale {
        Some(s) => s,
        None => {
            return true;
        },
    };
    if text::blank(s) {
        return true;
    }
    let list = split_words(s);
    let ghost readings = read::readings_of(*parse);
    let ghost all = words(s@);
    let ghost total = numbers_in(readings, all, all.len());
    let mut any: bool = false;
    let mut units: bool = true;
    let mut i: usize = 0;
    assert(all.len() == list@.len());
    while i < list.len()
        invariant
            i <= list@.len() == all.len(),
            read::reads_floats(*parse),
            readings == read::readings_of(*parse),
            all == sorting::text_views(list@),
            any == (numbers_in(readings, all, i as nat).len() > 0),
            units == all_units(numbers_in(readings, all, i as nat)),
        decreases list@.len() - i,
    {
        let ghost before = numbers_in(readings, all, i as nat);
        let number: Option<Float64> = read::read_float(parse, list[i].as_str());
        assert(all[i as int] == list@[i as int]@);
        if let Some(f) = number {
            let unit = UNIT_LEAST <= f.bits && f.bits <= UNIT_MOST;
            any = true;
            proof {
                let after = numbers_in(readings, all, (i + 1) as nat);
                assert(after == before.push(f));
                assert(after[before.len() as int] == f);
                assert forall|k: int| 0 <= k < before.len() implies #[trigger] before[k] == after[k] by {
                }
                if all_units(before) && unit {
                    assert forall|k: int| 0 <= k < after.len() implies is_unit(
                        #[trigger] after[k],
                    ) by {
                        if k < before.len() {
                            assert(is_unit(before[k]));
                        }
                    }
                }
                if all_units(after) {
                    assert forall|k: int| 0 <= k < before.len() implies is_unit(
                        #[trigger] before[k],
                    ) by {
                        assert(is_unit(after[k]));
                    }
                    assert(is_unit(after[before.len() as int]));
                }
            }
            units = units && unit;
        }
        i += 1;
    }
    any && units
}

/// How an asset is made.
#[derive(Debug, Clone, Copy, PartialEq, Eq, Structural)]
pub enum MeshPlan {
    /// The source is taken over as it is. The flag says that something asked for cannot be folded in.
    TakeOver { noted: bool },
    /// The source is converted.
    Convert,
}

/// How the asset of a mesh is made: a glTF source of a visual and an unscaled collision are taken over.
pub open spec fn planned(
    style: PathStyle,
    path: Seq<char>,
    site: MeshSite,
    unscaled: bool,
    colored: bool,
    textured: bool,
) -> MeshPlan {
    let ext = codec::lowered(names::name_extension(names::file_name(style, path)));
    let is_gltf = ext == "glb"@ || ext == "gltf"@;
    match site {
        MeshSite::Visual => if is_gltf {
            MeshPlan::TakeOver { noted: !unscaled || colored || textured }
        } else {
            MeshPlan::Convert
        },
        MeshSite::Collision => if unscaled {
            MeshPlan::TakeOver { noted: false }
        } else {
            MeshPlan::Convert
        },
    }
}

/// How the asset of a mesh is made.
pub fn mesh_plan(
    style: PathStyle,
    path: &str,
    site: MeshSite,
    unscaled: bool,
    colored: bool,
    textured: bool,
) -> (r: MeshPlan)
    ensures
        r == planned(style, path@, site, unscaled, colored, textured),
{
    let (_, ext) = split_name(file_name_of(style, path).as_str());
    let low = to_lower(ext.as_str());
    let is_gltf = text::same(low.as_str(), "glb") || text::same(low.as_str(), "gltf");
    match site {
        MeshSite::Visual => if is_gltf {
            MeshPlan::TakeOver { noted: !unscaled || colored || textured }
        } else {
            MeshPlan::Convert
        },
        MeshSite::Collision => if unscaled {
            MeshPlan::TakeOver { noted: false }
        } else {
            MeshPlan::Convert
        },
    }
}

/// What a plan has to say for itself.
pub open spec fn plan_notes_due(plan: MeshPlan) -> Seq<Seq<char>> {
    if plan == (MeshPlan::TakeOver { noted: true }) {
        seq![
            "GLB/glTF visual passed through (a .gltf packs to a self-contained GLB); its source mesh scale/colour/texture cannot be folded into an already-glTF source (re-author as a non-GLB mesh to bake them in)"@,
        ]
    } else {
        Seq::empty()
    }
}

/// What a plan has to say for itself.
pub fn plan_notes(plan: MeshPlan) -> (r: Vec<String>)
    ensures
        sorting::text_views(r@) == plan_notes_due(plan),
{
    let mut out: Vec<String> = Vec::new();
    if let MeshPlan::TakeOver { noted: true } = plan {
        out.push(
            "GLB/glTF visual passed through (a .gltf packs to a self-contained GLB); its source mesh scale/colour/texture cannot be folded into an already-glTF source (re-author as a non-GLB mesh to bake them in)".to_owned(),
        );
    }
    assert(sorting::text_views(out@) =~= plan_notes_due(plan));
    out
}

/// What is noted of a texture that is not folded into a mesh: it could not be found, or could not be
/// read for the reason given.
pub open spec fn texture_note_due(texture: Seq<char>, error: Option<Seq<char>>) -> Seq<char> {
    match error {
        None => "texture "@ + text::debug_chars(texture)
            + " could not be resolved (pass --package PKG=PATH / check the path); flat colour used"@,
        Some(e) => "texture "@ + text::debug_chars(texture) + " could not be read ("@ + e
            + "); flat colour used"@,
    }
}

/// What is noted of a texture that is not folded into a mesh.
pub fn texture_note(texture: &str, error: Option<&str>) -> (r: String)
    ensures
        r@ == texture_note_due(
            texture@,
            match error {
                Some(e) => Some(e@),
                None => None,
            },
        ),
{
    let mut out: String = "texture ".to_owned();
    out.append(text::debug_text(texture).as_str());
    match error {
        None => {
            out.append(
                " could not be resolved (pass --package PKG=PATH / check the path); flat colour used",
            );
        },
        Some(e) => {
            out.append(" could not be read (");
            out.append(e);
            out.append("); flat colour used");
        },
    }
    out
}

} // verus!
