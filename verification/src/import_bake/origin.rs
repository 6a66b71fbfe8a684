//! Where the assets of a bake come from, and what was asked of their makers.
use vstd::prelude::*;
use crate::gltf::codec;
use crate::model::{Collision, Comp, Hcdf, Mesh, ModelRef, Visual, VisualAppearance};
use crate::remote;
use crate::text;
use super::asset;
use super::env;
use super::names;
use super::plan;
use super::plan::MeshPlan;
use super::types::{AssetView, MeshSite, SpecView, TextureView, VisualAssetHint, WriteFaultView};
use super::types;
use super::walk::Tally;
use super::walk;
use super::workshop::{Made, Workings};
use super::workshop;

verus! {

// Meshes.

/// Whether a texture may be what an address leads to, with the name that it is given.
pub open spec fn is_texture_of(w: Workings, uri: Seq<char>, name: Seq<char>, t: TextureView) -> bool {
    t.name == name && exists|path: Seq<char>| #[trigger]
        workshop::may_look_up(w, uri, Some(path)) && workshop::may_read(w, path, Ok(t.bytes))
}

/// Whether an asset may have been written, under the name that its source and its digest give it.
pub open spec fn is_written(
    w: Workings,
    path: Seq<char>,
    made: AssetView,
    name: Seq<char>,
    sha: Seq<char>,
) -> bool {
    let stem = names::safe_name(names::name_stem(names::file_name(w.style, path)));
    sha == made.sha && name == names::asset_file(stem, made.sha, made.ext) && exists|r: Result<(), WriteFaultView>| #[trigger]
        workshop::may_write(w, name, made.data, r) && r is Ok
}

/// Whether a source at a path may have been converted, as asked for, to an asset that was then written.
/// The texture that the converter is given is the one that is asked for, or none.
pub open spec fn is_converted(
    w: Workings,
    path: Seq<char>,
    asked: SpecView,
    name: Seq<char>,
    sha: Seq<char>,
) -> bool {
    exists|texture: Option<TextureView>, made: AssetView| #[trigger]
        workshop::may_convert(w, path, asked, texture, Ok(made)) && is_written(w, path, made, name, sha) && (
        texture matches Some(t) ==> asked.texture matches Some(uri) && is_texture_of(w, uri, uri, t))
}

/// Whether the name of a file says that it is glTF.
pub open spec fn says_gltf(w: Workings, path: Seq<char>) -> bool {
    let ext = codec::lowered(names::name_extension(names::file_name(w.style, path)));
    ext == "glb"@ || ext == "gltf"@
}

/// Whether an asset may have been made of the source at an address, for what was asked: the source was
/// converted as asked, or taken over, which happens to glTF for visuals and to meshes for collisions
/// that no scale changes.
pub open spec fn is_made_of(
    w: Workings,
    uri: Seq<char>,
    asked: SpecView,
    name: Seq<char>,
    sha: Seq<char>,
) -> bool {
    exists|path: Seq<char>| #[trigger]
        workshop::may_look_up(w, uri, Some(path)) && (if is_taken_over(w, path, asked) {
            workshop::may_take_over(w, path, asked.site, Ok((name, sha)))
        } else {
            is_converted(w, path, asked, name, sha)
        })
}

/// Whether a source is taken over as it is.
pub open spec fn is_taken_over(w: Workings, path: Seq<char>, asked: SpecView) -> bool {
    (asked.site is Visual && says_gltf(w, path)) || (asked.site is Collision
        && plan::is_identity_scale(w.readings, asked.scale))
}

proof fn texture_is_the_one_asked_for(
    w: Workings,
    texture: Option<Seq<char>>,
    place: Seq<char>,
    before: Seq<Seq<char>>,
    after: Seq<Seq<char>>,
    found: Option<TextureView>,
)
    requires
        asset::texture_found(w, texture, place, before, after, found),
        found is Some,
    ensures
        texture matches Some(uri) && is_texture_of(w, uri, uri, found->0),
{
    let uri = texture->0;
    assert(asset::texture_looked_up(w, uri, place, before, after, found));
    let path = choose|path: Option<Seq<char>>| #[trigger]
        workshop::may_look_up(w, uri, path) && asset::texture_at(
            w,
            path,
            uri,
            place,
            before,
            after,
            found,
        );
    let p = path->0;
    assert(asset::texture_opened(w, p, uri, place, before, after, found));
    let bytes = choose|bytes: Result<Seq<u8>, Seq<char>>| #[trigger]
        workshop::may_read(w, p, bytes) && asset::texture_read(bytes, uri, place, before, after, found);
    assert(workshop::may_look_up(w, uri, Some(p)));
    assert(bytes == Ok::<Seq<u8>, Seq<char>>(found->0.bytes));
}

proof fn conversion_is_as_asked(
    w: Workings,
    path: Seq<char>,
    asked: SpecView,
    place: Seq<char>,
    before: Seq<Seq<char>>,
    after: Seq<Seq<char>>,
    made: Made,
)
    requires
        asset::mesh_textured(w, path, asked, place, before, after, made),
        made is Ok,
    ensures
        is_converted(w, path, asked, made->Ok_0.0, made->Ok_0.1),
{
    let (texture, mid) = choose|texture: Option<TextureView>, mid: Seq<Seq<char>>| #[trigger]
        asset::texture_found(w, asked.texture, place, before, mid, texture) && asset::mesh_converted(
            w,
            path,
            asked,
            texture,
            place,
            mid,
            after,
            made,
        );
    if texture is Some {
        texture_is_the_one_asked_for(w, asked.texture, place, before, mid, texture);
    }
    let stem = names::safe_name(names::name_stem(names::file_name(w.style, path)));
    let r = choose|r: Result<AssetView, Seq<char>>| #[trigger]
        workshop::may_convert(w, path, asked, texture, r) && match r {
            Ok(converted) => after == mid + asset::placed(place, converted.notes)
                && asset::asset_written(w, stem, converted, made),
            Err(e) => after == mid && made == Err::<(Seq<char>, Seq<char>), Seq<char>>(e),
        };
    let converted = r->Ok_0;
    let name = names::asset_file(stem, converted.sha, converted.ext);
    let written = choose|written: Result<(), WriteFaultView>| #[trigger]
        workshop::may_write(w, name, converted.data, written) && made == asset::made_of(
            name,
            converted.sha,
            written,
        );
    assert(written is Ok);
    assert(is_written(w, path, converted, made->Ok_0.0, made->Ok_0.1));
    assert(workshop::may_convert(w, path, asked, texture, Ok(converted)));
}

/// The asset of a mesh is made of the source at its address, and its maker was asked for exactly what was
/// asked of the bake.
pub proof fn an_asset_is_made_as_asked(
    w: Workings,
    uri: Seq<char>,
    asked: SpecView,
    place: Seq<char>,
    before: Seq<Seq<char>>,
    after: Seq<Seq<char>>,
    asset: Option<(Seq<char>, Seq<char>)>,
)
    requires
        asset::mesh_baked(w, uri, asked, place, before, after, asset),
        asset is Some,
    ensures
        is_made_of(w, uri, asked, (asset->0).0, (asset->0).1),
{
    let path = choose|path: Option<Seq<char>>| #[trigger]
        workshop::may_look_up(w, uri, path) && asset::mesh_at(
            w,
            path,
            uri,
            asked,
            place,
            before,
            after,
            asset,
        );
    let p = path->0;
    assert(workshop::may_look_up(w, uri, Some(p)));
    assert(asset::mesh_found(w, p, uri, asked, place, before, after, asset));
    let (mid, made) = choose|mid: Seq<Seq<char>>, made: Made| #[trigger]
        asset::mesh_resolved(w, p, asked, place, before, mid, made) && asset::mesh_kept(
            made,
            uri,
            place,
            mid,
            after,
            asset,
        );
    assert(made is Ok);
    match asset::plan_of(w, p, asked) {
        MeshPlan::TakeOver { .. } => {
            assert(asset::mesh_taken_over(w, p, asked.site, made));
            let r = choose|r: Made| #[trigger]
                workshop::may_take_over(w, p, asked.site, r) && made == match r {
                    Ok(a) => Ok::<(Seq<char>, Seq<char>), Seq<char>>(a),
                    Err(e) => Err("copy failed: "@ + e),
                };
            assert(r == Ok::<(Seq<char>, Seq<char>), Seq<char>>(((asset->0).0, (asset->0).1)));
            assert(is_taken_over(w, p, asked));
        },
        MeshPlan::Convert => {
            conversion_is_as_asked(w, p, asked, place, before, mid, made);
            assert(!is_taken_over(w, p, asked));
        },
    }
}

/// What is asked of a glTF source of a visual that is taken over is noted, for it cannot be folded in; where
/// nothing is asked, nothing is noted.
pub proof fn what_is_not_folded_in_is_noted(
    w: Workings,
    uri: Seq<char>,
    path: Seq<char>,
    asked: SpecView,
    place: Seq<char>,
    before: Seq<Seq<char>>,
    after: Seq<Seq<char>>,
    asset: Option<(Seq<char>, Seq<char>)>,
)
    requires
        asset::mesh_baked(w, uri, asked, place, before, after, asset),
        asset is Some,
        asked.site is Visual,
        forall|found: Option<Seq<char>>| #[trigger]
            workshop::may_look_up(w, uri, found) ==> found == Some(path),
        says_gltf(w, path),
    ensures
        plan::is_identity_scale(w.readings, asked.scale) && asked.color is None && asked.texture is None
            ==> after == before,
        !(plan::is_identity_scale(w.readings, asked.scale) && asked.color is None
            && asked.texture is None) ==> after.len() == before.len() + 1 && before.is_prefix_of(after)
            && text::starts_with(after.last(), place),
{
    let found = choose|found: Option<Seq<char>>| #[trigger]
        workshop::may_look_up(w, uri, found) && asset::mesh_at(
            w,
            found,
            uri,
            asked,
            place,
            before,
            after,
            asset,
        );
    assert(found == Some(path));
    assert(asset::mesh_found(w, path, uri, asked, place, before, after, asset));
    let (mid, made) = choose|mid: Seq<Seq<char>>, made: Made| #[trigger]
        asset::mesh_resolved(w, path, asked, place, before, mid, made) && asset::mesh_kept(
            made,
            uri,
            place,
            mid,
            after,
            asset,
        );
    let noted = asset::placed(place, plan::plan_notes_due(asset::plan_of(w, path, asked)));
    assert(after == before + noted);
    if noted.len() == 0 {
        assert(before + noted =~= before);
    } else {
        assert(after.last() == noted.last());
        assert(after.last().take(place.len() as int) =~= place);
        assert(before =~= after.take(before.len() as int));
    }
}

// Boxes.

/// Whether an asset may have been made of a box of a size by putting on it the texture at an address.
pub open spec fn is_box_with(
    w: Workings,
    size: Seq<char>,
    uri: Seq<char>,
    name: Seq<char>,
    sha: Seq<char>,
) -> bool {
    exists|texture: TextureView, made: AssetView| #[trigger]
        workshop::may_dress_box(w, size, texture, Ok(made)) && is_written(w, texture.name, made, name, sha)
            && is_texture_of(w, uri, texture.name, texture)
}

/// The asset of a primitive is made of its box, which has the size that it has in the document, and of the
/// texture that was asked for.
pub proof fn a_box_is_dressed_as_asked(
    w: Workings,
    size: Option<Seq<char>>,
    uri: Seq<char>,
    place: Seq<char>,
    before: Seq<Seq<char>>,
    after: Seq<Seq<char>>,
    asset: Option<(Seq<char>, Seq<char>)>,
)
    requires
        asset::box_baked(w, size, uri, place, before, after, asset),
        asset is Some,
    ensures
        size is Some,
        is_box_with(w, size->0, uri, (asset->0).0, (asset->0).1),
{
    let extents = size->0;
    assert(asset::box_looked_up(w, extents, uri, place, before, after, asset));
    let path = choose|path: Option<Seq<char>>| #[trigger]
        workshop::may_look_up(w, uri, path) && asset::box_at(
            w,
            path,
            extents,
            uri,
            place,
            before,
            after,
            asset,
        );
    let p = path->0;
    assert(workshop::may_look_up(w, uri, Some(p)));
    assert(asset::box_opened(w, p, extents, uri, place, before, after, asset));
    let bytes = choose|bytes: Result<Seq<u8>, Seq<char>>| #[trigger]
        workshop::may_read(w, p, bytes) && asset::box_read(
            w,
            bytes,
            p,
            extents,
            uri,
            place,
            before,
            after,
            asset,
        );
    let texture = TextureView { bytes: bytes->Ok_0, name: p };
    assert(workshop::may_read(w, p, Ok(texture.bytes)));
    assert(is_texture_of(w, uri, texture.name, texture));
    assert(asset::box_textured(w, texture, extents, uri, place, before, after, asset));
    let r = choose|r: Result<AssetView, Seq<char>>| #[trigger]
        workshop::may_dress_box(w, extents, texture, r) && asset::box_dressed(
            w,
            r,
            texture.name,
            uri,
            place,
            before,
            after,
            asset,
        );
    let converted = r->Ok_0;
    let stem = names::safe_name(names::name_stem(names::file_name(w.style, p)));
    assert(asset::box_written(w, converted, p, uri, place, before, after, asset));
    let made = choose|made: Made| #[trigger]
        asset::asset_written(w, stem, converted, made) && asset::box_kept(
            made,
            uri,
            place,
            before,
            after,
            asset,
        );
    let name = names::asset_file(stem, converted.sha, converted.ext);
    let written = choose|written: Result<(), WriteFaultView>| #[trigger]
        workshop::may_write(w, name, converted.data, written) && made == asset::made_of(
            name,
            converted.sha,
            written,
        );
    assert(written is Ok);
    assert(is_written(w, p, converted, (asset->0).0, (asset->0).1));
    assert(workshop::may_dress_box(w, extents, texture, Ok(converted)));
}

// Hints.

/// Whether a hint is about a visual.
pub open spec fn is_about(hint: VisualAssetHint, comp: Seq<char>, visual: Seq<char>) -> bool {
    hint.comp@ == comp && hint.visual@ == visual
}

/// Whether a place in a list of hints is that of the last hint about a visual.
pub open spec fn is_last_about(
    hints: Seq<VisualAssetHint>,
    at: int,
    comp: Seq<char>,
    visual: Seq<char>,
) -> bool {
    0 <= at < hints.len() && is_about(hints[at], comp, visual) && forall|k: int|
        at < k < hints.len() ==> !is_about(#[trigger] hints[k], comp, visual)
}

/// Whether no hint of a list is about a visual.
pub open spec fn none_about(hints: Seq<VisualAssetHint>, comp: Seq<char>, visual: Seq<char>) -> bool {
    forall|k: int| 0 <= k < hints.len() ==> !is_about(#[trigger] hints[k], comp, visual)
}

proof fn last_hint_counts(
    hints: Seq<VisualAssetHint>,
    comp: Seq<char>,
    visual: Seq<char>,
    at: int,
    n: nat,
)
    requires
        is_last_about(hints, at, comp, visual),
        at < n <= hints.len(),
    ensures
        walk::hint_for(hints, comp, visual, n) == Some(hints[at]),
    decreases n,
{
    if at < n - 1 {
        assert(!is_about(hints[n - 1], comp, visual));
        last_hint_counts(hints, comp, visual, at, (n - 1) as nat);
    }
}

proof fn no_hint_counts(hints: Seq<VisualAssetHint>, comp: Seq<char>, visual: Seq<char>, n: nat)
    requires
        none_about(hints, comp, visual),
        n <= hints.len(),
    ensures
        walk::hint_for(hints, comp, visual, n) is None,
    decreases n,
{
    if n > 0 {
        assert(!is_about(hints[n - 1], comp, visual));
        no_hint_counts(hints, comp, visual, (n - 1) as nat);
    }
}

// Walks.

proof fn each_step_is_taken(
    n: nat,
    step: spec_fn(int, Tally, Tally) -> bool,
    start: Tally,
    end: Tally,
    k: int,
) -> (r: (Tally, Tally))
    requires
        walk::walked(n, step, start, end),
        0 <= k < n,
    ensures
        step(k, r.0, r.1),
    decreases n,
{
    let mid = choose|mid: Tally|
        walk::walked((n - 1) as nat, step, start, mid) && #[trigger] step(n - 1, mid, end);
    if k == n - 1 {
        (mid, end)
    } else {
        each_step_is_taken((n - 1) as nat, step, start, mid, k)
    }
}

proof fn comp_is_walked(
    w: Workings,
    hints: Seq<VisualAssetHint>,
    prefix: Seq<char>,
    before: Hcdf,
    after: Hcdf,
    notes: Seq<Seq<char>>,
    end: Tally,
    k: int,
) -> (r: (Tally, Tally))
    requires
        walk::document_baked(w, hints, prefix, before, after, notes, end),
        0 <= k < before.comp@.len(),
    ensures
        walk::comp_step(w, hints, prefix, before.comp@[k], after.comp@[k], r.0, r.1),
{
    let step = walk::comp_steps(w, hints, prefix, before.comp@, after.comp@);
    let start = Tally { notes, baked: Seq::empty() };
    each_step_is_taken(before.comp@.len(), step, start, end, k)
}

proof fn visual_is_walked(
    w: Workings,
    hints: Seq<VisualAssetHint>,
    prefix: Seq<char>,
    before: Comp,
    after: Comp,
    start: Tally,
    end: Tally,
    j: int,
) -> (r: (Tally, Tally))
    requires
        walk::comp_step(w, hints, prefix, before, after, start, end),
        0 <= j < before.visual@.len(),
    ensures
        walk::visual_step(
            w,
            hints,
            prefix,
            before.name@,
            before.visual@[j],
            after.visual@[j],
            r.0,
            r.1,
        ),
{
    let step = walk::visual_steps(w, hints, prefix, before.name@, before.visual@, after.visual@);
    let mid = choose|mid: Tally|
        #![trigger walk::walked(before.visual@.len(), step, start, mid)]
        walk::walked(before.visual@.len(), step, start, mid) && walk::walked(
            before.collision@.len(),
            walk::collision_steps(w, prefix, before.name@, before.collision@, after.collision@),
            mid,
            end,
        );
    each_step_is_taken(before.visual@.len(), step, start, mid, j)
}

proof fn collision_is_walked(
    w: Workings,
    hints: Seq<VisualAssetHint>,
    prefix: Seq<char>,
    before: Comp,
    after: Comp,
    start: Tally,
    end: Tally,
    j: int,
) -> (r: (Tally, Tally))
    requires
        walk::comp_step(w, hints, prefix, before, after, start, end),
        0 <= j < before.collision@.len(),
    ensures
        walk::collision_step(
            w,
            prefix,
            before.name@,
            before.collision@[j],
            after.collision@[j],
            r.0,
            r.1,
        ),
{
    let first = walk::visual_steps(w, hints, prefix, before.name@, before.visual@, after.visual@);
    let second = walk::collision_steps(w, prefix, before.name@, before.collision@, after.collision@);
    let mid = choose|mid: Tally|
        #![trigger walk::walked(before.visual@.len(), first, start, mid)]
        walk::walked(before.visual@.len(), first, start, mid) && walk::walked(
            before.collision@.len(),
            second,
            mid,
            end,
        );
    each_step_is_taken(before.collision@.len(), second, mid, end, j)
}

/// Whether an address is one that a bake reaches for: it is given, has more than white space, and does not
/// lead to the web.
pub open spec fn is_local(uri: Option<String>) -> bool {
    uri is Some && !text::is_blank(uri->0@) && !remote::is_remote(uri->0@)
}

/// The model of a visual.
pub open spec fn model_of(visual: Visual) -> Option<ModelRef> {
    match visual.appearance {
        VisualAppearance::Model { model, .. } => Some(model),
        VisualAppearance::Primitive { .. } => None,
    }
}

/// Whether a visual shows an asset, and is otherwise what it was.
pub open spec fn shows(before: Visual, after: Visual, uri: Seq<char>, sha: Seq<char>) -> bool {
    &&& model_of(after) matches Some(model)
    &&& model.uri is Some && model.uri->0@ == uri
    &&& model.sha is Some && model.sha->0@ == sha
    &&& after.name@ == before.name@
    &&& after.pose == before.pose
    &&& after.toggle == before.toggle
}

/// The asset that a bake gives a visual with a model comes from the source that the model names, and a
/// converter is asked for the scale, the color and the texture that the last hint about the visual gives,
/// each as it is given. The visual then shows the asset.
pub proof fn a_hint_reaches_the_converter(
    w: Workings,
    hints: Seq<VisualAssetHint>,
    prefix: Seq<char>,
    before: Hcdf,
    after: Hcdf,
    notes: Seq<Seq<char>>,
    end: Tally,
    k: int,
    j: int,
    at: int,
)
    requires
        walk::document_baked(w, hints, prefix, before, after, notes, end),
        0 <= k < before.comp@.len(),
        0 <= j < before.comp@[k].visual@.len(),
        model_of(before.comp@[k].visual@[j]) is Some,
        is_last_about(hints, at, before.comp@[k].name@, before.comp@[k].visual@[j].name@),
        after.comp@[k].visual@[j] != before.comp@[k].visual@[j],
    ensures
        is_local(model_of(before.comp@[k].visual@[j])->0.uri),
        exists|name: Seq<char>, sha: Seq<char>|
            shows(
                before.comp@[k].visual@[j],
                after.comp@[k].visual@[j],
                env::asset_uri(prefix, name),
                sha,
            ) && #[trigger] is_made_of(
                w,
                model_of(before.comp@[k].visual@[j])->0.uri->0@,
                (SpecView {
                    scale: types::option_view(hints[at].scale),
                    color: types::option_view(hints[at].color),
                    texture: types::option_view(hints[at].texture),
                    site: MeshSite::Visual,
                }),
                name,
                sha,
            ),
{
    let comp = before.comp@[k];
    let visual = comp.visual@[j];
    let asked = SpecView {
        scale: types::option_view(hints[at].scale),
        color: types::option_view(hints[at].color),
        texture: types::option_view(hints[at].texture),
        site: MeshSite::Visual,
    };
    last_hint_counts(hints, comp.name@, visual.name@, at, hints.len());
    a_model_is_baked(w, hints, prefix, before, after, notes, end, k, j, asked);
}

/// The asset that a bake gives a visual with a model that no hint is about comes from the source that the
/// model names, and a converter is asked for no scale, no color and no texture.
pub proof fn without_a_hint_nothing_is_asked(
    w: Workings,
    hints: Seq<VisualAssetHint>,
    prefix: Seq<char>,
    before: Hcdf,
    after: Hcdf,
    notes: Seq<Seq<char>>,
    end: Tally,
    k: int,
    j: int,
)
    requires
        walk::document_baked(w, hints, prefix, before, after, notes, end),
        0 <= k < before.comp@.len(),
        0 <= j < before.comp@[k].visual@.len(),
        model_of(before.comp@[k].visual@[j]) is Some,
        none_about(hints, before.comp@[k].name@, before.comp@[k].visual@[j].name@),
        after.comp@[k].visual@[j] != before.comp@[k].visual@[j],
    ensures
        is_local(model_of(before.comp@[k].visual@[j])->0.uri),
        exists|name: Seq<char>, sha: Seq<char>|
            shows(
                before.comp@[k].visual@[j],
                after.comp@[k].visual@[j],
                env::asset_uri(prefix, name),
                sha,
            ) && #[trigger] is_made_of(
                w,
                model_of(before.comp@[k].visual@[j])->0.uri->0@,
                (SpecView { scale: None, color: None, texture: None, site: MeshSite::Visual }),
                name,
                sha,
            ),
{
    let comp = before.comp@[k];
    let visual = comp.visual@[j];
    let asked = SpecView { scale: None, color: None, texture: None, site: MeshSite::Visual };
    no_hint_counts(hints, comp.name@, visual.name@, hints.len());
    a_model_is_baked(w, hints, prefix, before, after, notes, end, k, j, asked);
}

proof fn a_model_is_baked(
    w: Workings,
    hints: Seq<VisualAssetHint>,
    prefix: Seq<char>,
    before: Hcdf,
    after: Hcdf,
    notes: Seq<Seq<char>>,
    end: Tally,
    k: int,
    j: int,
    asked: SpecView,
)
    requires
        walk::document_baked(w, hints, prefix, before, after, notes, end),
        0 <= k < before.comp@.len(),
        0 <= j < before.comp@[k].visual@.len(),
        model_of(before.comp@[k].visual@[j]) is Some,
        ({
            let hint = walk::hint_for(
                hints,
                before.comp@[k].name@,
                before.comp@[k].visual@[j].name@,
                hints.len(),
            );
            &&& asked.site is Visual
            &&& asked.scale == (match hint {
                Some(h) => types::option_view(h.scale),
                None => None,
            })
            &&& asked.color == (match hint {
                Some(h) => types::option_view(h.color),
                None => None,
            })
            &&& asked.texture == (match hint {
                Some(h) => types::option_view(h.texture),
                None => None,
            })
        }),
        after.comp@[k].visual@[j] != before.comp@[k].visual@[j],
    ensures
        is_local(model_of(before.comp@[k].visual@[j])->0.uri),
        exists|name: Seq<char>, sha: Seq<char>|
            shows(
                before.comp@[k].visual@[j],
                after.comp@[k].visual@[j],
                env::asset_uri(prefix, name),
                sha,
            ) && #[trigger] is_made_of(
                w,
                model_of(before.comp@[k].visual@[j])->0.uri->0@,
                asked,
                name,
                sha,
            ),
{
    let comp = before.comp@[k];
    let visual = comp.visual@[j];
    let now = after.comp@[k].visual@[j];
    let (a, b) = comp_is_walked(w, hints, prefix, before, after, notes, end, k);
    let (start, stop) = visual_is_walked(w, hints, prefix, comp, after.comp@[k], a, b, j);
    let turn = walk::visual_turn(
        visual,
        walk::hint_for(hints, comp.name@, visual.name@, hints.len()),
    );
    assert(turn is Mesh);
    let uri = turn->uri;
    assert(turn->spec == asked);
    let place = walk::visual_place(comp.name@, visual.name@);
    assert(walk::visual_meshed(w, uri, asked, prefix, comp.name@, visual, now, start, stop));
    let asset = choose|asset: Option<(Seq<char>, Seq<char>)>| #[trigger]
        asset::mesh_baked(w, uri, asked, place, start.notes, stop.notes, asset) && walk::visual_takes(
            prefix,
            comp.name@,
            visual,
            now,
            start,
            stop,
            asset,
        );
    an_asset_is_made_as_asked(w, uri, asked, place, start.notes, stop.notes, asset);
    let (name, sha) = asset->0;
    assert(is_made_of(w, uri, asked, name, sha));
    assert(shows(visual, now, env::asset_uri(prefix, name), sha));
}

/// A primitive that a bake turns into a model has a box and a texture that the last hint about it gives; the
/// asset is made of the box in its size and of that texture.
pub proof fn a_hint_dresses_a_box(
    w: Workings,
    hints: Seq<VisualAssetHint>,
    prefix: Seq<char>,
    before: Hcdf,
    after: Hcdf,
    notes: Seq<Seq<char>>,
    end: Tally,
    k: int,
    j: int,
    at: int,
)
    requires
        walk::document_baked(w, hints, prefix, before, after, notes, end),
        0 <= k < before.comp@.len(),
        0 <= j < before.comp@[k].visual@.len(),
        model_of(before.comp@[k].visual@[j]) is None,
        is_last_about(hints, at, before.comp@[k].name@, before.comp@[k].visual@[j].name@),
        after.comp@[k].visual@[j] != before.comp@[k].visual@[j],
    ensures
        hints[at].texture is Some,
        before.comp@[k].visual@[j].appearance matches VisualAppearance::Primitive { geometry, .. }
            && geometry is Some && geometry->0.box_ is Some && geometry->0.box_->0.size is Some && exists|
            name: Seq<char>,
            sha: Seq<char>,
        |
            shows(
                before.comp@[k].visual@[j],
                after.comp@[k].visual@[j],
                env::asset_uri(prefix, name),
                sha,
            ) && #[trigger] is_box_with(
                w,
                geometry->0.box_->0.size->0@,
                hints[at].texture->0@,
                name,
                sha,
            ),
{
    let comp = before.comp@[k];
    let visual = comp.visual@[j];
    let now = after.comp@[k].visual@[j];
    last_hint_counts(hints, comp.name@, visual.name@, at, hints.len());
    let (a, b) = comp_is_walked(w, hints, prefix, before, after, notes, end, k);
    let (start, stop) = visual_is_walked(w, hints, prefix, comp, after.comp@[k], a, b, j);
    let turn = walk::visual_turn(
        visual,
        walk::hint_for(hints, comp.name@, visual.name@, hints.len()),
    );
    assert(turn is Primitive);
    let size = turn->size;
    let texture = turn->texture;
    let place = walk::visual_place(comp.name@, visual.name@);
    assert(walk::visual_textured(
        w,
        size,
        texture,
        prefix,
        comp.name@,
        visual,
        now,
        start,
        stop,
    ));
    let asset = choose|asset: Option<(Seq<char>, Seq<char>)>| #[trigger]
        asset::box_baked(w, size, texture, place, start.notes, stop.notes, asset)
            && walk::visual_takes(prefix, comp.name@, visual, now, start, stop, asset);
    a_box_is_dressed_as_asked(w, size, texture, place, start.notes, stop.notes, asset);
    let (name, sha) = asset->0;
    assert(is_box_with(w, size->0, texture, name, sha));
    assert(shows(visual, now, env::asset_uri(prefix, name), sha));
}

/// A visual stays what it is where its model names no source that a bake reaches for, and where it is a
/// primitive that no hint gives a texture.
pub proof fn other_visuals_stay(
    w: Workings,
    hints: Seq<VisualAssetHint>,
    prefix: Seq<char>,
    before: Hcdf,
    after: Hcdf,
    notes: Seq<Seq<char>>,
    end: Tally,
    k: int,
    j: int,
)
    requires
        walk::document_baked(w, hints, prefix, before, after, notes, end),
        0 <= k < before.comp@.len(),
        0 <= j < before.comp@[k].visual@.len(),
        match model_of(before.comp@[k].visual@[j]) {
            Some(model) => !is_local(model.uri),
            None => forall|at: int|
                0 <= at < hints.len() && is_about(
                    #[trigger] hints[at],
                    before.comp@[k].name@,
                    before.comp@[k].visual@[j].name@,
                ) ==> hints[at].texture is None,
        },
    ensures
        after.comp@[k].visual@[j] == before.comp@[k].visual@[j],
{
    let comp = before.comp@[k];
    let visual = comp.visual@[j];
    let (a, b) = comp_is_walked(w, hints, prefix, before, after, notes, end, k);
    let (start, stop) = visual_is_walked(w, hints, prefix, comp, after.comp@[k], a, b, j);
    if model_of(visual) is None {
        textureless_hints(hints, comp.name@, visual.name@, hints.len());
    }
}

proof fn textureless_hints(
    hints: Seq<VisualAssetHint>,
    comp: Seq<char>,
    visual: Seq<char>,
    n: nat,
)
    requires
        n <= hints.len(),
        forall|at: int|
            0 <= at < hints.len() && is_about(#[trigger] hints[at], comp, visual)
                ==> hints[at].texture is None,
    ensures
        walk::hint_for(hints, comp, visual, n) matches Some(h) ==> h.texture is None,
    decreases n,
{
    if n > 0 {
        textureless_hints(hints, comp, visual, (n - 1) as nat);
        let last = hints[n - 1];
        assert(is_about(last, comp, visual) ==> last.texture is None);
    }
}

/// The asset that a bake gives a collision comes from the source that its mesh names, and a converter is
/// asked for the scale of the mesh and for no color and no texture. The mesh then names the asset, and no
/// scale any more; all else of the collision stays.
pub proof fn a_collision_keeps_its_scale(
    w: Workings,
    hints: Seq<VisualAssetHint>,
    prefix: Seq<char>,
    before: Hcdf,
    after: Hcdf,
    notes: Seq<Seq<char>>,
    end: Tally,
    k: int,
    j: int,
)
    requires
        walk::document_baked(w, hints, prefix, before, after, notes, end),
        0 <= k < before.comp@.len(),
        0 <= j < before.comp@[k].collision@.len(),
        after.comp@[k].collision@[j] != before.comp@[k].collision@[j],
    ensures
        ({
            let old_one = before.comp@[k].collision@[j];
            let new_one = after.comp@[k].collision@[j];
            &&& old_one.geometry is Some && old_one.geometry->0.mesh is Some
            &&& new_one.geometry is Some && new_one.geometry->0.mesh is Some
            &&& is_local(old_one.geometry->0.mesh->0.uri)
            &&& new_one.geometry->0.mesh->0.scale is None
            &&& new_one.geometry->0.mesh->0.uri is Some
            &&& new_one.geometry->0.mesh->0.sha is Some
            &&& new_one.name == old_one.name
            &&& new_one.pose == old_one.pose
            &&& new_one.surface == old_one.surface
            &&& exists|name: Seq<char>, sha: Seq<char>|
                new_one.geometry->0.mesh->0.uri->0@ == env::asset_uri(prefix, name)
                    && new_one.geometry->0.mesh->0.sha->0@ == sha && #[trigger] is_made_of(
                    w,
                    old_one.geometry->0.mesh->0.uri->0@,
                    (SpecView {
                        scale: types::option_view(old_one.geometry->0.mesh->0.scale),
                        color: None,
                        texture: None,
                        site: MeshSite::Collision,
                    }),
                    name,
                    sha,
                )
        }),
{
    let comp = before.comp@[k];
    let collision = comp.collision@[j];
    let now = after.comp@[k].collision@[j];
    let (a, b) = comp_is_walked(w, hints, prefix, before, after, notes, end, k);
    let (start, stop) = collision_is_walked(w, hints, prefix, comp, after.comp@[k], a, b, j);
    let turn = walk::collision_turn(collision);
    assert(turn is Mesh);
    let uri = turn->uri;
    let asked = SpecView {
        scale: types::option_view(collision.geometry->0.mesh->0.scale),
        color: None,
        texture: None,
        site: MeshSite::Collision,
    };
    assert(turn->spec == asked);
    let place = walk::collision_place(comp.name@, types::option_view(collision.name));
    assert(walk::collision_meshed(w, uri, asked, prefix, comp.name@, collision, now, start, stop));
    let asset = choose|asset: Option<(Seq<char>, Seq<char>)>| #[trigger]
        asset::mesh_baked(w, uri, asked, place, start.notes, stop.notes, asset)
            && walk::collision_takes(prefix, collision, now, asset) && stop.baked == start.baked;
    an_asset_is_made_as_asked(w, uri, asked, place, start.notes, stop.notes, asset);
    let (name, sha) = asset->0;
    assert(is_made_of(w, uri, asked, name, sha));
}

} // verus!
