//! What holds of every bake.
use vstd::prelude::*;
use crate::model::{Collision, Comp, Hcdf, Visual};
use crate::sorting;
use crate::text;
use super::asset;
use super::names;
use super::plan::MeshPlan;
use super::types::{AssetView, MeshSite, SpecView, TextureView, VisualAssetHint, WriteFaultView};
use super::types;
use super::walk::{Tally, Turn};
use super::walk;
use super::workshop::{Made, Workings};
use super::workshop;

verus! {

/// Whether each pair of a list comes before those that follow it.
pub open spec fn is_ascending(list: Seq<(Seq<char>, Seq<char>)>) -> bool {
    forall|i: int, j: int|
        0 <= i < j < list.len() ==> walk::pair_before(#[trigger] list[i], #[trigger] list[j])
}

/// Whether one list holds all that another does.
pub open spec fn holds_all(
    more: Seq<(Seq<char>, Seq<char>)>,
    list: Seq<(Seq<char>, Seq<char>)>,
) -> bool {
    forall|pair: (Seq<char>, Seq<char>)| #[trigger] list.contains(pair) ==> more.contains(pair)
}

/// Whether one tally only adds to another: no note is lost, no visual is lost, and visuals in ascending
/// order stay so.
pub open spec fn grows(a: Tally, b: Tally) -> bool {
    &&& a.notes.is_prefix_of(b.notes)
    &&& holds_all(b.baked, a.baked)
    &&& is_ascending(a.baked) ==> is_ascending(b.baked)
}

proof fn grows_on(a: Tally, b: Tally, c: Tally)
    requires
        grows(a, b),
        grows(b, c),
    ensures
        grows(a, c),
{
    assert(a.notes =~= c.notes.take(a.notes.len() as int));
}

/// Whether no asset can be made: no source can be taken over, and no asset can be written.
pub open spec fn never_makes(w: Workings) -> bool {
    &&& forall|path: Seq<char>, site: MeshSite, r: Made| #[trigger]
        workshop::may_take_over(w, path, site, r) ==> r is Err
    &&& forall|name: Seq<char>, data: Seq<u8>, r: Result<(), WriteFaultView>| #[trigger]
        workshop::may_write(w, name, data, r) ==> r is Err
}

/// Whether an attempt keeps the notes, and notes its place where it brings no asset.
pub open spec fn is_accounted_for(
    place: Seq<char>,
    before: Seq<Seq<char>>,
    after: Seq<Seq<char>>,
    asset: Option<(Seq<char>, Seq<char>)>,
) -> bool {
    &&& before.is_prefix_of(after)
    &&& asset is None ==> after.len() > before.len() && text::starts_with(after.last(), place)
}

proof fn texture_keeps_notes(
    w: Workings,
    texture: Option<Seq<char>>,
    place: Seq<char>,
    before: Seq<Seq<char>>,
    after: Seq<Seq<char>>,
    found: Option<TextureView>,
)
    requires
        asset::texture_found(w, texture, place, before, after, found),
    ensures
        before.is_prefix_of(after),
{
    if let Some(uri) = texture {
        assert(asset::texture_looked_up(w, uri, place, before, after, found));
        let path = choose|path: Option<Seq<char>>| #[trigger]
            workshop::may_look_up(w, uri, path) && asset::texture_at(w, path, uri, place, before, after, found);
        if let Some(p) = path {
            assert(asset::texture_opened(w, p, uri, place, before, after, found));
            let bytes = choose|bytes: Result<Seq<u8>, Seq<char>>| #[trigger]
                workshop::may_read(w, p, bytes) && asset::texture_read(bytes, uri, place, before, after, found);
            assert(asset::texture_read(bytes, uri, place, before, after, found));
        }
    }
    assert(before =~= after.take(before.len() as int));
}

proof fn writing_needs_a_place(w: Workings, stem: Seq<char>, asset: AssetView, made: Made)
    requires
        never_makes(w),
        asset::asset_written(w, stem, asset, made),
    ensures
        made is Err,
{
}

proof fn resolved_keeps_notes(
    w: Workings,
    path: Seq<char>,
    spec: SpecView,
    place: Seq<char>,
    before: Seq<Seq<char>>,
    after: Seq<Seq<char>>,
    made: Made,
)
    requires
        asset::mesh_resolved(w, path, spec, place, before, after, made),
    ensures
        before.is_prefix_of(after),
        never_makes(w) ==> made is Err,
{
    match asset::plan_of(w, path, spec) {
        MeshPlan::TakeOver { .. } => {
            assert(before =~= after.take(before.len() as int));
            assert(asset::mesh_taken_over(w, path, spec.site, made));
        },
        MeshPlan::Convert => {
            assert(asset::mesh_textured(w, path, spec, place, before, after, made));
            let (texture, mid) = choose|texture: Option<TextureView>, mid: Seq<Seq<char>>|
                #[trigger]
                asset::texture_found(w, spec.texture, place, before, mid, texture) && asset::mesh_converted(
                    w,
                    path,
                    spec,
                    texture,
                    place,
                    mid,
                    after,
                    made,
                );
            texture_keeps_notes(w, spec.texture, place, before, mid, texture);
            let r = choose|r: Result<AssetView, Seq<char>>| #[trigger]
                workshop::may_convert(w, path, spec, texture, r) && match r {
                    Ok(asset) => after == mid + asset::placed(place, asset.notes) && asset::asset_written(
                        w,
                        names::safe_name(names::name_stem(names::file_name(w.style, path))),
                        asset,
                        made,
                    ),
                    Err(e) => after == mid && made == Err::<(Seq<char>, Seq<char>), Seq<char>>(e),
                };
            if let Ok(asset) = r {
                if never_makes(w) {
                    writing_needs_a_place(
                        w,
                        names::safe_name(names::name_stem(names::file_name(w.style, path))),
                        asset,
                        made,
                    );
                }
            }
            assert(mid =~= after.take(mid.len() as int));
            assert(before =~= after.take(before.len() as int));
        },
    }
}

/// Baking a mesh loses no note, and a mesh that no asset comes of is noted, with the place that it
/// stands at. Where no asset can be made, none comes.
pub proof fn meshes_are_accounted_for(
    w: Workings,
    uri: Seq<char>,
    spec: SpecView,
    place: Seq<char>,
    before: Seq<Seq<char>>,
    after: Seq<Seq<char>>,
    asset: Option<(Seq<char>, Seq<char>)>,
)
    requires
        asset::mesh_baked(w, uri, spec, place, before, after, asset),
    ensures
        is_accounted_for(place, before, after, asset),
        never_makes(w) ==> asset is None,
{
    let path = choose|path: Option<Seq<char>>| #[trigger]
        workshop::may_look_up(w, uri, path) && asset::mesh_at(w, path, uri, spec, place, before, after, asset);
    match path {
        None => {
            assert(before =~= after.take(before.len() as int));
            assert(after.last().take(place.len() as int) =~= place);
        },
        Some(p) => {
            assert(asset::mesh_found(w, p, uri, spec, place, before, after, asset));
            let (mid, made) = choose|mid: Seq<Seq<char>>, made: Made| #[trigger]
                asset::mesh_resolved(w, p, spec, place, before, mid, made) && asset::mesh_kept(
                    made,
                    uri,
                    place,
                    mid,
                    after,
                    asset,
                );
            resolved_keeps_notes(w, p, spec, place, before, mid, made);
            assert(before =~= after.take(before.len() as int));
            if made is Err {
                assert(after.last().take(place.len() as int) =~= place);
            }
        },
    }
}

/// Putting a texture on a primitive loses no note, and a texture that is not put on is noted, with the
/// place that it was meant for. Where no asset can be made, none comes.
pub proof fn textures_are_accounted_for(
    w: Workings,
    size: Option<Seq<char>>,
    uri: Seq<char>,
    place: Seq<char>,
    before: Seq<Seq<char>>,
    after: Seq<Seq<char>>,
    asset: Option<(Seq<char>, Seq<char>)>,
)
    requires
        asset::box_baked(w, size, uri, place, before, after, asset),
    ensures
        is_accounted_for(place, before, after, asset),
        never_makes(w) ==> asset is None,
{
    if let Some(extents) = size {
        assert(asset::box_looked_up(w, extents, uri, place, before, after, asset));
        let path = choose|path: Option<Seq<char>>| #[trigger]
            workshop::may_look_up(w, uri, path) && asset::box_at(
                w,
                path,
                extents,
                uri,
                place,
                before,
                after,
                asset,
            );
        if let Some(p) = path {
            assert(asset::box_opened(w, p, extents, uri, place, before, after, asset));
            let bytes = choose|bytes: Result<Seq<u8>, Seq<char>>| #[trigger]
                workshop::may_read(w, p, bytes) && asset::box_read(
                    w,
                    bytes,
                    p,
                    extents,
                    uri,
                    place,
                    before,
                    after,
                    asset,
                );
            if let Ok(b) = bytes {
                let texture = TextureView { bytes: b, name: p };
                assert(asset::box_textured(w, texture, extents, uri, place, before, after, asset));
                let r = choose|r: Result<AssetView, Seq<char>>| #[trigger]
                    workshop::may_dress_box(w, extents, texture, r) && asset::box_dressed(
                        w,
                        r,
                        p,
                        uri,
                        place,
                        before,
                        after,
                        asset,
                    );
                if let Ok(converted) = r {
                    assert(asset::box_written(w, converted, p, uri, place, before, after, asset));
                    let stem = names::safe_name(names::name_stem(names::file_name(w.style, p)));
                    let made = choose|made: Made| #[trigger]
                        asset::asset_written(w, stem, converted, made) && asset::box_kept(
                            made,
                            uri,
                            place,
                            before,
                            after,
                            asset,
                        );
                    if never_makes(w) {
                        writing_needs_a_place(w, stem, converted, made);
                    }
                    assert(asset::box_kept(made, uri, place, before, after, asset));
                }
            }
        }
    }
    assert(before =~= after.take(before.len() as int));
    if asset is None {
        assert(after.last().take(place.len() as int) =~= place);
    }
}

proof fn pairs_are_ordered(
    a: (Seq<char>, Seq<char>),
    b: (Seq<char>, Seq<char>),
    c: (Seq<char>, Seq<char>),
)
    ensures
        !walk::pair_before(a, a),
        a == b || walk::pair_before(a, b) || walk::pair_before(b, a),
        walk::pair_before(a, b) && walk::pair_before(b, c) ==> walk::pair_before(a, c),
{
    sorting::texts_are_ordered(a.0, b.0, c.0);
    sorting::texts_are_ordered(a.1, b.1, c.1);
}

proof fn placed_holds(list: Seq<(Seq<char>, Seq<char>)>, pair: (Seq<char>, Seq<char>))
    ensures
        forall|other: (Seq<char>, Seq<char>)| #[trigger]
            walk::pair_placed(list, pair).contains(other) == (list.contains(other) || other == pair),
    decreases list.len(),
{
    let placed = walk::pair_placed(list, pair);
    if list.len() > 0 && walk::pair_before(pair, list.last()) {
        let front = walk::pair_placed(list.drop_last(), pair);
        placed_holds(list.drop_last(), pair);
        assert forall|other: (Seq<char>, Seq<char>)| #[trigger] placed.contains(other) == (
        list.contains(other) || other == pair) by {
            assert(placed[placed.len() - 1] == list.last());
            assert(list[list.len() - 1] == list.last());
            if placed.contains(other) && other != list.last() {
                let k = placed.index_of(other);
                assert(front[k] == other);
                assert(front.contains(other));
                if list.drop_last().contains(other) {
                    let m = list.drop_last().index_of(other);
                    assert(list[m] == other);
                }
            }
            if (list.contains(other) || other == pair) && other != list.last() {
                if list.contains(other) {
                    let m = list.index_of(other);
                    assert(list.drop_last()[m] == other);
                }
                assert(front.contains(other));
                let k = front.index_of(other);
                assert(placed[k] == other);
            }
        }
    } else {
        assert forall|other: (Seq<char>, Seq<char>)| #[trigger] placed.contains(other) == (
        list.contains(other) || other == pair) by {
            if placed.contains(other) && other != pair {
                let k = placed.index_of(other);
                assert(list[k] == other);
            }
            if list.contains(other) {
                let k = list.index_of(other);
                assert(placed[k] == other);
            }
            assert(placed[list.len() as int] == pair);
        }
    }
}

proof fn placed_is_ascending(list: Seq<(Seq<char>, Seq<char>)>, pair: (Seq<char>, Seq<char>))
    requires
        is_ascending(list),
        !list.contains(pair),
    ensures
        is_ascending(walk::pair_placed(list, pair)),
    decreases list.len(),
{
    let placed = walk::pair_placed(list, pair);
    if list.len() > 0 {
        let last = list.last();
        assert(list[list.len() - 1] == last);
        pairs_are_ordered(last, pair, pair);
        if walk::pair_before(pair, last) {
            let rest = list.drop_last();
            let front = walk::pair_placed(rest, pair);
            assert(!rest.contains(pair)) by {
                if rest.contains(pair) {
                    let m = rest.index_of(pair);
                    assert(list[m] == pair);
                }
            }
            placed_is_ascending(rest, pair);
            placed_holds(rest, pair);
            assert forall|i: int, j: int| 0 <= i < j < placed.len() implies walk::pair_before(
                #[trigger] placed[i],
                #[trigger] placed[j],
            ) by {
                assert(placed[i] == front[i]);
                if j < front.len() {
                    assert(placed[j] == front[j]);
                } else {
                    assert(front.contains(front[i]));
                    if front[i] != pair {
                        let m = rest.index_of(front[i]);
                        assert(list[m] == front[i]);
                    }
                }
            }
        } else {
            assert forall|i: int, j: int| 0 <= i < j < placed.len() implies walk::pair_before(
                #[trigger] placed[i],
                #[trigger] placed[j],
            ) by {
                assert(placed[i] == list[i]);
                if j < list.len() {
                    assert(placed[j] == list[j]);
                } else {
                    pairs_are_ordered(list[i], last, pair);
                }
            }
        }
    }
}

proof fn pair_grows(list: Seq<(Seq<char>, Seq<char>)>, pair: (Seq<char>, Seq<char>))
    ensures
        holds_all(walk::with_pair(list, pair), list),
        is_ascending(list) ==> is_ascending(walk::with_pair(list, pair)),
{
    placed_holds(list, pair);
    if is_ascending(list) && !list.contains(pair) {
        placed_is_ascending(list, pair);
    }
}

proof fn visual_grows(
    w: Workings,
    hints: Seq<VisualAssetHint>,
    prefix: Seq<char>,
    comp: Seq<char>,
    before: Visual,
    after: Visual,
    start: Tally,
    end: Tally,
)
    requires
        walk::visual_step(w, hints, prefix, comp, before, after, start, end),
    ensures
        grows(start, end),
        never_makes(w) ==> after == before && end.baked == start.baked,
{
    let place = walk::visual_place(comp, before.name@);
    pair_grows(start.baked, (comp, before.name@));
    match walk::visual_turn(before, walk::hint_for(hints, comp, before.name@, hints.len())) {
        Turn::Leave => {
            assert(start.notes =~= end.notes.take(start.notes.len() as int));
        },
        Turn::Mesh { uri, spec } => {
            assert(walk::visual_meshed(w, uri, spec, prefix, comp, before, after, start, end));
            let asset = choose|asset: Option<(Seq<char>, Seq<char>)>| #[trigger]
                asset::mesh_baked(w, uri, spec, place, start.notes, end.notes, asset) && walk::visual_takes(
                    prefix,
                    comp,
                    before,
                    after,
                    start,
                    end,
                    asset,
                );
            meshes_are_accounted_for(w, uri, spec, place, start.notes, end.notes, asset);
        },
        Turn::Primitive { size, texture } => {
            assert(walk::visual_textured(w, size, texture, prefix, comp, before, after, start, end));
            let asset = choose|asset: Option<(Seq<char>, Seq<char>)>| #[trigger]
                asset::box_baked(w, size, texture, place, start.notes, end.notes, asset) && walk::visual_takes(
                    prefix,
                    comp,
                    before,
                    after,
                    start,
                    end,
                    asset,
                );
            textures_are_accounted_for(w, size, texture, place, start.notes, end.notes, asset);
        },
    }
}

proof fn collision_grows(
    w: Workings,
    prefix: Seq<char>,
    comp: Seq<char>,
    before: Collision,
    after: Collision,
    start: Tally,
    end: Tally,
)
    requires
        walk::collision_step(w, prefix, comp, before, after, start, end),
    ensures
        grows(start, end),
        never_makes(w) ==> after == before && end.baked == start.baked,
{
    let place = walk::collision_place(comp, types::option_view(before.name));
    match walk::collision_turn(before) {
        Turn::Mesh { uri, spec } => {
            assert(walk::collision_meshed(w, uri, spec, prefix, comp, before, after, start, end));
            let asset = choose|asset: Option<(Seq<char>, Seq<char>)>| #[trigger]
                asset::mesh_baked(w, uri, spec, place, start.notes, end.notes, asset) && walk::collision_takes(
                    prefix,
                    before,
                    after,
                    asset,
                ) && end.baked == start.baked;
            meshes_are_accounted_for(w, uri, spec, place, start.notes, end.notes, asset);
        },
        _ => {
            assert(start.notes =~= end.notes.take(start.notes.len() as int));
        },
    }
}

proof fn walk_grows(
    n: nat,
    step: spec_fn(int, Tally, Tally) -> bool,
    start: Tally,
    end: Tally,
)
    requires
        walk::walked(n, step, start, end),
        forall|k: int, a: Tally, b: Tally| #[trigger] step(k, a, b) ==> grows(a, b),
    ensures
        grows(start, end),
    decreases n,
{
    if n == 0 {
        assert(start.notes =~= end.notes.take(start.notes.len() as int));
    } else {
        let mid = choose|mid: Tally|
            walk::walked((n - 1) as nat, step, start, mid) && #[trigger] step(n - 1, mid, end);
        walk_grows((n - 1) as nat, step, start, mid);
        grows_on(start, mid, end);
    }
}

proof fn comp_grows(
    w: Workings,
    hints: Seq<VisualAssetHint>,
    prefix: Seq<char>,
    before: Comp,
    after: Comp,
    start: Tally,
    end: Tally,
)
    requires
        walk::comp_step(w, hints, prefix, before, after, start, end),
    ensures
        grows(start, end),
{
    let name = before.name@;
    let first = walk::visual_steps(w, hints, prefix, name, before.visual@, after.visual@);
    let second = walk::collision_steps(w, prefix, name, before.collision@, after.collision@);
    let mid = choose|mid: Tally|
        #![trigger walk::walked(before.visual@.len(), first, start, mid)]
        walk::walked(before.visual@.len(), first, start, mid) && walk::walked(
            before.collision@.len(),
            second,
            mid,
            end,
        );
    assert forall|k: int, a: Tally, b: Tally| #[trigger] first(k, a, b) implies grows(a, b) by {
        visual_grows(w, hints, prefix, name, before.visual@[k], after.visual@[k], a, b);
    }
    assert forall|k: int, a: Tally, b: Tally| #[trigger] second(k, a, b) implies grows(a, b) by {
        collision_grows(w, prefix, name, before.collision@[k], after.collision@[k], a, b);
    }
    walk_grows(before.visual@.len(), first, start, mid);
    walk_grows(before.collision@.len(), second, mid, end);
    grows_on(start, mid, end);
}

/// Baking loses no note that was there before, and lists each visual once, in ascending order.
pub proof fn baking_keeps_notes(
    w: Workings,
    hints: Seq<VisualAssetHint>,
    prefix: Seq<char>,
    before: Hcdf,
    after: Hcdf,
    notes: Seq<Seq<char>>,
    end: Tally,
)
    requires
        walk::document_baked(w, hints, prefix, before, after, notes, end),
    ensures
        notes.is_prefix_of(end.notes),
        is_ascending(end.baked),
        end.baked.no_duplicates(),
{
    let step = walk::comp_steps(w, hints, prefix, before.comp@, after.comp@);
    let start = Tally { notes, baked: Seq::empty() };
    assert forall|k: int, a: Tally, b: Tally| #[trigger] step(k, a, b) implies grows(a, b) by {
        comp_grows(w, hints, prefix, before.comp@[k], after.comp@[k], a, b);
    }
    walk_grows(before.comp@.len(), step, start, end);
    assert forall|i: int, j: int|
        0 <= i < end.baked.len() && 0 <= j < end.baked.len() && i != j implies end.baked[i]
        != end.baked[j] by {
        pairs_are_ordered(end.baked[i], end.baked[j], end.baked[i]);
    }
}

/// Whether an element is unchanged in every step of a walk, and no visual is listed.
spec fn idle<T>(
    step: spec_fn(int, Tally, Tally) -> bool,
    before: Seq<T>,
    after: Seq<T>,
) -> bool {
    forall|k: int, a: Tally, b: Tally| #[trigger]
        step(k, a, b) ==> after[k] == before[k] && b.baked == a.baked
}

proof fn idle_walk<T>(
    n: nat,
    step: spec_fn(int, Tally, Tally) -> bool,
    before: Seq<T>,
    after: Seq<T>,
    start: Tally,
    end: Tally,
)
    requires
        walk::walked(n, step, start, end),
        idle(step, before, after),
    ensures
        forall|k: int| 0 <= k < n ==> after[k] == before[k],
        end.baked == start.baked,
    decreases n,
{
    if n > 0 {
        let mid = choose|mid: Tally|
            walk::walked((n - 1) as nat, step, start, mid) && #[trigger] step(n - 1, mid, end);
        idle_walk((n - 1) as nat, step, before, after, start, mid);
    }
}

/// Whether two components have the same visuals and collisions.
pub open spec fn same_elements(before: Comp, after: Comp) -> bool {
    after.visual@ == before.visual@ && after.collision@ == before.collision@
}

proof fn idle_comp(
    w: Workings,
    hints: Seq<VisualAssetHint>,
    prefix: Seq<char>,
    before: Comp,
    after: Comp,
    start: Tally,
    end: Tally,
)
    requires
        never_makes(w),
        walk::comp_step(w, hints, prefix, before, after, start, end),
    ensures
        same_elements(before, after),
        end.baked == start.baked,
{
    let name = before.name@;
    let first = walk::visual_steps(w, hints, prefix, name, before.visual@, after.visual@);
    let second = walk::collision_steps(w, prefix, name, before.collision@, after.collision@);
    let mid = choose|mid: Tally|
        #![trigger walk::walked(before.visual@.len(), first, start, mid)]
        walk::walked(before.visual@.len(), first, start, mid) && walk::walked(
            before.collision@.len(),
            second,
            mid,
            end,
        );
    assert forall|k: int, a: Tally, b: Tally| #[trigger] first(k, a, b) implies after.visual@[k]
        == before.visual@[k] && b.baked == a.baked by {
        visual_grows(w, hints, prefix, name, before.visual@[k], after.visual@[k], a, b);
    }
    assert forall|k: int, a: Tally, b: Tally| #[trigger] second(k, a, b) implies after.collision@[k]
        == before.collision@[k] && b.baked == a.baked by {
        collision_grows(w, prefix, name, before.collision@[k], after.collision@[k], a, b);
    }
    idle_walk(before.visual@.len(), first, before.visual@, after.visual@, start, mid);
    idle_walk(before.collision@.len(), second, before.collision@, after.collision@, mid, end);
    assert(after.visual@ =~= before.visual@);
    assert(after.collision@ =~= before.collision@);
}

proof fn idle_comps(
    n: nat,
    step: spec_fn(int, Tally, Tally) -> bool,
    before: Seq<Comp>,
    after: Seq<Comp>,
    start: Tally,
    end: Tally,
)
    requires
        walk::walked(n, step, start, end),
        forall|k: int, a: Tally, b: Tally| #[trigger]
            step(k, a, b) ==> same_elements(before[k], after[k]) && b.baked == a.baked,
    ensures
        forall|k: int| 0 <= k < n ==> same_elements(#[trigger] before[k], after[k]),
        end.baked == start.baked,
    decreases n,
{
    if n > 0 {
        let mid = choose|mid: Tally|
            walk::walked((n - 1) as nat, step, start, mid) && #[trigger] step(n - 1, mid, end);
        idle_comps((n - 1) as nat, step, before, after, start, mid);
    }
}

/// Where no asset can be made, every visual and every collision stays what it was, and no visual is
/// listed.
pub proof fn without_assets_nothing_changes(
    w: Workings,
    hints: Seq<VisualAssetHint>,
    prefix: Seq<char>,
    before: Hcdf,
    after: Hcdf,
    notes: Seq<Seq<char>>,
    end: Tally,
)
    requires
        never_makes(w),
        walk::document_baked(w, hints, prefix, before, after, notes, end),
    ensures
        forall|k: int|
            0 <= k < before.comp@.len() ==> same_elements(
                #[trigger] before.comp@[k],
                after.comp@[k],
            ),
        end.baked == Seq::<(Seq<char>, Seq<char>)>::empty(),
{
    let step = walk::comp_steps(w, hints, prefix, before.comp@, after.comp@);
    assert forall|k: int, a: Tally, b: Tally| #[trigger] step(k, a, b) implies same_elements(
        before.comp@[k],
        after.comp@[k],
    ) && b.baked == a.baked by {
        idle_comp(w, hints, prefix, before.comp@[k], after.comp@[k], a, b);
    }
    let start = Tally { notes, baked: Seq::empty() };
    idle_comps(before.comp@.len(), step, before.comp@, after.comp@, start, end);
}

} // verus!
