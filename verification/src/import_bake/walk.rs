//! Baking a document.
use vstd::prelude::*;
use crate::float::Float64;
use crate::model::{Collision, CollisionGeometry, Comp, Hcdf, Mesh, ModelRef, Visual, VisualAppearance, VisualGeometry};
use crate::remote::is_remote_uri;
use crate::remote;
use crate::sorting;
use crate::text::clone_option;
use crate::text;
use super::asset;
use super::env::{BakeEnv, prefixed_uri};
use super::env;
use super::types::{BakedAsset, HintTexture, MeshBakeSpec, MeshSite, SpecView, VisualAssetHint, WriteFault};
use super::types;
use super::workshop::{Workings, Workshop};

verus! {

/// What a walk gathers: the notes, and the visuals that have an asset now, in ascending order of
/// component and name.
pub struct Tally {
    pub notes: Seq<Seq<char>>,
    pub baked: Seq<(Seq<char>, Seq<char>)>,
}

/// What lists of pairs hold.
pub open spec fn pair_views(list: Seq<(String, String)>) -> Seq<(Seq<char>, Seq<char>)> {
    list.map_values(|p: (String, String)| (p.0@, p.1@))
}

/// What has been gathered.
pub open spec fn tally_of(notes: Seq<String>, baked: Seq<(String, String)>) -> Tally {
    Tally { notes: sorting::text_views(notes), baked: pair_views(baked) }
}

/// Whether one pair comes before another: by the first text, and where that is the same by the second.
pub open spec fn pair_before(a: (Seq<char>, Seq<char>), b: (Seq<char>, Seq<char>)) -> bool {
    sorting::comes_before(a.0, b.0) || (a.0 == b.0 && sorting::comes_before(a.1, b.1))
}

/// A list with a pair put before the last ones that come after it.
pub open spec fn pair_placed(
    list: Seq<(Seq<char>, Seq<char>)>,
    pair: (Seq<char>, Seq<char>),
) -> Seq<(Seq<char>, Seq<char>)>
    decreases list.len(),
{
    if list.len() > 0 && pair_before(pair, list.last()) {
        pair_placed(list.drop_last(), pair).push(list.last())
    } else {
        list.push(pair)
    }
}

/// The list with a pair at its place in it, once.
pub open spec fn with_pair(
    list: Seq<(Seq<char>, Seq<char>)>,
    pair: (Seq<char>, Seq<char>),
) -> Seq<(Seq<char>, Seq<char>)> {
    if list.contains(pair) {
        list
    } else {
        pair_placed(list, pair)
    }
}

/// Puts a pair at its place in a list, once.
fn insert_pair(list: &mut Vec<(String, String)>, comp: &str, visual: &str)
    ensures
        pair_views(final(list)@) == with_pair(pair_views(old(list)@), (comp@, visual@)),
{
    let ghost all = pair_views(list@);
    let ghost pair = (comp@, visual@);
    let mut i: usize = 0;
    while i < list.len()
        invariant
            i <= list@.len(),
            all == pair_views(list@),
            list@ == old(list)@,
            pair == (comp@, visual@),
            forall|k: int| 0 <= k < i ==> all[k] != pair,
        decreases list@.len() - i,
    {
        assert(all[i as int] == (list@[i as int].0@, list@[i as int].1@));
        if text::same(list[i].0.as_str(), comp) && text::same(list[i].1.as_str(), visual) {
            return;
        }
        i += 1;
    }
    let mut at: usize = list.len();
    assert(all.take(at as int) =~= all);
    assert(pair_placed(all, pair) =~= pair_placed(all, pair) + all.skip(at as int));
    while at > 0 && (sorting::is_before(comp, list[at - 1].0.as_str()) || (text::same(
        comp,
        list[at - 1].0.as_str(),
    ) && sorting::is_before(visual, list[at - 1].1.as_str())))
        invariant
            at <= list@.len() == all.len(),
            all == pair_views(list@),
            list@ == old(list)@,
            pair == (comp@, visual@),
            pair_placed(all, pair) == pair_placed(all.take(at as int), pair) + all.skip(at as int),
        decreases at,
    {
        let ghost upto = all.take(at as int);
        assert(upto.last() == (list@[at - 1].0@, list@[at - 1].1@));
        assert(upto.drop_last() =~= all.take(at - 1));
        assert(all.skip(at - 1) =~= seq![upto.last()] + all.skip(at as int));
        assert(pair_placed(upto, pair) + all.skip(at as int) =~= pair_placed(
            all.take(at - 1),
            pair,
        ) + all.skip(at - 1));
        at -= 1;
    }
    proof {
        let upto = all.take(at as int);
        if at > 0 {
            assert(upto.last() == (list@[at - 1].0@, list@[at - 1].1@));
        }
        assert(pair_placed(upto, pair) == upto.push(pair));
        assert(all.insert(at as int, pair) =~= upto.push(pair) + all.skip(at as int));
    }
    list.insert(at, (comp.to_owned(), visual.to_owned()));
    assert(pair_views(list@) =~= all.insert(at as int, pair));
}

/// Whether a walk of `n` steps may lead from one tally to another.
pub open spec fn walked(
    n: nat,
    step: spec_fn(int, Tally, Tally) -> bool,
    start: Tally,
    end: Tally,
) -> bool
    decreases n,
{
    if n == 0 {
        start == end
    } else {
        exists|mid: Tally|
            walked((n - 1) as nat, step, start, mid) && #[trigger] step(n - 1, mid, end)
    }
}

proof fn walk_goes_on(
    n: nat,
    before: spec_fn(int, Tally, Tally) -> bool,
    step: spec_fn(int, Tally, Tally) -> bool,
    start: Tally,
    mid: Tally,
    end: Tally,
)
    requires
        walked(n, before, start, mid),
        forall|k: int, a: Tally, b: Tally|
            0 <= k < n ==> #[trigger] step(k, a, b) == before(k, a, b),
        step(n as int, mid, end),
    ensures
        walked(n + 1, step, start, end),
{
    same_walk(n, before, step, start, mid);
    assert(step((n + 1) - 1, mid, end));
}

proof fn same_walk(
    n: nat,
    before: spec_fn(int, Tally, Tally) -> bool,
    step: spec_fn(int, Tally, Tally) -> bool,
    start: Tally,
    end: Tally,
)
    requires
        walked(n, before, start, end),
        forall|k: int, a: Tally, b: Tally|
            0 <= k < n ==> #[trigger] step(k, a, b) == before(k, a, b),
    ensures
        walked(n, step, start, end),
    decreases n,
{
    if n > 0 {
        let mid = choose|mid: Tally|
            walked((n - 1) as nat, before, start, mid) && #[trigger] before(n - 1, mid, end);
        same_walk((n - 1) as nat, before, step, start, mid);
        assert(step(n - 1, mid, end) == before(n - 1, mid, end));
    }
}

/// The last of the first `n` hints that is about a visual.
pub open spec fn hint_for(
    hints: Seq<VisualAssetHint>,
    comp: Seq<char>,
    visual: Seq<char>,
    n: nat,
) -> Option<VisualAssetHint>
    decreases n,
{
    if n == 0 || n > hints.len() {
        None
    } else if hints[n - 1].comp@ == comp && hints[n - 1].visual@ == visual {
        Some(hints[n - 1])
    } else {
        hint_for(hints, comp, visual, (n - 1) as nat)
    }
}

fn find_hint<'a>(hints: &'a Vec<VisualAssetHint>, comp: &str, visual: &str) -> (r: Option<
    &'a VisualAssetHint,
>)
    ensures
        match r {
            Some(hint) => hint_for(hints@, comp@, visual@, hints@.len()) == Some(*hint),
            None => hint_for(hints@, comp@, visual@, hints@.len()) is None,
        },
{
    let mut n: usize = hints.len();
    while n > 0
        invariant
            n <= hints@.len(),
            hint_for(hints@, comp@, visual@, hints@.len()) == hint_for(
                hints@,
                comp@,
                visual@,
                n as nat,
            ),
        decreases n,
    {
        n -= 1;
        if text::same(hints[n].comp.as_str(), comp) && text::same(hints[n].visual.as_str(), visual) {
            return Some(&hints[n]);
        }
    }
    None
}

/// The address of a mesh that is to be baked: it is given, not blank, and not on the web.
pub open spec fn bakeable(uri: Option<String>) -> bool {
    uri matches Some(u) && !text::is_blank(u@) && !remote::is_remote(u@)
}

fn is_bakeable(uri: &Option<String>) -> (r: bool)
    ensures
        r == bakeable(*uri),
{
    match uri {
        Some(u) => !text::blank(u.as_str()) && !is_remote_uri(u.as_str()),
        None => false,
    }
}

/// What a walk does about an element.
pub enum Turn {
    /// Nothing.
    Leave,
    /// A mesh is baked.
    Mesh { uri: Seq<char>, spec: SpecView },
    /// A texture is put on a primitive, which has a size where it is a box.
    Primitive { size: Option<Seq<char>>, texture: Seq<char> },
}

/// Where a visual stands.
pub open spec fn visual_place(comp: Seq<char>, visual: Seq<char>) -> Seq<char> {
    "visual "@ + comp + "/"@ + visual
}

/// Where a collision stands.
pub open spec fn collision_place(comp: Seq<char>, collision: Option<Seq<char>>) -> Seq<char> {
    "collision "@ + comp + "/"@ + (match collision {
        Some(name) => name,
        None => "<unnamed>"@,
    })
}

fn place_name(kind: &str, comp: &str, name: &str) -> (r: String)
    ensures
        r@ == kind@ + comp@ + "/"@ + name@,
{
    let mut out: String = kind.to_owned();
    out.append(comp);
    out.append("/");
    out.append(name);
    out
}

/// The size of the box among the primitives.
pub open spec fn box_size(geometry: Option<VisualGeometry>) -> Option<String> {
    match geometry {
        Some(g) => match g.box_ {
            Some(b) => b.size,
            None => None,
        },
        None => None,
    }
}

/// What a walk does about a visual.
pub open spec fn visual_turn(visual: Visual, hint: Option<VisualAssetHint>) -> Turn {
    match visual.appearance {
        VisualAppearance::Model { model, .. } => if bakeable(model.uri) {
            Turn::Mesh {
                uri: model.uri->0@,
                spec: SpecView {
                    scale: types::option_view(hinted(hint).0),
                    color: types::option_view(hinted(hint).1),
                    texture: types::option_view(hinted(hint).2),
                    site: MeshSite::Visual,
                },
            }
        } else {
            Turn::Leave
        },
        VisualAppearance::Primitive { geometry, .. } => match hinted(hint).2 {
            Some(texture) => Turn::Primitive {
                size: types::option_view(box_size(geometry)),
                texture: texture@,
            },
            None => Turn::Leave,
        },
    }
}

/// Whether a visual has become the model of an asset, and is otherwise what it was: a model keeps its
/// selections and its geometry, and a primitive becomes a plain model.
pub open spec fn is_dressed(before: Visual, after: Visual, uri: Seq<char>, sha: Seq<char>) -> bool {
    after == (Visual { appearance: after.appearance, ..before }) && match after.appearance {
        VisualAppearance::Primitive { .. } => false,
        VisualAppearance::Model { model, geometry } => types::option_view(model.uri) == Some(uri)
            && types::option_view(model.sha) == Some(sha) && match before.appearance {
            VisualAppearance::Model { model: m, geometry: g } => geometry == g && model.submesh
                == m.submesh && model.exclude_submesh == m.exclude_submesh,
            VisualAppearance::Primitive { .. } => geometry is None && model.submesh@.len() == 0
                && model.exclude_submesh@.len() == 0,
        },
    }
}

/// What becomes of a visual, and of the list of those that have an asset.
pub open spec fn visual_takes(
    prefix: Seq<char>,
    comp: Seq<char>,
    before: Visual,
    after: Visual,
    start: Tally,
    end: Tally,
    asset: Option<(Seq<char>, Seq<char>)>,
) -> bool {
    match asset {
        Some((name, sha)) => is_dressed(before, after, env::asset_uri(prefix, name), sha) && end.baked
            == with_pair(start.baked, (comp, before.name@)),
        None => after == before && end.baked == start.baked,
    }
}

/// Whether baking the mesh of a visual may have come to this.
pub open spec fn visual_meshed(
    w: Workings,
    uri: Seq<char>,
    spec: SpecView,
    prefix: Seq<char>,
    comp: Seq<char>,
    before: Visual,
    after: Visual,
    start: Tally,
    end: Tally,
) -> bool {
    exists|asset: Option<(Seq<char>, Seq<char>)>| #[trigger]
        asset::mesh_baked(
            w,
            uri,
            spec,
            visual_place(comp, before.name@),
            start.notes,
            end.notes,
            asset,
        ) && visual_takes(prefix, comp, before, after, start, end, asset)
}

/// Whether putting a texture on a primitive visual may have come to this.
pub open spec fn visual_textured(
    w: Workings,
    size: Option<Seq<char>>,
    texture: Seq<char>,
    prefix: Seq<char>,
    comp: Seq<char>,
    before: Visual,
    after: Visual,
    start: Tally,
    end: Tally,
) -> bool {
    exists|asset: Option<(Seq<char>, Seq<char>)>| #[trigger]
        asset::box_baked(
            w,
            size,
            texture,
            visual_place(comp, before.name@),
            start.notes,
            end.notes,
            asset,
        ) && visual_takes(prefix, comp, before, after, start, end, asset)
}

/// Whether a walk may turn one visual into another.
pub open spec fn visual_step(
    w: Workings,
    hints: Seq<VisualAssetHint>,
    prefix: Seq<char>,
    comp: Seq<char>,
    before: Visual,
    after: Visual,
    start: Tally,
    end: Tally,
) -> bool {
    match visual_turn(before, hint_for(hints, comp, before.name@, hints.len())) {
        Turn::Leave => after == before && end == start,
        Turn::Mesh { uri, spec } => visual_meshed(
            w,
            uri,
            spec,
            prefix,
            comp,
            before,
            after,
            start,
            end,
        ),
        Turn::Primitive { size, texture } => visual_textured(
            w,
            size,
            texture,
            prefix,
            comp,
            before,
            after,
            start,
            end,
        ),
    }
}

/// What a hint says of the scale, the color and the texture.
pub open spec fn hinted(hint: Option<VisualAssetHint>) -> (
    Option<String>,
    Option<String>,
    Option<String>,
) {
    match hint {
        Some(h) => (h.scale, h.color, h.texture),
        None => (None, None, None),
    }
}

fn hint_parts(hint: Option<&VisualAssetHint>) -> (r: (
    Option<String>,
    Option<String>,
    Option<String>,
))
    ensures
        r == hinted(
            match hint {
                Some(h) => Some(*h),
                None => None,
            },
        ),
{
    match hint {
        Some(h) => (clone_option(&h.scale), clone_option(&h.color), clone_option(&h.texture)),
        None => (None, None, None),
    }
}

/// The mesh of a collision.
pub open spec fn mesh_of(collision: Collision) -> Option<Mesh> {
    match collision.geometry {
        Some(g) => g.mesh,
        None => None,
    }
}

/// A collision with another mesh.
pub open spec fn with_mesh(collision: Collision, mesh: Mesh) -> Collision {
    Collision {
        geometry: Some(CollisionGeometry { mesh: Some(mesh), ..collision.geometry->0 }),
        ..collision
    }
}

/// What a walk does about a collision.
pub open spec fn collision_turn(collision: Collision) -> Turn {
    match mesh_of(collision) {
        Some(mesh) => if bakeable(mesh.uri) {
            Turn::Mesh {
                uri: mesh.uri->0@,
                spec: SpecView {
                    scale: types::option_view(mesh.scale),
                    color: None,
                    texture: None,
                    site: MeshSite::Collision,
                },
            }
        } else {
            Turn::Leave
        },
        None => Turn::Leave,
    }
}

/// What becomes of a collision: its mesh is an asset with the scale folded in, or what it was.
pub open spec fn collision_takes(
    prefix: Seq<char>,
    before: Collision,
    after: Collision,
    asset: Option<(Seq<char>, Seq<char>)>,
) -> bool {
    match asset {
        Some((name, sha)) => match mesh_of(after) {
            Some(mesh) => after == with_mesh(before, mesh) && mesh == (Mesh {
                uri: mesh.uri,
                sha: mesh.sha,
                scale: None,
                ..mesh_of(before)->0
            }) && types::option_view(mesh.uri) == Some(env::asset_uri(prefix, name)) && types::option_view(mesh.sha)
                == Some(sha),
            None => false,
        },
        None => after == before,
    }
}

/// Whether baking the mesh of a collision may have come to this.
pub open spec fn collision_meshed(
    w: Workings,
    uri: Seq<char>,
    spec: SpecView,
    prefix: Seq<char>,
    comp: Seq<char>,
    before: Collision,
    after: Collision,
    start: Tally,
    end: Tally,
) -> bool {
    exists|asset: Option<(Seq<char>, Seq<char>)>| #[trigger]
        asset::mesh_baked(
            w,
            uri,
            spec,
            collision_place(comp, types::option_view(before.name)),
            start.notes,
            end.notes,
            asset,
        ) && collision_takes(prefix, before, after, asset) && end.baked == start.baked
}

/// Whether a walk may turn one collision into another.
pub open spec fn collision_step(
    w: Workings,
    prefix: Seq<char>,
    comp: Seq<char>,
    before: Collision,
    after: Collision,
    start: Tally,
    end: Tally,
) -> bool {
    match collision_turn(before) {
        Turn::Mesh { uri, spec } => collision_meshed(
            w,
            uri,
            spec,
            prefix,
            comp,
            before,
            after,
            start,
            end,
        ),
        _ => after == before && end == start,
    }
}

/// The steps over the visuals of a component.
pub open spec fn visual_steps(
    w: Workings,
    hints: Seq<VisualAssetHint>,
    prefix: Seq<char>,
    comp: Seq<char>,
    before: Seq<Visual>,
    after: Seq<Visual>,
) -> spec_fn(int, Tally, Tally) -> bool {
    |i: int, a: Tally, b: Tally|
        visual_step(w, hints, prefix, comp, before[i], after[i], a, b)
}

/// The steps over the collisions of a component.
pub open spec fn collision_steps(
    w: Workings,
    prefix: Seq<char>,
    comp: Seq<char>,
    before: Seq<Collision>,
    after: Seq<Collision>,
) -> spec_fn(int, Tally, Tally) -> bool {
    |i: int, a: Tally, b: Tally| collision_step(w, prefix, comp, before[i], after[i], a, b)
}

/// Whether a walk may turn one component into another: first its visuals, then its collisions, and
/// nothing else.
pub open spec fn comp_step(
    w: Workings,
    hints: Seq<VisualAssetHint>,
    prefix: Seq<char>,
    before: Comp,
    after: Comp,
    start: Tally,
    end: Tally,
) -> bool {
    &&& after == (Comp { visual: after.visual, collision: after.collision, ..before })
    &&& after.visual@.len() == before.visual@.len()
    &&& after.collision@.len() == before.collision@.len()
    &&& exists|mid: Tally|
        #![trigger walked(
            before.visual@.len(),
            visual_steps(w, hints, prefix, before.name@, before.visual@, after.visual@),
            start,
            mid,
        )]
        walked(
            before.visual@.len(),
            visual_steps(w, hints, prefix, before.name@, before.visual@, after.visual@),
            start,
            mid,
        ) && walked(
            before.collision@.len(),
            collision_steps(w, prefix, before.name@, before.collision@, after.collision@),
            mid,
            end,
        )
}

/// The steps over the components of a document.
pub open spec fn comp_steps(
    w: Workings,
    hints: Seq<VisualAssetHint>,
    prefix: Seq<char>,
    before: Seq<Comp>,
    after: Seq<Comp>,
) -> spec_fn(int, Tally, Tally) -> bool {
    |i: int, a: Tally, b: Tally| comp_step(w, hints, prefix, before[i], after[i], a, b)
}

/// Whether baking may turn one document into another, and gather these notes and visuals.
pub open spec fn document_baked(
    w: Workings,
    hints: Seq<VisualAssetHint>,
    prefix: Seq<char>,
    before: Hcdf,
    after: Hcdf,
    notes: Seq<Seq<char>>,
    end: Tally,
) -> bool {
    &&& after == (Hcdf { comp: after.comp, ..before })
    &&& after.comp@.len() == before.comp@.len()
    &&& walked(
        before.comp@.len(),
        comp_steps(w, hints, prefix, before.comp@, after.comp@),
        Tally { notes, baked: Seq::empty() },
        end,
    )
}

impl<P, L, R, T, C, X, W> Workshop<P, L, R, T, C, X, W> where
    P: Fn(&str) -> Option<Float64>,
    L: Fn(&str) -> Option<String>,
    R: Fn(&str) -> Result<Vec<u8>, String>,
    T: Fn(&str, MeshSite) -> Result<(String, String), String>,
    C: Fn(&str, &MeshBakeSpec, &Option<HintTexture>) -> Result<BakedAsset, String>,
    X: Fn(&str, &HintTexture) -> Result<BakedAsset, String>,
    W: Fn(&str, &Vec<u8>) -> Result<(), WriteFault>,
 {
    pub(crate) fn bake_visual(
        &self,
        visual: &mut Visual,
        hints: &Vec<VisualAssetHint>,
        prefix: &str,
        comp: &str,
        notes: &mut Vec<String>,
        baked: &mut Vec<(String, String)>,
    )
        requires
            self.is_open(),
        ensures
            visual_step(
                self.workings(),
                hints@,
                prefix@,
                comp@,
                *old(visual),
                *final(visual),
                tally_of(old(notes)@, old(baked)@),
                tally_of(final(notes)@, final(baked)@),
            ),
    {
        let (scale, color, texture) = hint_parts(find_hint(hints, comp, visual.name.as_str()));
        let place = place_name("visual ", comp, visual.name.as_str());
        let ghost start = tally_of(notes@, baked@);
        let ghost turn = visual_turn(
            *visual,
            hint_for(hints@, comp@, visual.name@, hints@.len()),
        );
        let asset: Option<(String, String)> = match &visual.appearance {
            VisualAppearance::Model { model, .. } => {
                if !is_bakeable(&model.uri) {
                    return;
                }
                match &model.uri {
                    Some(uri) => {
                        let spec = MeshBakeSpec { scale, color, texture, site_kind: MeshSite::Visual };
                        assert(turn == Turn::Mesh { uri: uri@, spec: spec@ });
                        self.bake_one(uri.as_str(), &spec, place.as_str(), notes)
                    },
                    None => {
                        return;
                    },
                }
            },
            VisualAppearance::Primitive { geometry, .. } => {
                let size: Option<String> = match geometry {
                    Some(g) => match &g.box_ {
                        Some(b) => clone_option(&b.size),
                        None => None,
                    },
                    None => None,
                };
                match texture {
                    Some(texture) => {
                        assert(turn == Turn::Primitive { size: types::option_view(size), texture: texture@ });
                        self.bake_textured_primitive(&size, texture.as_str(), place.as_str(), notes)
                    },
                    None => {
                        return;
                    },
                }
            },
        };
        let ghost got = asset::asset_view(asset);
        if let Some((name, sha)) = asset {
            let uri = prefixed_uri(prefix, name.as_str());
            match &mut visual.appearance {
                VisualAppearance::Model { model, .. } => {
                    model.uri = Some(uri);
                    model.sha = Some(sha);
                },
                VisualAppearance::Primitive { .. } => {
                    visual.appearance = VisualAppearance::Model {
                        model: ModelRef {
                            uri: Some(uri),
                            sha: Some(sha),
                            submesh: Vec::new(),
                            exclude_submesh: Vec::new(),
                        },
                        geometry: None,
                    };
                },
            }
            insert_pair(baked, comp, visual.name.as_str());
        }
        proof {
            let end = tally_of(notes@, baked@);
            let place = visual_place(comp@, old(visual).name@);
            assert(visual_takes(prefix@, comp@, *old(visual), *visual, start, end, got));
            match turn {
                Turn::Mesh { uri, spec } => {
                    assert(asset::mesh_baked(
                        self.workings(),
                        uri,
                        spec,
                        place,
                        start.notes,
                        end.notes,
                        got,
                    ));
                },
                Turn::Primitive { size, texture } => {
                    assert(asset::box_baked(
                        self.workings(),
                        size,
                        texture,
                        place,
                        start.notes,
                        end.notes,
                        got,
                    ));
                },
                Turn::Leave => {},
            }
        }
    }

    pub(crate) fn bake_collision(
        &self,
        collision: &mut Collision,
        prefix: &str,
        comp: &str,
        notes: &mut Vec<String>,
        Ghost(baked): Ghost<Seq<(String, String)>>,
    )
        requires
            self.is_open(),
        ensures
            collision_step(
                self.workings(),
                prefix@,
                comp@,
                *old(collision),
                *final(collision),
                tally_of(old(notes)@, baked),
                tally_of(final(notes)@, baked),
            ),
    {
        let name: String = match &collision.name {
            Some(name) => name.clone(),
            None => "<unnamed>".to_owned(),
        };
        let place = place_name("collision ", comp, name.as_str());
        let ghost start = tally_of(notes@, baked);
        let ghost turn = collision_turn(*collision);
        let asset: Option<(String, String)> = match &collision.geometry {
            Some(geometry) => match &geometry.mesh {
                Some(mesh) => {
                    if !is_bakeable(&mesh.uri) {
                        return;
                    }
                    match &mesh.uri {
                        Some(uri) => {
                            let spec = MeshBakeSpec {
                                scale: clone_option(&mesh.scale),
                                color: None,
                                texture: None,
                                site_kind: MeshSite::Collision,
                            };
                            assert(turn == Turn::Mesh { uri: uri@, spec: spec@ });
                            self.bake_one(uri.as_str(), &spec, place.as_str(), notes)
                        },
                        None => {
                            return;
                        },
                    }
                },
                None => {
                    return;
                },
            },
            None => {
                return;
            },
        };
        let ghost got = asset::asset_view(asset);
        if let Some((name, sha)) = asset {
            let uri = prefixed_uri(prefix, name.as_str());
            if let Some(geometry) = &mut collision.geometry {
                if let Some(mesh) = &mut geometry.mesh {
                    mesh.uri = Some(uri);
                    mesh.sha = Some(sha);
                    mesh.scale = None;
                }
            }
        }
        proof {
            let end = tally_of(notes@, baked);
            let place = collision_place(comp@, types::option_view(old(collision).name));
            assert(collision_takes(prefix@, *old(collision), *collision, got));
            if let Turn::Mesh { uri, spec } = turn {
                assert(asset::mesh_baked(
                    self.workings(),
                    uri,
                    spec,
                    place,
                    start.notes,
                    end.notes,
                    got,
                ));
            }
        }
    }

    pub(crate) fn bake_visuals(
        &self,
        list: &mut Vec<Visual>,
        hints: &Vec<VisualAssetHint>,
        prefix: &str,
        comp: &str,
        notes: &mut Vec<String>,
        baked: &mut Vec<(String, String)>,
    )
        requires
            self.is_open(),
        ensures
            final(list)@.len() == old(list)@.len(),
            walked(
                old(list)@.len(),
                visual_steps(self.workings(), hints@, prefix@, comp@, old(list)@, final(list)@),
                tally_of(old(notes)@, old(baked)@),
                tally_of(final(notes)@, final(baked)@),
            ),
    {
        let ghost f = self.workings();
        let ghost start = list@;
        let ghost first = tally_of(notes@, baked@);
        let n: usize = list.len();
        let mut i: usize = 0;
        while i < n
            invariant
                i <= n == start.len() == list@.len(),
                self.is_open(),
                f == self.workings(),
                forall|k: int| i <= k < n ==> list@[k] == start[k],
                walked(
                    i as nat,
                    visual_steps(f, hints@, prefix@, comp@, start, list@),
                    first,
                    tally_of(notes@, baked@),
                ),
            decreases n - i,
        {
            let ghost had = list@;
            let ghost reached = tally_of(notes@, baked@);
            self.bake_visual(&mut list[i], hints, prefix, comp, notes, baked);
            proof {
                let before = visual_steps(f, hints@, prefix@, comp@, start, had);
                let step = visual_steps(f, hints@, prefix@, comp@, start, list@);
                assert(list@ =~= had.update(i as int, list@[i as int]));
                assert forall|k: int, a: Tally, b: Tally| 0 <= k < i implies #[trigger] step(k, a, b)
                    == before(k, a, b) by {
                    assert(list@[k] == had[k]);
                }
                walk_goes_on(i as nat, before, step, first, reached, tally_of(notes@, baked@));
            }
            i += 1;
        }
    }

    pub(crate) fn bake_collisions(
        &self,
        list: &mut Vec<Collision>,
        prefix: &str,
        comp: &str,
        notes: &mut Vec<String>,
        Ghost(baked): Ghost<Seq<(String, String)>>,
    )
        requires
            self.is_open(),
        ensures
            final(list)@.len() == old(list)@.len(),
            walked(
                old(list)@.len(),
                collision_steps(self.workings(), prefix@, comp@, old(list)@, final(list)@),
                tally_of(old(notes)@, baked),
                tally_of(final(notes)@, baked),
            ),
    {
        let ghost f = self.workings();
        let ghost start = list@;
        let ghost first = tally_of(notes@, baked);
        let n: usize = list.len();
        let mut i: usize = 0;
        while i < n
            invariant
                i <= n == start.len() == list@.len(),
                self.is_open(),
                f == self.workings(),
                forall|k: int| i <= k < n ==> list@[k] == start[k],
                walked(
                    i as nat,
                    collision_steps(f, prefix@, comp@, start, list@),
                    first,
                    tally_of(notes@, baked),
                ),
            decreases n - i,
        {
            let ghost had = list@;
            let ghost reached = tally_of(notes@, baked);
            self.bake_collision(&mut list[i], prefix, comp, notes, Ghost(baked));
            proof {
                let before = collision_steps(f, prefix@, comp@, start, had);
                let step = collision_steps(f, prefix@, comp@, start, list@);
                assert(list@ =~= had.update(i as int, list@[i as int]));
                assert forall|k: int, a: Tally, b: Tally| 0 <= k < i implies #[trigger] step(k, a, b)
                    == before(k, a, b) by {
                    assert(list@[k] == had[k]);
                }
                walk_goes_on(i as nat, before, step, first, reached, tally_of(notes@, baked));
            }
            i += 1;
        }
    }

    pub(crate) fn bake_comp(
        &self,
        comp: &mut Comp,
        hints: &Vec<VisualAssetHint>,
        prefix: &str,
        notes: &mut Vec<String>,
        baked: &mut Vec<(String, String)>,
    )
        requires
            self.is_open(),
        ensures
            comp_step(
                self.workings(),
                hints@,
                prefix@,
                *old(comp),
                *final(comp),
                tally_of(old(notes)@, old(baked)@),
                tally_of(final(notes)@, final(baked)@),
            ),
    {
        let name = comp.name.clone();
        self.bake_visuals(&mut comp.visual, hints, prefix, name.as_str(), notes, baked);
        let ghost mid = tally_of(notes@, baked@);
        assert(walked(
            old(comp).visual@.len(),
            visual_steps(
                self.workings(),
                hints@,
                prefix@,
                old(comp).name@,
                old(comp).visual@,
                comp.visual@,
            ),
            tally_of(old(notes)@, old(baked)@),
            mid,
        ));
        self.bake_collisions(
            &mut comp.collision,
            prefix,
            name.as_str(),
            notes,
            Ghost(baked@),
        );
    }
}

/// Has an asset made for each mesh that the visuals and the collisions of a document refer to, and for
/// each box with a texture, and refers to the assets from then on. What brings no asset stays what it
/// was, with a note. The result lists the visuals that have an asset now, in ascending order of component
/// and name.
pub fn bake_document<P, L, R, T, C, X, W>(
    doc: &mut Hcdf,
    hints: &Vec<VisualAssetHint>,
    env: &BakeEnv,
    notes: &mut Vec<String>,
    shop: &Workshop<P, L, R, T, C, X, W>,
) -> (r: Vec<(String, String)>) where
    P: Fn(&str) -> Option<Float64>,
    L: Fn(&str) -> Option<String>,
    R: Fn(&str) -> Result<Vec<u8>, String>,
    T: Fn(&str, MeshSite) -> Result<(String, String), String>,
    C: Fn(&str, &MeshBakeSpec, &Option<HintTexture>) -> Result<BakedAsset, String>,
    X: Fn(&str, &HintTexture) -> Result<BakedAsset, String>,
    W: Fn(&str, &Vec<u8>) -> Result<(), WriteFault>,

    requires
        shop.is_open(),
    ensures
        document_baked(
            shop.workings(),
            hints@,
            env.uri_prefix@,
            *old(doc),
            *final(doc),
            sorting::text_views(old(notes)@),
            tally_of(final(notes)@, r@),
        ),
{
    let mut baked: Vec<(String, String)> = Vec::new();
    let ghost f = shop.workings();
    let ghost start = doc.comp@;
    let ghost first = tally_of(notes@, baked@);
    let prefix = env.uri_prefix.as_str();
    let n: usize = doc.comp.len();
    let mut i: usize = 0;
    while i < n
        invariant
            i <= n == start.len() == doc.comp@.len(),
            start == old(doc).comp@,
            *doc == (Hcdf { comp: doc.comp, ..*old(doc) }),
            shop.is_open(),
            f == shop.workings(),
            prefix@ == env.uri_prefix@,
            forall|k: int| i <= k < n ==> doc.comp@[k] == start[k],
            walked(
                i as nat,
                comp_steps(f, hints@, prefix@, start, doc.comp@),
                first,
                tally_of(notes@, baked@),
            ),
        decreases n - i,
    {
        let ghost had = doc.comp@;
        let ghost reached = tally_of(notes@, baked@);
        shop.bake_comp(&mut doc.comp[i], hints, prefix, notes, &mut baked);
        proof {
            let before = comp_steps(f, hints@, prefix@, start, had);
            let step = comp_steps(f, hints@, prefix@, start, doc.comp@);
            assert(doc.comp@ =~= had.update(i as int, doc.comp@[i as int]));
            assert forall|k: int, a: Tally, b: Tally| 0 <= k < i implies #[trigger] step(k, a, b)
                == before(k, a, b) by {
                assert(doc.comp@[k] == had[k]);
            }
            walk_goes_on(i as nat, before, step, first, reached, tally_of(notes@, baked@));
        }
        i += 1;
    }
    assert(first.baked =~= Seq::empty());
    baked
}

} // verus!
