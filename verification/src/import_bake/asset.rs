//! Making one asset.
use vstd::prelude::*;
use crate::float::Float64;
use crate::sorting;
use crate::text;
use super::names::{asset_name, safe_stem};
use super::names;
use super::plan::{MeshPlan, mesh_plan, plan_notes, scale_is_none_or_identity, texture_note};
use super::plan;
use super::types::{AssetView, BakedAsset, HintTexture, MeshBakeSpec, MeshSite, SpecView, TextureView, WriteFault, WriteFaultView};
use super::types;
use super::workshop::{Made, Workings, Workshop};
use super::workshop;

verus! {

/// The notes of a conversion, each with the place that it is about.
pub open spec fn placed(place: Seq<char>, notes: Seq<Seq<char>>) -> Seq<Seq<char>> {
    notes.map_values(|note: Seq<char>| place + ": "@ + note)
}

/// Whether the texture of a mesh may have been found: one that is asked for is looked up and read, and
/// one that is missing is noted.
pub open spec fn texture_found(
    w: Workings,
    texture: Option<Seq<char>>,
    place: Seq<char>,
    before: Seq<Seq<char>>,
    after: Seq<Seq<char>>,
    found: Option<TextureView>,
) -> bool {
    match texture {
        None => after == before && found is None,
        Some(uri) => texture_looked_up(w, uri, place, before, after, found),
    }
}

/// Whether a texture may have been looked up, and come to this.
pub open spec fn texture_looked_up(
    w: Workings,
    uri: Seq<char>,
    place: Seq<char>,
    before: Seq<Seq<char>>,
    after: Seq<Seq<char>>,
    found: Option<TextureView>,
) -> bool {
    exists|path: Option<Seq<char>>| #[trigger]
        workshop::may_look_up(w, uri, path) && texture_at(w, path, uri, place, before, after, found)
}

/// What becomes of a texture that is found, or not.
pub open spec fn texture_at(
    w: Workings,
    path: Option<Seq<char>>,
    uri: Seq<char>,
    place: Seq<char>,
    before: Seq<Seq<char>>,
    after: Seq<Seq<char>>,
    found: Option<TextureView>,
) -> bool {
    match path {
        None => after == before.push(place + ": "@ + plan::texture_note_due(uri, None)) && found is None,
        Some(p) => texture_opened(w, p, uri, place, before, after, found),
    }
}

/// Whether a texture may have been opened, and come to this.
pub open spec fn texture_opened(
    w: Workings,
    path: Seq<char>,
    uri: Seq<char>,
    place: Seq<char>,
    before: Seq<Seq<char>>,
    after: Seq<Seq<char>>,
    found: Option<TextureView>,
) -> bool {
    exists|bytes: Result<Seq<u8>, Seq<char>>| #[trigger]
        workshop::may_read(w, path, bytes) && texture_read(bytes, uri, place, before, after, found)
}

/// What becomes of a texture that is read, or not.
pub open spec fn texture_read(
    bytes: Result<Seq<u8>, Seq<char>>,
    uri: Seq<char>,
    place: Seq<char>,
    before: Seq<Seq<char>>,
    after: Seq<Seq<char>>,
    found: Option<TextureView>,
) -> bool {
    match bytes {
        Ok(b) => after == before && found == Some(TextureView { bytes: b, name: uri }),
        Err(e) => after == before.push(place + ": "@ + plan::texture_note_due(uri, Some(e))) && found
            is None,
    }
}

/// Why an asset could not be written.
pub open spec fn write_error(fault: WriteFaultView) -> Seq<char> {
    match fault {
        WriteFaultView::Directory(e) => "could not create bake dir: "@ + e,
        WriteFaultView::File(e) => "could not write baked mesh: "@ + e,
    }
}

/// Whether writing a converted asset may have come to this.
pub open spec fn asset_written(w: Workings, stem: Seq<char>, asset: AssetView, made: Made) -> bool {
    let name = names::asset_file(stem, asset.sha, asset.ext);
    exists|r: Result<(), WriteFaultView>| #[trigger]
        workshop::may_write(w, name, asset.data, r) && made == made_of(name, asset.sha, r)
}

/// What writing an asset comes to.
pub open spec fn made_of(
    name: Seq<char>,
    sha: Seq<char>,
    r: Result<(), WriteFaultView>,
) -> Made {
    match r {
        Ok(_) => Ok((name, sha)),
        Err(fault) => Err(write_error(fault)),
    }
}

/// How the asset of a mesh is made.
pub open spec fn plan_of(w: Workings, path: Seq<char>, spec: SpecView) -> MeshPlan {
    plan::planned(
        w.style,
        path,
        spec.site,
        plan::is_identity_scale(w.readings, spec.scale),
        spec.color is Some,
        spec.texture is Some,
    )
}

/// Whether converting a source may have come to this.
pub open spec fn mesh_converted(
    w: Workings,
    path: Seq<char>,
    spec: SpecView,
    texture: Option<TextureView>,
    place: Seq<char>,
    before: Seq<Seq<char>>,
    after: Seq<Seq<char>>,
    made: Made,
) -> bool {
    exists|r: Result<AssetView, Seq<char>>| #[trigger]
        workshop::may_convert(w, path, spec, texture, r) && match r {
            Ok(asset) => after == before + placed(place, asset.notes) && asset_written(
                w,
                names::safe_name(names::name_stem(names::file_name(w.style, path))),
                asset,
                made,
            ),
            Err(e) => after == before && made == Err::<(Seq<char>, Seq<char>), Seq<char>>(e),
        }
}

/// Whether taking a source over may have come to this.
pub open spec fn mesh_taken_over(w: Workings, path: Seq<char>, site: MeshSite, made: Made) -> bool {
    exists|r: Made| #[trigger]
        workshop::may_take_over(w, path, site, r) && made == match r {
            Ok(asset) => Ok::<(Seq<char>, Seq<char>), Seq<char>>(asset),
            Err(e) => Err("copy failed: "@ + e),
        }
}

/// Whether baking a source that has been found may have come to this.
pub open spec fn mesh_resolved(
    w: Workings,
    path: Seq<char>,
    spec: SpecView,
    place: Seq<char>,
    before: Seq<Seq<char>>,
    after: Seq<Seq<char>>,
    made: Made,
) -> bool {
    let plan = plan_of(w, path, spec);
    match plan {
        MeshPlan::TakeOver { .. } => after == before + placed(place, plan::plan_notes_due(plan))
            && mesh_taken_over(w, path, spec.site, made),
        MeshPlan::Convert => mesh_textured(w, path, spec, place, before, after, made),
    }
}

/// Whether converting a source with its texture may have come to this.
pub open spec fn mesh_textured(
    w: Workings,
    path: Seq<char>,
    spec: SpecView,
    place: Seq<char>,
    before: Seq<Seq<char>>,
    after: Seq<Seq<char>>,
    made: Made,
) -> bool {
    exists|texture: Option<TextureView>, mid: Seq<Seq<char>>| #[trigger]
        texture_found(w, spec.texture, place, before, mid, texture) && mesh_converted(
            w,
            path,
            spec,
            texture,
            place,
            mid,
            after,
            made,
        )
}

/// Whether baking a mesh may have led from the notes before to the notes after, and to this asset.
pub open spec fn mesh_baked(
    w: Workings,
    uri: Seq<char>,
    spec: SpecView,
    place: Seq<char>,
    before: Seq<Seq<char>>,
    after: Seq<Seq<char>>,
    asset: Option<(Seq<char>, Seq<char>)>,
) -> bool {
    exists|path: Option<Seq<char>>| #[trigger]
        workshop::may_look_up(w, uri, path) && mesh_at(w, path, uri, spec, place, before, after, asset)
}

/// What becomes of a mesh whose source is found, or not.
pub open spec fn mesh_at(
    w: Workings,
    path: Option<Seq<char>>,
    uri: Seq<char>,
    spec: SpecView,
    place: Seq<char>,
    before: Seq<Seq<char>>,
    after: Seq<Seq<char>>,
    asset: Option<(Seq<char>, Seq<char>)>,
) -> bool {
    match path {
        None => asset is None && after == before.push(unresolved_mesh(place, uri)),
        Some(p) => mesh_found(w, p, uri, spec, place, before, after, asset),
    }
}

/// What becomes of a mesh whose source is found.
pub open spec fn mesh_found(
    w: Workings,
    path: Seq<char>,
    uri: Seq<char>,
    spec: SpecView,
    place: Seq<char>,
    before: Seq<Seq<char>>,
    after: Seq<Seq<char>>,
    asset: Option<(Seq<char>, Seq<char>)>,
) -> bool {
    exists|mid: Seq<Seq<char>>, made: Made| #[trigger]
        mesh_resolved(w, path, spec, place, before, mid, made) && mesh_kept(
            made,
            uri,
            place,
            mid,
            after,
            asset,
        )
}

/// What becomes of a mesh that an asset is made of, or not.
pub open spec fn mesh_kept(
    made: Made,
    uri: Seq<char>,
    place: Seq<char>,
    before: Seq<Seq<char>>,
    after: Seq<Seq<char>>,
    asset: Option<(Seq<char>, Seq<char>)>,
) -> bool {
    match made {
        Ok(a) => asset == Some(a) && after == before,
        Err(e) => asset is None && after == before.push(unbaked_mesh(place, uri, e)),
    }
}

/// What is noted of a mesh whose source is not found.
pub open spec fn unresolved_mesh(place: Seq<char>, uri: Seq<char>) -> Seq<char> {
    place + ": mesh "@ + text::debug_chars(uri)
        + " could not be resolved (pass --package PKG=PATH / check the path); left as the source reference"@
}

/// What is noted of a mesh that no asset comes of.
pub open spec fn unbaked_mesh(place: Seq<char>, uri: Seq<char>, error: Seq<char>) -> Seq<char> {
    place + ": could not bake mesh "@ + text::debug_chars(uri) + ": "@ + error
        + "; left as the source reference"@
}

/// What is noted of a box whose texture is not put on it, with what was to be done about the texture.
pub open spec fn plain_box(place: Seq<char>, what: Seq<char>, uri: Seq<char>, why: Seq<char>) -> Seq<
    char,
> {
    place + what + text::debug_chars(uri) + why + "; the primitive keeps its flat colour"@
}

/// Whether putting a texture on a box may have led from the notes before to the notes after, and to
/// this asset. A primitive without a box has none.
pub open spec fn box_baked(
    w: Workings,
    size: Option<Seq<char>>,
    uri: Seq<char>,
    place: Seq<char>,
    before: Seq<Seq<char>>,
    after: Seq<Seq<char>>,
    asset: Option<(Seq<char>, Seq<char>)>,
) -> bool {
    match size {
        None => asset is None && after == before.push(
            plain_box(
                place,
                ": albedo map "@,
                uri,
                " not applied (textured-primitive synthesis handles <box> (and the <plane> imported as one) only)"@,
            ),
        ),
        Some(extents) => box_looked_up(w, extents, uri, place, before, after, asset),
    }
}

/// Whether the texture of a box may have been looked up, and come to this.
pub open spec fn box_looked_up(
    w: Workings,
    size: Seq<char>,
    uri: Seq<char>,
    place: Seq<char>,
    before: Seq<Seq<char>>,
    after: Seq<Seq<char>>,
    asset: Option<(Seq<char>, Seq<char>)>,
) -> bool {
    exists|path: Option<Seq<char>>| #[trigger]
        workshop::may_look_up(w, uri, path) && box_at(w, path, size, uri, place, before, after, asset)
}

/// What becomes of a box whose texture is found, or not.
pub open spec fn box_at(
    w: Workings,
    path: Option<Seq<char>>,
    size: Seq<char>,
    uri: Seq<char>,
    place: Seq<char>,
    before: Seq<Seq<char>>,
    after: Seq<Seq<char>>,
    asset: Option<(Seq<char>, Seq<char>)>,
) -> bool {
    match path {
        None => asset is None && after == before.push(
            plain_box(
                place,
                ": texture "@,
                uri,
                " could not be resolved (pass --package PKG=PATH / check the path)"@,
            ),
        ),
        Some(p) => box_opened(w, p, size, uri, place, before, after, asset),
    }
}

/// Whether the texture of a box may have been opened, and come to this.
pub open spec fn box_opened(
    w: Workings,
    path: Seq<char>,
    size: Seq<char>,
    uri: Seq<char>,
    place: Seq<char>,
    before: Seq<Seq<char>>,
    after: Seq<Seq<char>>,
    asset: Option<(Seq<char>, Seq<char>)>,
) -> bool {
    exists|bytes: Result<Seq<u8>, Seq<char>>| #[trigger]
        workshop::may_read(w, path, bytes) && box_read(
            w,
            bytes,
            path,
            size,
            uri,
            place,
            before,
            after,
            asset,
        )
}

/// What becomes of a box whose texture is read, or not.
pub open spec fn box_read(
    w: Workings,
    bytes: Result<Seq<u8>, Seq<char>>,
    path: Seq<char>,
    size: Seq<char>,
    uri: Seq<char>,
    place: Seq<char>,
    before: Seq<Seq<char>>,
    after: Seq<Seq<char>>,
    asset: Option<(Seq<char>, Seq<char>)>,
) -> bool {
    match bytes {
        Err(e) => asset is None && after == before.push(
            plain_box(place, ": texture "@, uri, " could not be read ("@ + e + ")"@),
        ),
        Ok(b) => box_textured(
            w,
            TextureView { bytes: b, name: path },
            size,
            uri,
            place,
            before,
            after,
            asset,
        ),
    }
}

/// Whether putting a texture on a box may have come to this.
pub open spec fn box_textured(
    w: Workings,
    texture: TextureView,
    size: Seq<char>,
    uri: Seq<char>,
    place: Seq<char>,
    before: Seq<Seq<char>>,
    after: Seq<Seq<char>>,
    asset: Option<(Seq<char>, Seq<char>)>,
) -> bool {
    exists|r: Result<AssetView, Seq<char>>| #[trigger]
        workshop::may_dress_box(w, size, texture, r) && box_dressed(
            w,
            r,
            texture.name,
            uri,
            place,
            before,
            after,
            asset,
        )
}

/// What becomes of a box that a texture is put on, or not.
pub open spec fn box_dressed(
    w: Workings,
    r: Result<AssetView, Seq<char>>,
    path: Seq<char>,
    uri: Seq<char>,
    place: Seq<char>,
    before: Seq<Seq<char>>,
    after: Seq<Seq<char>>,
    asset: Option<(Seq<char>, Seq<char>)>,
) -> bool {
    match r {
        Err(e) => asset is None && after == before.push(
            plain_box(place, ": could not bake textured primitive with "@, uri, ": "@ + e),
        ),
        Ok(converted) => box_written(w, converted, path, uri, place, before, after, asset),
    }
}

/// Whether writing the asset of a box may have come to this.
pub open spec fn box_written(
    w: Workings,
    converted: AssetView,
    path: Seq<char>,
    uri: Seq<char>,
    place: Seq<char>,
    before: Seq<Seq<char>>,
    after: Seq<Seq<char>>,
    asset: Option<(Seq<char>, Seq<char>)>,
) -> bool {
    exists|made: Made| #[trigger]
        asset_written(w, names::safe_name(names::name_stem(names::file_name(w.style, path))), converted, made) && box_kept(
            made,
            uri,
            place,
            before,
            after,
            asset,
        )
}

/// What becomes of a box whose asset is written, or not.
pub open spec fn box_kept(
    made: Made,
    uri: Seq<char>,
    place: Seq<char>,
    before: Seq<Seq<char>>,
    after: Seq<Seq<char>>,
    asset: Option<(Seq<char>, Seq<char>)>,
) -> bool {
    match made {
        Ok(a) => asset == Some(a) && after == before,
        Err(e) => asset is None && after == before.push(
            plain_box(place, ": could not write the textured-primitive GLB for "@, uri, ": "@ + e),
        ),
    }
}

fn plain_box_note(place: &str, what: &str, uri: &str, why: &str) -> (r: String)
    ensures
        r@ == plain_box(place@, what@, uri@, why@),
{
    let mut out: String = place.to_owned();
    out.append(what);
    out.append(text::debug_text(uri).as_str());
    out.append(why);
    out.append("; the primitive keeps its flat colour");
    out
}

fn note_down(notes: &mut Vec<String>, note: String)
    ensures
        sorting::text_views(final(notes)@) == sorting::text_views(old(notes)@).push(note@),
{
    let ghost shown = note@;
    notes.push(note);
    assert(sorting::text_views(notes@) =~= sorting::text_views(old(notes)@).push(shown));
}

fn note_all(notes: &mut Vec<String>, place: &str, more: &Vec<String>)
    ensures
        sorting::text_views(final(notes)@) == sorting::text_views(old(notes)@) + placed(
            place@,
            sorting::text_views(more@),
        ),
{
    let ghost start = sorting::text_views(notes@);
    let ghost wanted = placed(place@, sorting::text_views(more@));
    let mut i: usize = 0;
    assert(start + wanted.take(0) =~= start);
    while i < more.len()
        invariant
            i <= more@.len() == wanted.len(),
            wanted == placed(place@, sorting::text_views(more@)),
            sorting::text_views(notes@) == start + wanted.take(i as int),
        decreases more@.len() - i,
    {
        let mut note: String = place.to_owned();
        note.append(": ");
        note.append(more[i].as_str());
        assert(sorting::text_views(more@)[i as int] == more@[i as int]@);
        assert(note@ == wanted[i as int]);
        note_down(notes, note);
        assert(start + wanted.take(i + 1) =~= (start + wanted.take(i as int)).push(
            wanted[i as int],
        ));
        i += 1;
    }
    assert(wanted.take(wanted.len() as int) =~= wanted);
}

impl<P, L, R, T, C, X, W> Workshop<P, L, R, T, C, X, W> where
    P: Fn(&str) -> Option<Float64>,
    L: Fn(&str) -> Option<String>,
    R: Fn(&str) -> Result<Vec<u8>, String>,
    T: Fn(&str, MeshSite) -> Result<(String, String), String>,
    C: Fn(&str, &MeshBakeSpec, &Option<HintTexture>) -> Result<BakedAsset, String>,
    X: Fn(&str, &HintTexture) -> Result<BakedAsset, String>,
    W: Fn(&str, &Vec<u8>) -> Result<(), WriteFault>,
 {
    /// Finds the texture of a mesh, and notes a miss.
    pub(crate) fn find_texture(&self, texture: &Option<String>, place: &str, notes: &mut Vec<String>) -> (r:
        Option<HintTexture>)
        requires
            self.is_open(),
        ensures
            texture_found(
                self.workings(),
                types::option_view(*texture),
                place@,
                sorting::text_views(old(notes)@),
                sorting::text_views(final(notes)@),
                workshop::texture_view(r),
            ),
    {
        let uri: &String = match texture {
            Some(uri) => uri,
            None => {
                return None;
            },
        };
        let mut note: String = place.to_owned();
        note.append(": ");
        let ghost before = sorting::text_views(notes@);
        let path = self.looked_up(uri.as_str());
        let ghost at = types::option_view(path);
        let r: Option<HintTexture> = match path {
            None => {
                note.append(texture_note(uri.as_str(), None).as_str());
                note_down(notes, note);
                None
            },
            Some(path) => {
                let bytes = self.bytes_of(path.as_str());
                let ghost got = workshop::bytes_view(bytes);
                let r: Option<HintTexture> = match bytes {
                    Ok(bytes) => Some(HintTexture { bytes, name: uri.clone() }),
                    Err(e) => {
                        note.append(texture_note(uri.as_str(), Some(e.as_str())).as_str());
                        note_down(notes, note);
                        None
                    },
                };
                assert(texture_read(
                    got,
                    uri@,
                    place@,
                    before,
                    sorting::text_views(notes@),
                    workshop::texture_view(r),
                ));
                r
            },
        };
        assert(texture_at(
            self.workings(),
            at,
            uri@,
            place@,
            before,
            sorting::text_views(notes@),
            workshop::texture_view(r),
        ));
        r
    }

    /// Writes a converted asset under a name made of the stem and the digest.
    pub(crate) fn write_converted(&self, stem: &str, asset: &BakedAsset) -> (r: Result<
        (String, String),
        String,
    >)
        requires
            self.is_open(),
        ensures
            asset_written(self.workings(), stem@, asset@, workshop::made_view(r)),
    {
        let name = asset_name(stem, asset.sha.as_str(), asset.ext.as_str());
        let done = self.put(name.as_str(), &asset.data);
        let ghost came = workshop::written_view(done);
        assert(workshop::may_write(self.workings(), name@, asset@.data, came));
        match done {
            Ok(_) => {
                let r: Result<(String, String), String> = Ok((name, asset.sha.clone()));
                assert(workshop::made_view(r) == made_of(names::asset_file(stem@, asset@.sha, asset@.ext), asset@.sha, came));
                r
            },
            Err(WriteFault::Directory(e)) => {
                let mut out: String = "could not create bake dir: ".to_owned();
                out.append(e.as_str());
                Err(out)
            },
            Err(WriteFault::File(e)) => {
                let mut out: String = "could not write baked mesh: ".to_owned();
                out.append(e.as_str());
                Err(out)
            },
        }
    }

    /// Converts a source and writes the asset.
    pub(crate) fn convert_mesh(
        &self,
        path: &str,
        spec: &MeshBakeSpec,
        texture: &Option<HintTexture>,
        place: &str,
        notes: &mut Vec<String>,
    ) -> (r: Result<(String, String), String>)
        requires
            self.is_open(),
        ensures
            mesh_converted(
                self.workings(),
                path@,
                spec@,
                workshop::texture_view(*texture),
                place@,
                sorting::text_views(old(notes)@),
                sorting::text_views(final(notes)@),
                workshop::made_view(r),
            ),
    {
        let converted = self.converted(path, spec, texture);
        let ghost came = workshop::asset_result_view(converted);
        assert(workshop::may_convert(self.workings(), path@, spec@, workshop::texture_view(*texture), came));
        match converted {
            Ok(asset) => {
                note_all(notes, place, &asset.notes);
                self.write_converted(safe_stem(self.style, path).as_str(), &asset)
            },
            Err(e) => Err(e),
        }
    }

    /// Bakes a source that has been found.
    pub(crate) fn bake_resolved(
        &self,
        path: &str,
        spec: &MeshBakeSpec,
        place: &str,
        notes: &mut Vec<String>,
    ) -> (r: Result<(String, String), String>)
        requires
            self.is_open(),
        ensures
            mesh_resolved(
                self.workings(),
                path@,
                spec@,
                place@,
                sorting::text_views(old(notes)@),
                sorting::text_views(final(notes)@),
                workshop::made_view(r),
            ),
    {
        let scale: Option<&str> = match &spec.scale {
            Some(s) => Some(s.as_str()),
            None => None,
        };
        let unscaled = scale_is_none_or_identity(&self.parse, scale);
        let plan = mesh_plan(
            self.style,
            path,
            spec.site_kind,
            unscaled,
            spec.color.is_some(),
            spec.texture.is_some(),
        );
        assert(plan == plan_of(self.workings(), path@, spec@));
        match plan {
            MeshPlan::TakeOver { .. } => {
                note_all(notes, place, &plan_notes(plan));
                let taken = self.taken_over(path, spec.site_kind);
                let ghost came = workshop::made_view(taken);
                assert(workshop::may_take_over(self.workings(), path@, spec@.site, came));
                match taken {
                    Ok(asset) => Ok(asset),
                    Err(e) => {
                        let mut out: String = "copy failed: ".to_owned();
                        out.append(e.as_str());
                        Err(out)
                    },
                }
            },
            MeshPlan::Convert => {
                let texture = self.find_texture(&spec.texture, place, notes);
                self.convert_mesh(path, spec, &texture, place, notes)
            },
        }
    }

    /// Bakes a mesh: looks its source up, makes the asset, and notes a miss.
    pub(crate) fn bake_one(&self, uri: &str, spec: &MeshBakeSpec, place: &str, notes: &mut Vec<String>) -> (r:
        Option<(String, String)>)
        requires
            self.is_open(),
        ensures
            mesh_baked(
                self.workings(),
                uri@,
                spec@,
                place@,
                sorting::text_views(old(notes)@),
                sorting::text_views(final(notes)@),
                asset_view(r),
            ),
    {
        let ghost before = sorting::text_views(notes@);
        let path = self.looked_up(uri);
        let ghost at = types::option_view(path);
        let mut note: String = place.to_owned();
        let r: Option<(String, String)> = match path {
            None => {
                note.append(": mesh ");
                note.append(text::debug_text(uri).as_str());
                note.append(
                    " could not be resolved (pass --package PKG=PATH / check the path); left as the source reference",
                );
                note_down(notes, note);
                None
            },
            Some(path) => {
                let made = self.bake_resolved(path.as_str(), spec, place, notes);
                let ghost mid = sorting::text_views(notes@);
                let ghost came = workshop::made_view(made);
                let r: Option<(String, String)> = match made {
                    Ok(asset) => Some(asset),
                    Err(e) => {
                        note.append(": could not bake mesh ");
                        note.append(text::debug_text(uri).as_str());
                        note.append(": ");
                        note.append(e.as_str());
                        note.append("; left as the source reference");
                        note_down(notes, note);
                        None
                    },
                };
                assert(mesh_kept(
                    came,
                    uri@,
                    place@,
                    mid,
                    sorting::text_views(notes@),
                    asset_view(r),
                ));
                r
            },
        };
        assert(mesh_at(
            self.workings(),
            at,
            uri@,
            spec@,
            place@,
            before,
            sorting::text_views(notes@),
            asset_view(r),
        ));
        r
    }

    /// Puts a texture on a box, and notes a miss.
    pub(crate) fn bake_textured_primitive(
        &self,
        size: &Option<String>,
        uri: &str,
        place: &str,
        notes: &mut Vec<String>,
    ) -> (r: Option<(String, String)>)
        requires
            self.is_open(),
        ensures
            box_baked(
                self.workings(),
                types::option_view(*size),
                uri@,
                place@,
                sorting::text_views(old(notes)@),
                sorting::text_views(final(notes)@),
                asset_view(r),
            ),
    {
        let extents: &String = match size {
            Some(extents) => extents,
            None => {
                note_down(
                    notes,
                    plain_box_note(
                        place,
                        ": albedo map ",
                        uri,
                        " not applied (textured-primitive synthesis handles <box> (and the <plane> imported as one) only)",
                    ),
                );
                return None;
            },
        };
        let ghost before = sorting::text_views(notes@);
        let path = self.looked_up(uri);
        let ghost at = types::option_view(path);
        let r: Option<(String, String)> = match path {
            Some(path) => {
                let read = self.bytes_of(path.as_str());
                self.bake_box_with(read, path, extents.as_str(), uri, place, notes)
            },
            None => {
                note_down(
                    notes,
                    plain_box_note(
                        place,
                        ": texture ",
                        uri,
                        " could not be resolved (pass --package PKG=PATH / check the path)",
                    ),
                );
                None
            },
        };
        assert(box_at(
            self.workings(),
            at,
            extents@,
            uri@,
            place@,
            before,
            sorting::text_views(notes@),
            asset_view(r),
        ));
        r
    }

    /// Puts a texture on a box, once it has been read, or not.
    pub(crate) fn bake_box_with(
        &self,
        read: Result<Vec<u8>, String>,
        path: String,
        size: &str,
        uri: &str,
        place: &str,
        notes: &mut Vec<String>,
    ) -> (r: Option<(String, String)>)
        requires
            self.is_open(),
        ensures
            box_read(
                self.workings(),
                workshop::bytes_view(read),
                path@,
                size@,
                uri@,
                place@,
                sorting::text_views(old(notes)@),
                sorting::text_views(final(notes)@),
                asset_view(r),
            ),
    {
        match read {
            Ok(bytes) => {
                let ghost before = sorting::text_views(notes@);
                let texture = HintTexture { bytes, name: path };
                let dressed = self.dressed_box(size, &texture);
                let ghost came = workshop::asset_result_view(dressed);
                let r: Option<(String, String)> = match dressed {
                    Ok(asset) => self.write_box(&asset, texture.name.as_str(), uri, place, notes),
                    Err(e) => {
                        let mut why: String = ": ".to_owned();
                        why.append(e.as_str());
                        note_down(
                            notes,
                            plain_box_note(
                                place,
                                ": could not bake textured primitive with ",
                                uri,
                                why.as_str(),
                            ),
                        );
                        None
                    },
                };
                assert(box_dressed(
                    self.workings(),
                    came,
                    path@,
                    uri@,
                    place@,
                    before,
                    sorting::text_views(notes@),
                    asset_view(r),
                ));
                r
            },
            Err(e) => {
                let mut why: String = " could not be read (".to_owned();
                why.append(e.as_str());
                why.append(")");
                note_down(notes, plain_box_note(place, ": texture ", uri, why.as_str()));
                None
            },
        }
    }

    /// Writes the asset of a box.
    pub(crate) fn write_box(
        &self,
        asset: &BakedAsset,
        path: &str,
        uri: &str,
        place: &str,
        notes: &mut Vec<String>,
    ) -> (r: Option<(String, String)>)
        requires
            self.is_open(),
        ensures
            box_dressed(
                self.workings(),
                Ok(asset@),
                path@,
                uri@,
                place@,
                sorting::text_views(old(notes)@),
                sorting::text_views(final(notes)@),
                asset_view(r),
            ),
    {
        let ghost before = sorting::text_views(notes@);
        let stem = safe_stem(self.style, path);
        let written = self.write_converted(stem.as_str(), asset);
        let ghost made = workshop::made_view(written);
        let r: Option<(String, String)> = match written {
            Ok(asset) => Some(asset),
            Err(e) => {
                let mut why: String = ": ".to_owned();
                why.append(e.as_str());
                note_down(
                    notes,
                    plain_box_note(
                        place,
                        ": could not write the textured-primitive GLB for ",
                        uri,
                        why.as_str(),
                    ),
                );
                None
            },
        };
        assert(box_kept(
            made,
            uri@,
            place@,
            before,
            sorting::text_views(notes@),
            asset_view(r),
        ));
        r
    }
}

/// What the name and the digest of an asset hold.
pub open spec fn asset_view(asset: Option<(String, String)>) -> Option<(Seq<char>, Seq<char>)> {
    match asset {
        Some((name, sha)) => Some((name@, sha@)),
        None => None,
    }
}

} // verus!
