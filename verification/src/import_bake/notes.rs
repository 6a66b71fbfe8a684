//! The notes of an import, once its document is baked.
use vstd::prelude::*;
use crate::float::Float64;
use crate::model::Hcdf;
use crate::quote::repr_str;
use crate::quote;
use crate::sorting;
use crate::text;
use super::env::BakeEnv;
use super::types::{BakedAsset, HintTexture, MeshBakeSpec, MeshSite, VisualAssetHint, WriteFault};
use super::walk::{Tally, bake_document};
use super::walk;
use super::workshop::{Workings, Workshop};

verus! {

/// Whether a note says that something is left to the making of the assets.
pub open spec fn is_deferral(note: Seq<char>) -> bool {
    text::holds(note, "not applied (bake the GLB"@) || text::holds(
        note,
        "carried on the asset side-channel"@,
    )
}

/// Whether a note names a visual together with its component.
pub open spec fn names_both(note: Seq<char>, pair: (Seq<char>, Seq<char>)) -> bool {
    text::holds(note, quote::quoted(pair.0) + " visual "@ + quote::quoted(pair.1))
}

/// Whether a note opens with a visual.
pub open spec fn opens_with_visual(note: Seq<char>, pair: (Seq<char>, Seq<char>)) -> bool {
    text::starts_with(text::trimmed_start(note), "visual "@ + quote::quoted(pair.1))
}

/// Whether a note is about one of the visuals that have an asset, and says what the asset has settled. A
/// note that names a component is held against both names, and one that opens with a visual against
/// that alone.
pub open spec fn is_consumed(note: Seq<char>, baked: Seq<(Seq<char>, Seq<char>)>) -> bool {
    is_deferral(note) && exists|i: int|
        0 <= i < baked.len() && (names_both(note, #[trigger] baked[i]) || opens_with_visual(
            note,
            baked[i],
        ))
}

/// The first `n` notes without those that are settled.
pub open spec fn kept_notes(
    notes: Seq<Seq<char>>,
    baked: Seq<(Seq<char>, Seq<char>)>,
    n: nat,
) -> Seq<Seq<char>>
    decreases n,
{
    if n == 0 || n > notes.len() {
        Seq::empty()
    } else {
        let before = kept_notes(notes, baked, (n - 1) as nat);
        if is_consumed(notes[n - 1], baked) {
            before
        } else {
            before.push(notes[n - 1])
        }
    }
}

fn note_is_consumed(note: &str, baked: &Vec<(String, String)>) -> (r: bool)
    ensures
        r == is_consumed(note@, walk::pair_views(baked@)),
{
    if !text::has_part(note, "not applied (bake the GLB") && !text::has_part(
        note,
        "carried on the asset side-channel",
    ) {
        return false;
    }
    let ghost all = walk::pair_views(baked@);
    let stripped = text::trim_start(note);
    let mut i: usize = 0;
    while i < baked.len()
        invariant
            i <= baked@.len() == all.len(),
            all == walk::pair_views(baked@),
            is_deferral(note@),
            stripped@ == text::trimmed_start(note@),
            forall|k: int|
                0 <= k < i ==> !names_both(note@, #[trigger] all[k]) && !opens_with_visual(
                    note@,
                    all[k],
                ),
        decreases baked@.len() - i,
    {
        assert(all[i as int] == (baked@[i as int].0@, baked@[i as int].1@));
        let visual = repr_str(baked[i].1.as_str());
        let mut both: String = repr_str(baked[i].0.as_str());
        both.append(" visual ");
        both.append(visual.as_str());
        let mut alone: String = "visual ".to_owned();
        alone.append(visual.as_str());
        if text::has_part(note, both.as_str()) || text::has_prefix(
            stripped.as_str(),
            alone.as_str(),
        ) {
            return true;
        }
        i += 1;
    }
    false
}

/// Drops the notes that the assets have settled.
pub fn drop_baked_notes(notes: Vec<String>, baked: &Vec<(String, String)>) -> (r: Vec<String>)
    ensures
        sorting::text_views(r@) == kept_notes(
            sorting::text_views(notes@),
            walk::pair_views(baked@),
            notes@.len(),
        ),
{
    let ghost all = sorting::text_views(notes@);
    let ghost pairs = walk::pair_views(baked@);
    let mut out: Vec<String> = Vec::new();
    let mut i: usize = 0;
    assert(sorting::text_views(out@) =~= kept_notes(all, pairs, 0));
    while i < notes.len()
        invariant
            i <= notes@.len() == all.len(),
            all == sorting::text_views(notes@),
            pairs == walk::pair_views(baked@),
            sorting::text_views(out@) == kept_notes(all, pairs, i as nat),
        decreases notes@.len() - i,
    {
        let ghost before = sorting::text_views(out@);
        assert(all[i as int] == notes@[i as int]@);
        if !note_is_consumed(notes[i].as_str(), baked) {
            out.push(notes[i].clone());
            assert(sorting::text_views(out@) =~= before.push(all[i as int]));
        }
        i += 1;
    }
    out
}

/// Where no visual has an asset, no note is dropped.
pub proof fn nothing_baked_drops_nothing(notes: Seq<Seq<char>>)
    ensures
        kept_notes(notes, Seq::empty(), notes.len()) == notes,
{
    keeps_front(notes, notes.len());
    assert(notes.take(notes.len() as int) =~= notes);
}

proof fn keeps_front(notes: Seq<Seq<char>>, n: nat)
    requires
        n <= notes.len(),
    ensures
        kept_notes(notes, Seq::empty(), n) == notes.take(n as int),
    decreases n,
{
    if n == 0 {
        assert(notes.take(0) =~= Seq::empty());
    } else {
        keeps_front(notes, (n - 1) as nat);
        assert(notes.take(n as int) =~= notes.take(n - 1).push(notes[n - 1]));
    }
}

/// Dropping the settled notes twice is dropping them once.
pub proof fn dropping_settles(notes: Seq<Seq<char>>, baked: Seq<(Seq<char>, Seq<char>)>)
    ensures
        ({
            let kept = kept_notes(notes, baked, notes.len());
            kept_notes(kept, baked, kept.len()) == kept
        }),
{
    let kept = kept_notes(notes, baked, notes.len());
    kept_are_unsettled(notes, baked, notes.len());
    keeps_unsettled(kept, baked, kept.len());
    assert(kept.take(kept.len() as int) =~= kept);
}

proof fn kept_are_unsettled(notes: Seq<Seq<char>>, baked: Seq<(Seq<char>, Seq<char>)>, n: nat)
    ensures
        forall|i: int|
            0 <= i < kept_notes(notes, baked, n).len() ==> !is_consumed(
                #[trigger] kept_notes(notes, baked, n)[i],
                baked,
            ),
    decreases n,
{
    if 0 < n <= notes.len() {
        kept_are_unsettled(notes, baked, (n - 1) as nat);
        let before = kept_notes(notes, baked, (n - 1) as nat);
        let after = kept_notes(notes, baked, n);
        assert forall|i: int| 0 <= i < after.len() implies !is_consumed(
            #[trigger] after[i],
            baked,
        ) by {
            if i < before.len() {
                assert(after[i] == before[i]);
            }
        }
    }
}

proof fn keeps_unsettled(notes: Seq<Seq<char>>, baked: Seq<(Seq<char>, Seq<char>)>, n: nat)
    requires
        n <= notes.len(),
        forall|i: int| 0 <= i < notes.len() ==> !is_consumed(#[trigger] notes[i], baked),
    ensures
        kept_notes(notes, baked, n) == notes.take(n as int),
    decreases n,
{
    if n == 0 {
        assert(notes.take(0) =~= Seq::empty());
    } else {
        keeps_unsettled(notes, baked, (n - 1) as nat);
        assert(notes.take(n as int) =~= notes.take(n - 1).push(notes[n - 1]));
    }
}

/// Whether baking an imported document may give a document and notes: those of the import that the
/// assets have not settled, followed by those of the bake.
pub open spec fn baked_with_notes(
    w: Workings,
    hints: Seq<VisualAssetHint>,
    prefix: Seq<char>,
    doc: Hcdf,
    notes: Seq<Seq<char>>,
    made: (Hcdf, Vec<String>),
) -> bool {
    exists|end: Tally| #[trigger]
        walk::document_baked(w, hints, prefix, doc, made.0, Seq::empty(), end)
            && sorting::text_views(made.1@) == kept_notes(notes, end.baked, notes.len()) + end.notes
}

/// Bakes an imported document, and gives the notes of the import that the assets have not settled,
/// followed by those of the bake.
pub fn import_then_bake<P, L, R, T, C, X, W>(
    doc: Hcdf,
    import_notes: Vec<String>,
    hints: &Vec<VisualAssetHint>,
    env: &BakeEnv,
    shop: &Workshop<P, L, R, T, C, X, W>,
) -> (r: (Hcdf, Vec<String>)) where
    P: Fn(&str) -> Option<Float64>,
    L: Fn(&str) -> Option<String>,
    R: Fn(&str) -> Result<Vec<u8>, String>,
    T: Fn(&str, MeshSite) -> Result<(String, String), String>,
    C: Fn(&str, &MeshBakeSpec, &Option<HintTexture>) -> Result<BakedAsset, String>,
    X: Fn(&str, &HintTexture) -> Result<BakedAsset, String>,
    W: Fn(&str, &Vec<u8>) -> Result<(), WriteFault>,

    requires
        shop.is_open(),
    ensures
        baked_with_notes(
            shop.workings(),
            hints@,
            env.uri_prefix@,
            doc,
            sorting::text_views(import_notes@),
            r,
        ),
{
    let mut out = doc;
    let mut bake_notes: Vec<String> = Vec::new();
    assert(sorting::text_views(bake_notes@) =~= Seq::empty());
    let baked = bake_document(&mut out, hints, env, &mut bake_notes, shop);
    let ghost end = walk::tally_of(bake_notes@, baked@);
    let mut notes = drop_baked_notes(import_notes, &baked);
    let ghost kept = notes@;
    let ghost more = bake_notes@;
    notes.append(&mut bake_notes);
    assert(notes@ =~= kept + more);
    assert(sorting::text_views(notes@) =~= sorting::text_views(kept) + sorting::text_views(more));
    let r = (out, notes);
    assert(walk::document_baked(shop.workings(), hints@, env.uri_prefix@, doc, r.0, Seq::empty(), end));
    assert(sorting::text_views(r.1@) == kept_notes(
        sorting::text_views(import_notes@),
        end.baked,
        import_notes@.len(),
    ) + end.notes);
    r
}

/// What an import gives: the document, its notes, and hints at the assets of its visuals.
pub type Imported = (Hcdf, Vec<String>, Vec<VisualAssetHint>);

/// Whether importing a text and baking the document may give this.
pub open spec fn imported_and_baked<E, I: Fn(&str) -> Result<Imported, E>>(
    import: I,
    source: &str,
    w: Workings,
    prefix: Seq<char>,
    made: (Hcdf, Vec<String>),
) -> bool {
    exists|imported: Imported| #[trigger]
        call_ensures(import, (source,), Ok(imported)) && baked_with_notes(
            w,
            imported.2@,
            prefix,
            imported.0,
            sorting::text_views(imported.1@),
            made,
        )
}

/// Imports a URDF text with `import` and bakes every mesh that it refers to: the document with its
/// assets, and the notes that are left.
pub fn from_urdf_str_with_baking<E, I, P, L, R, T, C, X, W>(
    source: &str,
    import: &I,
    env: &BakeEnv,
    shop: &Workshop<P, L, R, T, C, X, W>,
) -> (r: Result<(Hcdf, Vec<String>), E>) where
    I: Fn(&str) -> Result<Imported, E>,
    P: Fn(&str) -> Option<Float64>,
    L: Fn(&str) -> Option<String>,
    R: Fn(&str) -> Result<Vec<u8>, String>,
    T: Fn(&str, MeshSite) -> Result<(String, String), String>,
    C: Fn(&str, &MeshBakeSpec, &Option<HintTexture>) -> Result<BakedAsset, String>,
    X: Fn(&str, &HintTexture) -> Result<BakedAsset, String>,
    W: Fn(&str, &Vec<u8>) -> Result<(), WriteFault>,

    requires
        shop.is_open(),
        call_requires(import, (source,)),
    ensures
        match r {
            Ok(made) => imported_and_baked(
                *import,
                source,
                shop.workings(),
                env.uri_prefix@,
                made,
            ),
            Err(error) => call_ensures(import, (source,), Err(error)),
        },
{
    match import(source) {
        Err(error) => Err(error),
        Ok(imported) => {
            let ghost given = imported;
            let (doc, notes, hints) = imported;
            assert(given == (doc, notes, hints));
            let made = import_then_bake(doc, notes, &hints, env, shop);
            assert(call_ensures(import, (source,), Ok(given)));
            assert(imported_and_baked(
                *import,
                source,
                shop.workings(),
                env.uri_prefix@,
                made,
            ));
            Ok(made)
        },
    }
}

/// Imports a SDF text with `import` and bakes every mesh that it refers to: the document with its
/// assets, and the notes that are left.
pub fn from_sdf_str_with_baking<E, I, P, L, R, T, C, X, W>(
    source: &str,
    import: &I,
    env: &BakeEnv,
    shop: &Workshop<P, L, R, T, C, X, W>,
) -> (r: Result<(Hcdf, Vec<String>), E>) where
    I: Fn(&str) -> Result<Imported, E>,
    P: Fn(&str) -> Option<Float64>,
    L: Fn(&str) -> Option<String>,
    R: Fn(&str) -> Result<Vec<u8>, String>,
    T: Fn(&str, MeshSite) -> Result<(String, String), String>,
    C: Fn(&str, &MeshBakeSpec, &Option<HintTexture>) -> Result<BakedAsset, String>,
    X: Fn(&str, &HintTexture) -> Result<BakedAsset, String>,
    W: Fn(&str, &Vec<u8>) -> Result<(), WriteFault>,

    requires
        shop.is_open(),
        call_requires(import, (source,)),
    ensures
        match r {
            Ok(made) => imported_and_baked(
                *import,
                source,
                shop.workings(),
                env.uri_prefix@,
                made,
            ),
            Err(error) => call_ensures(import, (source,), Err(error)),
        },
{
    match import(source) {
        Err(error) => Err(error),
        Ok(imported) => {
            let ghost given = imported;
            let (doc, notes, hints) = imported;
            assert(given == (doc, notes, hints));
            let made = import_then_bake(doc, notes, &hints, env, shop);
            assert(call_ensures(import, (source,), Ok(given)));
            assert(imported_and_baked(
                *import,
                source,
                shop.workings(),
                env.uri_prefix@,
                made,
            ));
            Ok(made)
        },
    }
}

} // verus!
