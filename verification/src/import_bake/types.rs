//! What is asked of a bake, and what it works with.
use vstd::prelude::*;
use crate::model::{Collision, Visual};
use crate::sorting;

verus! {

/// What the importer knows of the appearance of a visual that the document has no place for.
#[derive(Debug, Clone, PartialEq, Eq)]
pub struct VisualAssetHint {
    pub comp: String,
    pub visual: String,
    pub scale: Option<String>,
    pub color: Option<String>,
    pub texture: Option<String>,
}

/// Whether a mesh is looked at or bumped into.
#[derive(Debug, Clone, Copy, PartialEq, Eq, Structural)]
pub enum MeshSite {
    Visual,
    Collision,
}

/// What is folded into the asset of a mesh, and what the mesh is for.
#[derive(Debug, Clone, PartialEq, Eq)]
pub struct MeshBakeSpec {
    pub scale: Option<String>,
    pub color: Option<String>,
    pub texture: Option<String>,
    pub site_kind: MeshSite,
}

/// An image that is put on a surface, and what it is called.
#[derive(Debug, Clone, PartialEq, Eq)]
pub struct HintTexture {
    pub bytes: Vec<u8>,
    pub name: String,
}

/// A converted asset: its bytes, their digest, the extension of its name, and what the conversion could
/// not take along.
#[derive(Debug, Clone, PartialEq, Eq)]
pub struct BakedAsset {
    pub data: Vec<u8>,
    pub sha: String,
    pub ext: String,
    pub notes: Vec<String>,
}

/// Why an asset could not be written: there is no place for it, or the file did not take it.
#[derive(Debug, Clone, PartialEq, Eq)]
pub enum WriteFault {
    Directory(String),
    File(String),
}

/// What is folded into an asset.
pub struct SpecView {
    pub scale: Option<Seq<char>>,
    pub color: Option<Seq<char>>,
    pub texture: Option<Seq<char>>,
    pub site: MeshSite,
}

/// What a texture holds.
pub struct TextureView {
    pub bytes: Seq<u8>,
    pub name: Seq<char>,
}

/// What a converted asset holds.
pub struct AssetView {
    pub data: Seq<u8>,
    pub sha: Seq<char>,
    pub ext: Seq<char>,
    pub notes: Seq<Seq<char>>,
}

/// What the refusal of an asset holds.
pub enum WriteFaultView {
    Directory(Seq<char>),
    File(Seq<char>),
}

/// What an optional text holds.
pub open spec fn option_view(text: Option<String>) -> Option<Seq<char>> {
    match text {
        Some(s) => Some(s@),
        None => None,
    }
}

impl View for MeshBakeSpec {
    type V = SpecView;

    open spec fn view(&self) -> SpecView {
        SpecView {
            scale: option_view(self.scale),
            color: option_view(self.color),
            texture: option_view(self.texture),
            site: self.site_kind,
        }
    }
}

impl View for HintTexture {
    type V = TextureView;

    open spec fn view(&self) -> TextureView {
        TextureView { bytes: self.bytes@, name: self.name@ }
    }
}

impl View for BakedAsset {
    type V = AssetView;

    open spec fn view(&self) -> AssetView {
        AssetView {
            data: self.data@,
            sha: self.sha@,
            ext: self.ext@,
            notes: sorting::text_views(self.notes@),
        }
    }
}

impl View for WriteFault {
    type V = WriteFaultView;

    open spec fn view(&self) -> WriteFaultView {
        match self {
            WriteFault::Directory(e) => WriteFaultView::Directory(e@),
            WriteFault::File(e) => WriteFaultView::File(e@),
        }
    }
}

} // verus!
