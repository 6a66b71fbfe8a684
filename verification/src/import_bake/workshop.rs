//! The work on files that a bake asks for.
use vstd::prelude::*;
use crate::float::Float64;
use crate::json::read;
use crate::native_path::PathStyle;
use super::types::{AssetView, BakedAsset, HintTexture, MeshBakeSpec, MeshSite, SpecView, TextureView, WriteFault, WriteFaultView};
use super::types;

verus! {

/// What the making of an asset needs from outside: numbers read, sources looked up and read, sources
/// taken over as they are, sources and textured boxes converted, and assets written. The paths of
/// sources follow the rules of the system named.
pub struct Workshop<P, L, R, T, C, X, W> {
    pub style: PathStyle,
    pub parse: P,
    pub look_up: L,
    pub read: R,
    pub take_over: T,
    pub convert: C,
    pub dress_box: X,
    pub write: W,
}

/// A name and a digest, or why there is none.
pub type Made = Result<(Seq<char>, Seq<char>), Seq<char>>;

/// What the parts of a workshop may answer.
pub struct Workings {
    pub style: PathStyle,
    pub readings: read::FloatReadings,
    pub look_up: spec_fn(Seq<char>, Option<Seq<char>>) -> bool,
    pub read: spec_fn(Seq<char>, Result<Seq<u8>, Seq<char>>) -> bool,
    pub take_over: spec_fn(Seq<char>, MeshSite, Made) -> bool,
    pub convert: spec_fn(
        Seq<char>,
        SpecView,
        Option<TextureView>,
        Result<AssetView, Seq<char>>,
    ) -> bool,
    pub dress_box: spec_fn(Seq<char>, TextureView, Result<AssetView, Seq<char>>) -> bool,
    pub write: spec_fn(Seq<char>, Seq<u8>, Result<(), WriteFaultView>) -> bool,
}

/// Whether this may be where a source is found.
pub open spec fn may_look_up(w: Workings, uri: Seq<char>, path: Option<Seq<char>>) -> bool {
    (w.look_up)(uri, path)
}

/// Whether this may be what a source holds.
pub open spec fn may_read(w: Workings, path: Seq<char>, r: Result<Seq<u8>, Seq<char>>) -> bool {
    (w.read)(path, r)
}

/// Whether this may come of taking a source over.
pub open spec fn may_take_over(w: Workings, path: Seq<char>, site: MeshSite, r: Made) -> bool {
    (w.take_over)(path, site, r)
}

/// Whether this may come of converting a source.
pub open spec fn may_convert(
    w: Workings,
    path: Seq<char>,
    spec: SpecView,
    texture: Option<TextureView>,
    r: Result<AssetView, Seq<char>>,
) -> bool {
    (w.convert)(path, spec, texture, r)
}

/// Whether this may come of putting a texture on a box.
pub open spec fn may_dress_box(
    w: Workings,
    size: Seq<char>,
    texture: TextureView,
    r: Result<AssetView, Seq<char>>,
) -> bool {
    (w.dress_box)(size, texture, r)
}

/// Whether this may come of writing an asset.
pub open spec fn may_write(
    w: Workings,
    name: Seq<char>,
    data: Seq<u8>,
    r: Result<(), WriteFaultView>,
) -> bool {
    (w.write)(name, data, r)
}

/// What bytes, or the lack of them, hold.
pub open spec fn bytes_view(r: Result<Vec<u8>, String>) -> Result<Seq<u8>, Seq<char>> {
    match r {
        Ok(bytes) => Ok(bytes@),
        Err(e) => Err(e@),
    }
}

/// What the name and the digest of an asset, or the lack of them, hold.
pub open spec fn made_view(r: Result<(String, String), String>) -> Made {
    match r {
        Ok((name, sha)) => Ok((name@, sha@)),
        Err(e) => Err(e@),
    }
}

/// What a converted asset, or the lack of one, holds.
pub open spec fn asset_result_view(r: Result<BakedAsset, String>) -> Result<AssetView, Seq<char>> {
    match r {
        Ok(asset) => Ok(asset@),
        Err(e) => Err(e@),
    }
}

/// What an optional texture holds.
pub open spec fn texture_view(texture: Option<HintTexture>) -> Option<TextureView> {
    match texture {
        Some(t) => Some(t@),
        None => None,
    }
}

/// What came of writing an asset.
pub open spec fn written_view(r: Result<(), WriteFault>) -> Result<(), WriteFaultView> {
    match r {
        Ok(()) => Ok(()),
        Err(e) => Err(e@),
    }
}

impl<P, L, R, T, C, X, W> Workshop<P, L, R, T, C, X, W> where
    P: Fn(&str) -> Option<Float64>,
    L: Fn(&str) -> Option<String>,
    R: Fn(&str) -> Result<Vec<u8>, String>,
    T: Fn(&str, MeshSite) -> Result<(String, String), String>,
    C: Fn(&str, &MeshBakeSpec, &Option<HintTexture>) -> Result<BakedAsset, String>,
    X: Fn(&str, &HintTexture) -> Result<BakedAsset, String>,
    W: Fn(&str, &Vec<u8>) -> Result<(), WriteFault>,
 {
    /// Whether the workshop takes every task, and reads each number in one way.
    pub open spec fn is_open(self) -> bool {
        &&& read::reads_floats(self.parse)
        &&& forall|uri: &str| #[trigger] call_requires(self.look_up, (uri,))
        &&& forall|path: &str| #[trigger] call_requires(self.read, (path,))
        &&& forall|path: &str, site: MeshSite| #[trigger]
            call_requires(self.take_over, (path, site))
        &&& forall|path: &str, spec: &MeshBakeSpec, texture: &Option<HintTexture>| #[trigger]
            call_requires(self.convert, (path, spec, texture))
        &&& forall|size: &str, texture: &HintTexture| #[trigger]
            call_requires(self.dress_box, (size, texture))
        &&& forall|name: &str, data: &Vec<u8>| #[trigger] call_requires(self.write, (name, data))
    }

    /// What the parts of the workshop may answer.
    pub open spec fn workings(self) -> Workings {
        Workings {
            style: self.style,
            readings: read::readings_of(self.parse),
            look_up: |uri: Seq<char>, r: Option<Seq<char>>|
                exists|p: (&'static str, Option<String>)|
                    p.0@ == uri && types::option_view(p.1) == r && #[trigger] call_ensures(
                        self.look_up,
                        (p.0,),
                        p.1,
                    ),
            read: |path: Seq<char>, r: Result<Seq<u8>, Seq<char>>|
                exists|p: (&'static str, Result<Vec<u8>, String>)|
                    p.0@ == path && bytes_view(p.1) == r && #[trigger] call_ensures(
                        self.read,
                        (p.0,),
                        p.1,
                    ),
            take_over: |path: Seq<char>, site: MeshSite, r: Made|
                exists|p: (&'static str, Result<(String, String), String>)|
                    p.0@ == path && made_view(p.1) == r && #[trigger] call_ensures(
                        self.take_over,
                        (p.0, site),
                        p.1,
                    ),
            convert: |
                path: Seq<char>,
                spec: SpecView,
                texture: Option<TextureView>,
                r: Result<AssetView, Seq<char>>,
            |
                exists|
                    p: (
                        &'static str,
                        &'static MeshBakeSpec,
                        &'static Option<HintTexture>,
                        Result<BakedAsset, String>,
                    ),
                |
                    p.0@ == path && p.1@ == spec && texture_view(*p.2) == texture
                        && asset_result_view(p.3) == r && #[trigger] call_ensures(
                        self.convert,
                        (p.0, p.1, p.2),
                        p.3,
                    ),
            dress_box: |size: Seq<char>, texture: TextureView, r: Result<AssetView, Seq<char>>|
                exists|p: (&'static str, &'static HintTexture, Result<BakedAsset, String>)|
                    p.0@ == size && p.1@ == texture && asset_result_view(p.2) == r
                        && #[trigger] call_ensures(self.dress_box, (p.0, p.1), p.2),
            write: |name: Seq<char>, data: Seq<u8>, r: Result<(), WriteFaultView>|
                exists|p: (&'static str, &'static Vec<u8>, Result<(), WriteFault>)|
                    p.0@ == name && p.1@ == data && written_view(p.2) == r
                        && #[trigger] call_ensures(self.write, (p.0, p.1), p.2),
        }
    }

    pub(crate) fn looked_up(&self, uri: &str) -> (r: Option<String>)
        requires
            self.is_open(),
        ensures
            may_look_up(self.workings(), uri@, types::option_view(r)),
    {
        let f = &self.look_up;
        let r: Option<String> = f(uri);
        proof {
            let p = (uri, r);
            assert(p.0@ == uri@ && types::option_view(p.1) == types::option_view(r) && call_ensures(
                self.look_up,
                (p.0,),
                p.1,
            ));
        }
        r
    }

    pub(crate) fn bytes_of(&self, path: &str) -> (r: Result<Vec<u8>, String>)
        requires
            self.is_open(),
        ensures
            may_read(self.workings(), path@, bytes_view(r)),
    {
        let f = &self.read;
        let r: Result<Vec<u8>, String> = f(path);
        proof {
            let p = (path, r);
            assert(p.0@ == path@ && bytes_view(p.1) == bytes_view(r) && call_ensures(
                self.read,
                (p.0,),
                p.1,
            ));
        }
        r
    }

    pub(crate) fn taken_over(&self, path: &str, site: MeshSite) -> (r: Result<(String, String), String>)
        requires
            self.is_open(),
        ensures
            may_take_over(self.workings(), path@, site, made_view(r)),
    {
        let f = &self.take_over;
        let r: Result<(String, String), String> = f(path, site);
        proof {
            let p = (path, r);
            assert(p.0@ == path@ && made_view(p.1) == made_view(r) && call_ensures(
                self.take_over,
                (p.0, site),
                p.1,
            ));
        }
        r
    }

    pub(crate) fn converted(&self, path: &str, spec: &MeshBakeSpec, texture: &Option<HintTexture>) -> (r: Result<
        BakedAsset,
        String,
    >)
        requires
            self.is_open(),
        ensures
            may_convert(
                self.workings(),
                path@,
                spec@,
                texture_view(*texture),
                asset_result_view(r),
            ),
    {
        let f = &self.convert;
        let r: Result<BakedAsset, String> = f(path, spec, texture);
        proof {
            let p = (path, spec, texture, r);
            assert(p.0@ == path@ && p.1@ == spec@ && texture_view(*p.2) == texture_view(*texture)
                && asset_result_view(p.3) == asset_result_view(r) && call_ensures(
                self.convert,
                (p.0, p.1, p.2),
                p.3,
            ));
        }
        r
    }

    pub(crate) fn dressed_box(&self, size: &str, texture: &HintTexture) -> (r: Result<BakedAsset, String>)
        requires
            self.is_open(),
        ensures
            may_dress_box(self.workings(), size@, texture@, asset_result_view(r)),
    {
        let f = &self.dress_box;
        let r: Result<BakedAsset, String> = f(size, texture);
        proof {
            let p = (size, texture, r);
            assert(p.0@ == size@ && p.1@ == texture@ && asset_result_view(p.2)
                == asset_result_view(r) && call_ensures(self.dress_box, (p.0, p.1), p.2));
        }
        r
    }

    pub(crate) fn put(&self, name: &str, data: &Vec<u8>) -> (r: Result<(), WriteFault>)
        requires
            self.is_open(),
        ensures
            may_write(self.workings(), name@, data@, written_view(r)),
    {
        let f = &self.write;
        let r: Result<(), WriteFault> = f(name, data);
        proof {
            let p = (name, data, r);
            assert(p.0@ == name@ && p.1@ == data@ && written_view(p.2) == written_view(r)
                && call_ensures(self.write, (p.0, p.1), p.2));
        }
        r
    }
}

} // verus!
