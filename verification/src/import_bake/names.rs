//! The names of assets.
use vstd::prelude::*;
use crate::gltf::codec;
use crate::native_path;
use crate::native_path::{NativePath, PathStyle, PrefixKind};
use crate::remote;
use crate::resource_path;
use crate::sorting;
use crate::text;

verus! {

/// Whether a character may stand in the name of an asset.
pub open spec fn is_name_char(c: char) -> bool {
    resource_path::is_letter(c) || text::is_digit(c) || c == '.' || c == '_' || c == '-'
}

/// A text with all other characters replaced by underscores; `mesh` where it is empty.
pub open spec fn safe_name(stem: Seq<char>) -> Seq<char> {
    if stem.len() == 0 {
        "mesh"@
    } else {
        stem.map_values(
            |c: char|
                if is_name_char(c) {
                    c
                } else {
                    '_'
                },
        )
    }
}

/// The last part of a path that is neither empty nor a dot; nothing where that is a double dot. Behind a
/// verbatim prefix a dot is no name either, but is not passed over.
pub open spec fn file_name(style: PathStyle, path: Seq<char>) -> Seq<char> {
    let parts = native_path::parsed(style, path);
    last_name(parts.names, parts.kind is Verbatim, parts.names.len())
}

/// The last of the first `n` names that is neither empty nor a dot; nothing where that is a double
/// dot.
pub open spec fn last_name(list: Seq<Seq<char>>, verbatim: bool, n: nat) -> Seq<char>
    decreases n,
{
    if n == 0 || n > list.len() {
        Seq::empty()
    } else if list[n - 1] == ""@ || (list[n - 1] == "."@ && !verbatim) {
        last_name(list, verbatim, (n - 1) as nat)
    } else if list[n - 1] == ".."@ || list[n - 1] == "."@ {
        Seq::empty()
    } else {
        list[n - 1]
    }
}

/// The name of a file without its extension. A dot at the front starts no extension.
pub open spec fn name_stem(name: Seq<char>) -> Seq<char> {
    match codec::after_dot(name) {
        Some(ext) => if name.len() == ext.len() + 1 {
            name
        } else {
            name.take(name.len() - ext.len() - 1)
        },
        None => name,
    }
}

/// The extension of the name of a file, without its dot. A dot at the front starts no extension.
pub open spec fn name_extension(name: Seq<char>) -> Seq<char> {
    match codec::after_dot(name) {
        Some(ext) => if name.len() == ext.len() + 1 {
            Seq::empty()
        } else {
            ext
        },
        None => Seq::empty(),
    }
}

pub(crate) fn file_name_of(style: PathStyle, path: &str) -> (r: String)
    ensures
        r@ == file_name(style, path@),
{
    let parts = NativePath::parse(style, path);
    let verbatim = match parts.kind {
        PrefixKind::Verbatim => true,
        _ => false,
    };
    let list = parts.names;
    let ghost all = native_path::parsed(style, path@).names;
    let mut n: usize = list.len();
    assert(all.len() == list@.len());
    while n > 0
        invariant
            n <= list@.len(),
            all == sorting::text_views(list@),
            all == native_path::parsed(style, path@).names,
            verbatim == (native_path::parsed(style, path@).kind is Verbatim),
            last_name(all, verbatim, all.len()) == last_name(all, verbatim, n as nat),
        decreases n,
    {
        assert(all[n - 1] == list@[n - 1]@);
        n -= 1;
        let segment = list[n].as_str();
        if text::same(segment, "..") || (verbatim && text::same(segment, ".")) {
            let r = String::new();
            proof {
                reveal_strlit("..");
                reveal_strlit(".");
                reveal_strlit("");
                assert(r@ =~= Seq::empty());
            }
            return r;
        }
        if !text::same(segment, "") && !text::same(segment, ".") {
            return segment.to_owned();
        }
    }
    let r = String::new();
    assert(r@ =~= Seq::empty());
    r
}

/// The stem and the extension of the name of a file.
pub(crate) fn split_name(name: &str) -> (r: (String, String))
    ensures
        r.0@ == name_stem(name@),
        r.1@ == name_extension(name@),
{
    let none = String::new();
    assert(none@ =~= Seq::empty());
    match codec::extension(name) {
        Some(ext) => {
            let cs = text::chars(name);
            let n: usize = cs.len();
            let m: usize = text::chars(ext.as_str()).len();
            proof {
                codec::after_dot_is_shorter(name@);
            }
            if n == m + 1 {
                (name.to_owned(), none)
            } else {
                let stem = text::text_of_range(cs.as_slice(), 0, n - m - 1);
                assert(stem@ =~= name@.take(n - m - 1));
                (stem, ext)
            }
        },
        None => (name.to_owned(), none),
    }
}

/// A stem for the name of an asset, from the path of its source.
pub fn safe_stem(style: PathStyle, path: &str) -> (r: String)
    ensures
        r@ == safe_name(name_stem(file_name(style, path@))),
{
    let (stem, _) = split_name(file_name_of(style, path).as_str());
    let cs = text::chars(stem.as_str());
    if cs.len() == 0 {
        return "mesh".to_owned();
    }
    let ghost wanted = safe_name(stem@);
    let mut out: String = String::new();
    let mut i: usize = 0;
    assert(out@ =~= wanted.take(0));
    while i < cs.len()
        invariant
            i <= cs@.len(),
            cs@ == stem@,
            cs@.len() > 0,
            wanted == safe_name(stem@),
            out@ == wanted.take(i as int),
        decreases cs@.len() - i,
    {
        let c = cs[i];
        let fits = ('a' <= c && c <= 'z') || ('A' <= c && c <= 'Z') || ('0' <= c && c <= '9') || c
            == '.' || c == '_' || c == '-';
        let kept = if fits {
            c
        } else {
            '_'
        };
        out.push(kept);
        assert(wanted[i as int] == kept);
        assert(wanted.take(i + 1) =~= wanted.take(i as int).push(kept));
        i += 1;
    }
    assert(wanted.take(wanted.len() as int) =~= wanted);
    out
}

/// The first part of a digest, which stands in the name of an asset: the characters that lie whole in
/// its first twelve bytes of UTF-8.
pub open spec fn short_digest(digest: Seq<char>) -> Seq<char> {
    digest.take(text::chars_within(digest, 12) as int)
}

/// The first part of a digest of ASCII characters is its first twelve, or all of it where it is
/// shorter.
pub proof fn short_digest_of_ascii(digest: Seq<char>)
    requires
        vstd::utf8::is_ascii_chars(digest),
    ensures
        short_digest(digest) == (if digest.len() > 12 {
            digest.take(12)
        } else {
            digest
        }),
{
    text::ascii_chars_within(digest, 12);
    assert(digest.take(digest.len() as int) =~= digest);
}

/// The name of an asset: the stem, the first part of the digest, and the extension.
pub open spec fn asset_file(stem: Seq<char>, sha: Seq<char>, ext: Seq<char>) -> Seq<char> {
    stem + "_"@ + short_digest(remote::digest_part(sha)) + "."@ + ext
}

/// The name of an asset.
pub fn asset_name(stem: &str, sha: &str, ext: &str) -> (r: String)
    ensures
        r@ == asset_file(stem@, sha@, ext@),
{
    let cs = text::chars(sha);
    let n: usize = cs.len();
    assert(cs@.skip(0) =~= sha@);
    let colon = resource_path::place_of(cs.as_slice(), ':', 0);
    let from: usize = if colon < n {
        colon + 1
    } else {
        0
    };
    let count: usize = text::count_within(cs.as_slice(), from, 12);
    let short = text::text_of_range(cs.as_slice(), from, from + count);
    proof {
        let digest = remote::digest_part(sha@);
        assert(digest =~= sha@.skip(from as int));
        assert(short@ =~= digest.take(count as int));
    }
    let mut out: String = stem.to_owned();
    out.append("_");
    out.append(short.as_str());
    out.append(".");
    out.append(ext);
    out
}

} // verus!
