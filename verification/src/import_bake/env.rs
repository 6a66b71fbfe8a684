//! Where sources are looked up, where assets stand, and how they are addressed.
use vstd::prelude::*;
use crate::gltf::codec;
use crate::native_path;
use crate::native_path::{NativePath, PathStyle, PrefixKind};
use crate::resource_path;
use crate::sorting;
use crate::text;

verus! {

/// The roots of a bake: where sources are looked up, where assets are written, and what their
/// addresses start with.
#[derive(Debug, Clone, PartialEq, Eq)]
pub struct BakeEnv {
    pub base_dir: String,
    pub packages: Vec<(String, String)>,
    pub out_dir: String,
    pub uri_prefix: String,
}

/// How many items two lists have in common at their front.
pub open spec fn common_front(a: Seq<Seq<char>>, b: Seq<Seq<char>>) -> nat
    decreases a.len(),
{
    if a.len() == 0 || b.len() == 0 || a[0] != b[0] {
        0
    } else {
        1 + common_front(a.drop_first(), b.drop_first())
    }
}

/// The first `n` names of a list but for empty ones and single dots.
pub open spec fn kept_names(list: Seq<Seq<char>>, n: nat) -> Seq<Seq<char>>
    decreases n,
{
    if n == 0 || n > list.len() {
        Seq::empty()
    } else if list[n - 1] == ""@ || list[n - 1] == "."@ {
        kept_names(list, (n - 1) as nat)
    } else {
        kept_names(list, (n - 1) as nat).push(list[n - 1])
    }
}

/// The names of a path but for empty ones and single dots. Behind a verbatim prefix single dots stay.
pub open spec fn path_names(path: native_path::PathParts) -> Seq<Seq<char>> {
    if path.kind is Verbatim {
        native_path::not_empty(path.names, path.names.len())
    } else {
        kept_names(path.names, path.names.len())
    }
}

/// What tells the prefix of a path from others: drives go by their letter, large or small, and the
/// separators of shares are alike.
pub open spec fn prefix_key(path: native_path::PathParts) -> Seq<char> {
    match path.kind {
        PrefixKind::Nothing => path.prefix,
        PrefixKind::Drive => codec::lowered(path.prefix),
        PrefixKind::Share => path.prefix.map_values(
            |c: char|
                if c == '/' {
                    '\\'
                } else {
                    c
                },
        ),
        PrefixKind::Verbatim => if path.prefix.len() == 6 && native_path::starts_with_drive(
            path.prefix.skip(4),
        ) {
            codec::lowered(path.prefix)
        } else if path.prefix.len() >= 8 && text::starts_with(path.prefix.skip(4), "UNC"@)
            && path.prefix[7] == '/' {
            path.prefix.update(7, '\\')
        } else {
            path.prefix
        },
    }
}

/// What stands before the names of a path: its prefix and its root.
pub open spec fn path_head(style: PathStyle, path: native_path::PathParts) -> Seq<Seq<char>> {
    headed(style, path, path.prefix)
}

/// What stands before the names of a path, with its prefix as it is told from others.
pub open spec fn head_key(style: PathStyle, path: native_path::PathParts) -> Seq<Seq<char>> {
    headed(style, path, prefix_key(path))
}

/// A prefix and a root, each where the path has one.
pub open spec fn headed(
    style: PathStyle,
    path: native_path::PathParts,
    prefix: Seq<char>,
) -> Seq<Seq<char>> {
    (if path.kind is Nothing {
        Seq::empty()
    } else {
        seq![prefix]
    }) + (if path.rooted {
        seq![style.separator()]
    } else {
        Seq::empty()
    })
}

/// The parts of the way from one directory to another: back to the last common one, and on from there.
/// `texts` are the parts of the second as they are written.
pub open spec fn way(
    from: Seq<Seq<char>>,
    to: Seq<Seq<char>>,
    texts: Seq<Seq<char>>,
) -> Seq<Seq<char>> {
    let common = common_front(to, from);
    Seq::new((from.len() - common) as nat, |i: int| ".."@) + texts.skip(common as int)
}

/// The parts of the relative path from one absolute directory to another.
pub open spec fn relative_parts(
    style: PathStyle,
    target: Seq<char>,
    base: Seq<char>,
) -> Seq<Seq<char>> {
    let t = native_path::parsed(style, target);
    let b = native_path::parsed(style, base);
    way(
        head_key(style, b) + path_names(b),
        head_key(style, t) + path_names(t),
        path_head(style, t) + path_names(t),
    )
}

/// The relative path from one absolute directory to another.
pub open spec fn relative_path(style: PathStyle, target: Seq<char>, base: Seq<char>) -> Seq<char> {
    let parts = relative_parts(style, target, base);
    if parts.len() == 0 {
        "."@
    } else {
        sorting::joined(parts, "/"@, parts.len())
    }
}

proof fn common_front_is(a: Seq<Seq<char>>, b: Seq<Seq<char>>, n: int)
    requires
        0 <= n <= a.len(),
        n <= b.len(),
        forall|i: int| 0 <= i < n ==> a[i] == b[i],
        n < a.len() && n < b.len() ==> a[n] != b[n],
    ensures
        common_front(a, b) == n,
    decreases a.len(),
{
    if n > 0 {
        assert(a[0] == b[0]);
        let x = a.drop_first();
        let y = b.drop_first();
        assert forall|i: int| 0 <= i < n - 1 implies x[i] == y[i] by {
            assert(a[i + 1] == b[i + 1]);
        }
        common_front_is(x, y, n - 1);
    }
}

/// A prefix with backslashes for its slashes.
fn backslashed(prefix: &str) -> (r: String)
    ensures
        r@ == prefix@.map_values(
            |c: char|
                if c == '/' {
                    '\\'
                } else {
                    c
                },
        ),
{
    let cs = text::chars(prefix);
    let ghost each = |c: char|
        if c == '/' {
            '\\'
        } else {
            c
        };
    let ghost wanted = prefix@.map_values(each);
    let mut out: String = String::new();
    let mut i: usize = 0;
    assert(out@ =~= wanted.take(0));
    while i < cs.len()
        invariant
            i <= cs@.len(),
            cs@ == prefix@,
            wanted == prefix@.map_values(each),
            forall|c: char| #[trigger] each(c) == (if c == '/' { '\\' } else { c }),
            out@ == wanted.take(i as int),
        decreases cs@.len() - i,
    {
        let c = cs[i];
        let kept = if c == '/' {
            '\\'
        } else {
            c
        };
        out.push(kept);
        assert(wanted[i as int] == each(c));
        assert(wanted.take(i + 1) =~= wanted.take(i as int).push(kept));
        i += 1;
    }
    assert(wanted.take(wanted.len() as int) =~= wanted);
    out
}

/// What tells the prefix of a path from others.
fn key_of(path: &NativePath) -> (r: String)
    ensures
        r@ == prefix_key(path@),
{
    match path.kind {
        PrefixKind::Nothing => path.prefix.clone(),
        PrefixKind::Drive => codec::to_lower(path.prefix.as_str()),
        PrefixKind::Share => backslashed(path.prefix.as_str()),
        PrefixKind::Verbatim => {
            let cs = text::chars(path.prefix.as_str());
            if cs.len() == 6 && native_path::drive_at(cs.as_slice(), 4) {
                return codec::to_lower(path.prefix.as_str());
            }
            proof {
                if cs@.len() >= 4 {
                    resource_path::prefix_at(cs@, 4, "UNC"@);
                }
            }
            if cs.len() >= 8 && text::has_at(cs.as_slice(), "UNC", 4) && cs[7] == '/' {
                let mut key = text::text_of_range(cs.as_slice(), 0, 7);
                key.append("\\");
                key.append(text::text_of_range(cs.as_slice(), 8, cs.len()).as_str());
                proof {
                    reveal_strlit("\\");
                    assert(key@ =~= path.prefix@.update(7, '\\'));
                }
                return key;
            }
            path.prefix.clone()
        },
    }
}

/// The parts of a path behind a prefix that is given.
fn parts_behind(style: PathStyle, path: &NativePath, prefix: String) -> (r: Vec<String>)
    ensures
        sorting::text_views(r@) == headed(style, path@, prefix@) + path_names(path@),
        r@.len() == headed(style, path@, prefix@).len() + path_names(path@).len(),
{
    let mut out: Vec<String> = Vec::new();
    let ghost words = prefix@;
    match path.kind {
        PrefixKind::Nothing => {},
        _ => {
            out.push(prefix);
        },
    }
    if path.rooted {
        out.push(style.main_separator().to_owned());
    }
    let ghost head = headed(style, path@, words);
    assert(sorting::text_views(out@) =~= head);
    if let PrefixKind::Verbatim = path.kind {
        let ghost before = out@;
        let mut rest = native_path::without_empty(&path.names);
        let ghost more = rest@;
        out.append(&mut rest);
        assert(sorting::text_views(out@) =~= sorting::text_views(before) + sorting::text_views(
            more,
        ));
        assert(sorting::text_views(out@).len() == out@.len());
        return out;
    }
    let ghost all = path@.names;
    let mut i: usize = 0;
    assert(head + kept_names(all, 0) =~= head);
    while i < path.names.len()
        invariant
            i <= path.names@.len(),
            all == sorting::text_views(path.names@),
            sorting::text_views(out@) == head + kept_names(all, i as nat),
        decreases path.names@.len() - i,
    {
        assert(all[i as int] == path.names@[i as int]@);
        let name = path.names[i].as_str();
        if !text::same(name, "") && !text::same(name, ".") {
            let ghost before = sorting::text_views(out@);
            out.push(path.names[i].clone());
            assert(sorting::text_views(out@) =~= before.push(all[i as int]));
            assert(head + kept_names(all, (i + 1) as nat) =~= (head + kept_names(
                all,
                i as nat,
            )).push(all[i as int]));
        }
        i += 1;
    }
    assert(sorting::text_views(out@).len() == out@.len());
    out
}

/// The relative path from one absolute directory to another.
pub fn rel_path(style: PathStyle, target: &str, base: &str) -> (r: String)
    ensures
        r@ == relative_path(style, target@, base@),
{
    let target_path = NativePath::parse(style, target);
    let base_path = NativePath::parse(style, base);
    let t = parts_behind(style, &target_path, key_of(&target_path));
    let b = parts_behind(style, &base_path, key_of(&base_path));
    let texts = parts_behind(style, &target_path, target_path.prefix.clone());
    let ghost to = sorting::text_views(t@);
    let ghost from = sorting::text_views(b@);
    let ghost spelled = sorting::text_views(texts@);
    assert(to.len() == t@.len() && from.len() == b@.len() && spelled.len() == texts@.len());
    assert(texts@.len() == t@.len());
    let mut common: usize = 0;
    while common < t.len() && common < b.len() && text::same(
        t[common].as_str(),
        b[common].as_str(),
    )
        invariant
            common <= t@.len(),
            common <= b@.len(),
            to == sorting::text_views(t@),
            from == sorting::text_views(b@),
            forall|i: int| 0 <= i < common ==> to[i] == from[i],
        decreases t@.len() - common,
    {
        assert(to[common as int] == t@[common as int]@);
        assert(from[common as int] == b@[common as int]@);
        common += 1;
    }
    proof {
        if common < t@.len() && common < b@.len() {
            assert(to[common as int] == t@[common as int]@);
            assert(from[common as int] == b@[common as int]@);
        }
        common_front_is(to, from, common as int);
    }
    let ghost wanted = way(from, to, spelled);
    let mut parts: Vec<String> = Vec::new();
    let mut i: usize = common;
    assert(sorting::text_views(parts@) =~= wanted.take(0));
    while i < b.len()
        invariant
            common <= i <= b@.len() == from.len(),
            common <= to.len(),
            common == common_front(to, from),
            wanted == way(from, to, spelled),
            sorting::text_views(parts@) == wanted.take(i - common),
        decreases b@.len() - i,
    {
        let ghost before = parts@;
        parts.push("..".to_owned());
        assert(sorting::text_views(parts@) =~= sorting::text_views(before).push(".."@));
        assert(wanted.take(i - common + 1) =~= wanted.take(i - common).push(".."@));
        i += 1;
    }
    let mut k: usize = common;
    while k < texts.len()
        invariant
            common <= k <= texts@.len() == spelled.len(),
            common <= from.len(),
            common == common_front(to, from),
            spelled == sorting::text_views(texts@),
            wanted == way(from, to, spelled),
            sorting::text_views(parts@) == wanted.take(from.len() - common + k - common),
        decreases texts@.len() - k,
    {
        let ghost before = parts@;
        let ghost at = from.len() - common + k - common;
        parts.push(texts[k].clone());
        assert(wanted[at] == texts@[k as int]@);
        assert(sorting::text_views(parts@) =~= sorting::text_views(before).push(wanted[at]));
        assert(wanted.take(at + 1) =~= wanted.take(at).push(wanted[at]));
        k += 1;
    }
    assert(wanted.take(wanted.len() as int) =~= wanted);
    assert(parts@.len() == wanted.len());
    if parts.len() == 0 {
        ".".to_owned()
    } else {
        sorting::join_texts(&parts, "/")
    }
}

/// The absolute form of a path.
pub open spec fn absolute_form(
    style: PathStyle,
    working: Seq<char>,
    path: Seq<char>,
) -> native_path::PathParts {
    native_path::made_absolute(
        style,
        native_path::parsed(style, working),
        native_path::parsed(style, path),
    )
}

fn make_absolute(style: PathStyle, working: &str, path: &str) -> (r: NativePath)
    ensures
        r@ == absolute_form(style, working@, path@),
{
    NativePath::make_absolute(
        style,
        NativePath::parse(style, working),
        NativePath::parse(style, path),
    )
}

impl BakeEnv {
    /// The roots of a bake that reads one document and writes another: sources are looked up beside
    /// the input, and addresses of assets are relative to the output, or to the working directory
    /// where the output is `-`. Paths follow the rules of the system named.
    pub fn new(
        style: PathStyle,
        working: &str,
        bake_dir: &str,
        input: &str,
        output: &str,
        packages: Vec<(String, String)>,
    ) -> (r: Self)
        ensures
            r.out_dir@ == resource_path::filesystem_path(style, working@, bake_dir@),
            r.base_dir@ == native_path::parent(style, absolute_form(style, working@, input@)),
            r.packages == packages,
            r.uri_prefix@ == relative_path(
                style,
                r.out_dir@,
                if output@ == "-"@ {
                    working@
                } else {
                    native_path::parent(style, absolute_form(style, working@, output@))
                },
            ),
    {
        let out_dir = resource_path::normalize_filesystem_path(style, working, bake_dir);
        let doc_dir = if text::same(output, "-") {
            working.to_owned()
        } else {
            make_absolute(style, working, output).parent(style)
        };
        let base_dir = make_absolute(style, working, input).parent(style);
        let uri_prefix = rel_path(style, out_dir.as_str(), doc_dir.as_str());
        BakeEnv { base_dir, packages, out_dir, uri_prefix }
    }

    /// The roots of a bake, as they are given.
    pub fn direct(
        base_dir: String,
        assets_out_dir: String,
        uri_prefix: String,
        packages: Vec<(String, String)>,
    ) -> (r: Self)
        ensures
            r == (BakeEnv { base_dir, packages, out_dir: assets_out_dir, uri_prefix }),
    {
        BakeEnv { base_dir, packages, out_dir: assets_out_dir, uri_prefix }
    }
}

/// A text without the slashes at its end.
pub open spec fn without_slashes(text: Seq<char>) -> Seq<char>
    decreases text.len(),
{
    if text.len() > 0 && text.last() == '/' {
        without_slashes(text.drop_last())
    } else {
        text
    }
}

/// The address of an asset: its name, below the prefix where there is one.
pub open spec fn asset_uri(prefix: Seq<char>, name: Seq<char>) -> Seq<char> {
    if prefix == ""@ || prefix == "."@ {
        name
    } else {
        without_slashes(prefix) + "/"@ + name
    }
}

/// The address of an asset.
pub fn prefixed_uri(prefix: &str, name: &str) -> (r: String)
    ensures
        r@ == asset_uri(prefix@, name@),
{
    if text::same(prefix, "") || text::same(prefix, ".") {
        return name.to_owned();
    }
    let cs = text::chars(prefix);
    let mut to: usize = cs.len();
    assert(prefix@.take(to as int) =~= prefix@);
    while to > 0 && cs[to - 1] == '/'
        invariant
            to <= cs@.len(),
            cs@ == prefix@,
            without_slashes(prefix@) == without_slashes(prefix@.take(to as int)),
        decreases to,
    {
        assert(prefix@.take(to as int).last() == cs@[to - 1]);
        assert(prefix@.take(to as int).drop_last() =~= prefix@.take(to - 1));
        to -= 1;
    }
    let mut out = text::text_of_range(cs.as_slice(), 0, to);
    proof {
        if to > 0 {
            assert(prefix@.take(to as int).last() == cs@[to - 1]);
        }
        assert(out@ =~= prefix@.take(to as int));
    }
    out.append("/");
    out.append(name);
    out
}

proof fn way_back(from: Seq<Seq<char>>, to: Seq<Seq<char>>, n: nat)
    requires
        native_path::are_plain(from),
        n <= from.len() - common_front(to, from),
        common_front(to, from) <= from.len(),
    ensures
        native_path::with_names(from, way(from, to, to), n) == from.take(from.len() - n),
    decreases n,
{
    if n == 0 {
        assert(from.take(from.len() as int) =~= from);
    } else {
        way_back(from, to, (n - 1) as nat);
        let before = from.take(from.len() - n + 1);
        assert(way(from, to, to)[n - 1] == ".."@);
        reveal_strlit("..");
        reveal_strlit(".");
        reveal_strlit("");
        assert(before.drop_last() =~= from.take(from.len() - n));
    }
}

proof fn common_front_bounds(a: Seq<Seq<char>>, b: Seq<Seq<char>>)
    ensures
        common_front(a, b) <= a.len(),
        common_front(a, b) <= b.len(),
        a.take(common_front(a, b) as int) == b.take(common_front(a, b) as int),
    decreases a.len(),
{
    if a.len() == 0 || b.len() == 0 || a[0] != b[0] {
        assert(a.take(0) =~= b.take(0));
    } else {
        common_front_bounds(a.drop_first(), b.drop_first());
        let n = common_front(a.drop_first(), b.drop_first()) as int;
        assert(a.take(n + 1) =~= seq![a[0]] + a.drop_first().take(n));
        assert(b.take(n + 1) =~= seq![b[0]] + b.drop_first().take(n));
    }
}

proof fn way_on(from: Seq<Seq<char>>, to: Seq<Seq<char>>, n: nat)
    requires
        native_path::are_plain(from),
        native_path::are_plain(to),
        n <= to.len() - common_front(to, from),
    ensures
        native_path::with_names(
            from,
            way(from, to, to),
            (from.len() - common_front(to, from) + n) as nat,
        ) == to.take((common_front(to, from) + n) as int),
    decreases n,
{
    common_front_bounds(to, from);
    let common = common_front(to, from);
    if n == 0 {
        way_back(from, to, (from.len() - common) as nat);
    } else {
        way_on(from, to, (n - 1) as nat);
        let name = to[common + n - 1];
        assert(way(from, to, to)[from.len() - common + n - 1] == name);
        assert(to.take((common + n) as int) =~= to.take(common + n - 1).push(name));
    }
}

proof fn common_behind(head: Seq<Seq<char>>, a: Seq<Seq<char>>, b: Seq<Seq<char>>)
    ensures
        common_front(head + a, head + b) == head.len() + common_front(a, b),
    decreases head.len(),
{
    if head.len() == 0 {
        assert(head + a =~= a && head + b =~= b);
    } else {
        common_behind(head.drop_first(), a, b);
        assert((head + a).drop_first() =~= head.drop_first() + a);
        assert((head + b).drop_first() =~= head.drop_first() + b);
    }
}

/// The relative path from one directory to another, taken from the first, leads to the second: where
/// both have the same prefix and root and their names hold no dots.
pub proof fn relative_path_leads_there(style: PathStyle, target: Seq<char>, base: Seq<char>)
    requires
        head_key(style, native_path::parsed(style, target)) == head_key(
            style,
            native_path::parsed(style, base),
        ),
        native_path::are_plain(path_names(native_path::parsed(style, target))),
        native_path::are_plain(path_names(native_path::parsed(style, base))),
    ensures
        native_path::with_names(
            path_names(native_path::parsed(style, base)),
            relative_parts(style, target, base),
            relative_parts(style, target, base).len(),
        ) == path_names(native_path::parsed(style, target)),
{
    let t = native_path::parsed(style, target);
    let b = native_path::parsed(style, base);
    let from = path_names(b);
    let to = path_names(t);
    let head = head_key(style, t);
    common_behind(head, to, from);
    common_front_bounds(to, from);
    let common = common_front(to, from);
    let spelled = path_head(style, t) + to;
    assert(spelled.skip((head.len() + common) as int) =~= to.skip(common as int));
    assert(relative_parts(style, target, base) =~= way(from, to, to));
    way_on(from, to, (to.len() - common) as nat);
    assert(to.take(to.len() as int) =~= to);
    assert(way(from, to, to).len() == from.len() - common + to.len() - common);
}

} // verus!
