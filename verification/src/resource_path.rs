//! Lexical resolution of resource references.
//!
//! Resolution touches path segments only: it decodes nothing, normalizes no hosts, and keeps queries
//! and fragments as they are. Filesystem paths follow the rules of the system that the caller names.
use vstd::prelude::*;
use crate::native_path;
use crate::native_path::{NativePath, PathStyle};
use crate::sorting;
use crate::sorting::join_texts;
use crate::text;

verus! {

/// Why a reference cannot be resolved.
#[derive(Debug, Clone, PartialEq, Eq)]
pub enum ResourceReferenceError {
    /// The reference is empty.
    EmptyReference,
    /// The reference is relative and the parent has no path that it could be relative to.
    OpaqueParent { parent: String, reference: String },
}

impl ResourceReferenceError {
    /// The error in words.
    pub open spec fn words(&self) -> Seq<char> {
        match self {
            ResourceReferenceError::EmptyReference => "resource URI must not be empty"@,
            ResourceReferenceError::OpaqueParent { parent, reference } => "relative resource URI "@
                + text::debug_chars(reference@) + " cannot be resolved against opaque parent "@
                + text::debug_chars(parent@),
        }
    }

    /// The error in words.
    pub fn message(&self) -> (r: String)
        ensures
            r@ == self.words(),
    {
        match self {
            ResourceReferenceError::EmptyReference => "resource URI must not be empty".to_owned(),
            ResourceReferenceError::OpaqueParent { parent, reference } => {
                let mut out: String = "relative resource URI ".to_owned();
                out.append(text::debug_text(reference.as_str()).as_str());
                out.append(" cannot be resolved against opaque parent ");
                out.append(text::debug_text(parent.as_str()).as_str());
                out
            },
        }
    }
}

// Parts of a reference.

/// The place of the first character that `stop` picks; the length where it picks none.
pub open spec fn first_place(text: Seq<char>, stop: spec_fn(char) -> bool) -> nat
    decreases text.len(),
{
    if text.len() == 0 || stop(text[0]) {
        0
    } else {
        1 + first_place(text.drop_first(), stop)
    }
}

/// The first place is where the first character stands that `stop` picks out.
pub proof fn first_place_is(text: Seq<char>, stop: spec_fn(char) -> bool, at: int)
    requires
        0 <= at <= text.len(),
        forall|k: int| 0 <= k < at ==> !stop(#[trigger] text[k]),
        at < text.len() ==> stop(text[at]),
    ensures
        first_place(text, stop) == at,
    decreases text.len(),
{
    if at > 0 {
        let rest = text.drop_first();
        assert(!stop(text[0]));
        assert forall|k: int| 0 <= k < at - 1 implies !stop(#[trigger] rest[k]) by {
            assert(!stop(text[k + 1]));
        }
        first_place_is(rest, stop, at - 1);
    }
}

/// The first place is within the text or its end, and no earlier character is picked.
pub proof fn first_place_bounds(text: Seq<char>, stop: spec_fn(char) -> bool)
    ensures
        first_place(text, stop) <= text.len(),
        forall|k: int| 0 <= k < first_place(text, stop) ==> !stop(#[trigger] text[k]),
        first_place(text, stop) < text.len() ==> stop(text[first_place(text, stop) as int]),
    decreases text.len(),
{
    if text.len() > 0 && !stop(text[0]) {
        let rest = text.drop_first();
        first_place_bounds(rest, stop);
        assert forall|k: int| 0 <= k < first_place(text, stop) implies !stop(#[trigger] text[k]) by {
            if k > 0 {
                assert(!stop(rest[k - 1]));
            }
        }
    }
}

/// Whether a character is the given one.
pub open spec fn is_char(c: char) -> spec_fn(char) -> bool {
    |x: char| x == c
}

/// Whether a character starts a query or a fragment.
pub open spec fn starts_suffix() -> spec_fn(char) -> bool {
    |x: char| x == '?' || x == '#'
}

/// A reference up to its query or fragment.
pub open spec fn path_part(value: Seq<char>) -> Seq<char> {
    value.take(first_place(value, starts_suffix()) as int)
}

/// The query and fragment of a reference.
pub open spec fn suffix_part(value: Seq<char>) -> Seq<char> {
    value.skip(first_place(value, starts_suffix()) as int)
}

/// A reference up to its query or fragment, and those.
pub fn split_suffix(value: &str) -> (r: (String, String))
    ensures
        r.0@ == path_part(value@),
        r.1@ == suffix_part(value@),
{
    let cs = text::chars(value);
    let n: usize = cs.len();
    let mut at: usize = 0;
    while at < n && cs[at] != '?' && cs[at] != '#'
        invariant
            at <= n == cs@.len(),
            cs@ == value@,
            forall|k: int| 0 <= k < at ==> !starts_suffix()(#[trigger] value@[k]),
        decreases n - at,
    {
        at += 1;
    }
    proof {
        first_place_is(value@, starts_suffix(), at as int);
        assert(value@.subrange(0, at as int) =~= path_part(value@));
        assert(value@.subrange(at as int, n as int) =~= suffix_part(value@));
    }
    (text::text_of_range(cs.as_slice(), 0, at), text::text_of_range(cs.as_slice(), at, n))
}

/// Whether a character is an ASCII letter.
pub open spec fn is_letter(c: char) -> bool {
    'a' <= c <= 'z' || 'A' <= c <= 'Z'
}

/// Whether a character may stand in a scheme after its first.
pub open spec fn is_scheme_char(c: char) -> bool {
    is_letter(c) || text::is_digit(c) || c == '+' || c == '-' || c == '.'
}

/// Whether a text is the name of a scheme.
pub open spec fn is_scheme(text: Seq<char>) -> bool {
    text.len() > 0 && is_letter(text[0]) && forall|k: int|
        0 < k < text.len() ==> is_scheme_char(#[trigger] text[k])
}

/// Where the first colon of a text stands.
pub open spec fn colon_place(value: Seq<char>) -> nat {
    first_place(value, is_char(':'))
}

/// Whether a reference starts with a scheme and a colon.
pub open spec fn has_scheme(value: Seq<char>) -> bool {
    colon_place(value) < value.len() && is_scheme(value.take(colon_place(value) as int))
}

/// Where a character first stands among `cs[from..]`, or the end.
pub fn place_of(cs: &[char], c: char, from: usize) -> (r: usize)
    requires
        from <= cs@.len(),
    ensures
        from <= r <= cs@.len(),
        first_place(cs@.skip(from as int), is_char(c)) == r - from,
{
    let n: usize = cs.len();
    let r = match text::find(cs, c, from) {
        Some(at) => at,
        None => n,
    };
    proof {
        let rest = cs@.skip(from as int);
        assert forall|k: int| 0 <= k < r - from implies !is_char(c)(#[trigger] rest[k]) by {
            assert(cs@[k + from] != c);
        }
        first_place_is(rest, is_char(c), r - from);
    }
    r
}

/// Whether a reference starts with a scheme and a colon.
pub fn has_uri_scheme(value: &str) -> (r: bool)
    ensures
        r == has_scheme(value@),
{
    let cs = text::chars(value);
    assert(cs@.skip(0) =~= value@);
    let colon = place_of(cs.as_slice(), ':', 0);
    let ghost scheme = value@.take(colon as int);
    if colon == cs.len() || colon == 0 {
        return false;
    }
    let first = cs[0];
    assert(scheme[0] == first);
    if !(('a' <= first && first <= 'z') || ('A' <= first && first <= 'Z')) {
        return false;
    }
    let mut i: usize = 1;
    while i < colon
        invariant
            1 <= i <= colon < cs@.len(),
            cs@ == value@,
            scheme == value@.take(colon as int),
            colon == colon_place(value@),
            forall|k: int| 0 < k < i ==> is_scheme_char(#[trigger] scheme[k]),
        decreases colon - i,
    {
        let c = cs[i];
        assert(scheme[i as int] == c);
        let fits = ('a' <= c && c <= 'z') || ('A' <= c && c <= 'Z') || ('0' <= c && c <= '9') || c
            == '+' || c == '-' || c == '.';
        if !fits {
            return false;
        }
        i += 1;
    }
    true
}

// Paths.

/// What the path of a reference starts from.
#[derive(Debug, Clone, PartialEq, Eq)]
pub enum LexicalPathRoot {
    /// A scheme with an authority.
    Authority(String),
    /// A scheme with a rooted path and no authority.
    SchemeRoot(String),
    /// An authority without a scheme.
    NetworkAuthority(String),
    Absolute,
    Relative,
}

/// What the path of a reference starts from.
pub enum RootView {
    Authority(Seq<char>),
    SchemeRoot(Seq<char>),
    NetworkAuthority(Seq<char>),
    Absolute,
    Relative,
}

impl View for LexicalPathRoot {
    type V = RootView;

    open spec fn view(&self) -> RootView {
        match self {
            LexicalPathRoot::Authority(prefix) => RootView::Authority(prefix@),
            LexicalPathRoot::SchemeRoot(prefix) => RootView::SchemeRoot(prefix@),
            LexicalPathRoot::NetworkAuthority(prefix) => RootView::NetworkAuthority(prefix@),
            LexicalPathRoot::Absolute => RootView::Absolute,
            LexicalPathRoot::Relative => RootView::Relative,
        }
    }
}

/// A hierarchical reference: what its path starts from, and the path from there on.
#[derive(Debug, Clone, PartialEq, Eq)]
pub struct LexicalPath {
    root: LexicalPathRoot,
    path: String,
}

/// What a hierarchical reference holds.
pub struct PathView {
    pub root: RootView,
    pub path: Seq<char>,
}

impl View for LexicalPath {
    type V = PathView;

    closed spec fn view(&self) -> PathView {
        PathView { root: self.root@, path: self.path@ }
    }
}

/// A text up to its first slash.
pub open spec fn before_slash(text: Seq<char>) -> Seq<char> {
    text.take(first_place(text, is_char('/')) as int)
}

/// What follows the first slash of a text; nothing where there is none.
pub open spec fn after_slash(text: Seq<char>) -> Seq<char> {
    if first_place(text, is_char('/')) < text.len() {
        text.skip(first_place(text, is_char('/')) as int + 1)
    } else {
        Seq::empty()
    }
}

/// The parts of a hierarchical reference; nothing for one whose scheme is followed by no slash.
pub open spec fn path_parsed(value: Seq<char>) -> Option<PathView> {
    if has_scheme(value) {
        let scheme = value.take(colon_place(value) as int);
        let rest = value.skip(colon_place(value) as int + 1);
        if text::starts_with(rest, "//"@) {
            let after = rest.skip(2);
            Some(
                PathView {
                    root: RootView::Authority(scheme + "://"@ + before_slash(after)),
                    path: after_slash(after),
                },
            )
        } else if text::starts_with(rest, "/"@) {
            Some(PathView { root: RootView::SchemeRoot(scheme + ":"@), path: rest.skip(1) })
        } else {
            None
        }
    } else if text::starts_with(value, "//"@) {
        let after = value.skip(2);
        Some(
            PathView {
                root: RootView::NetworkAuthority("//"@ + before_slash(after)),
                path: after_slash(after),
            },
        )
    } else if text::starts_with(value, "/"@) {
        Some(PathView { root: RootView::Absolute, path: value.skip(1) })
    } else {
        Some(PathView { root: RootView::Relative, path: value })
    }
}

/// The characters `from..` up to the first slash among them, and those after it.
fn authority_and_path(cs: &[char], from: usize) -> (r: (String, String))
    requires
        from <= cs@.len(),
    ensures
        r.0@ == before_slash(cs@.skip(from as int)),
        r.1@ == after_slash(cs@.skip(from as int)),
{
    let n: usize = cs.len();
    let slash = place_of(cs, '/', from);
    let ghost rest = cs@.skip(from as int);
    let authority = text::text_of_range(cs, from, slash);
    assert(authority@ =~= before_slash(rest));
    if slash < n {
        let path = text::text_of_range(cs, slash + 1, n);
        assert(path@ =~= after_slash(rest));
        (authority, path)
    } else {
        let path = String::new();
        assert(path@ =~= after_slash(rest));
        (authority, path)
    }
}

/// A text stands at a place of another where what follows that place starts with it.
pub proof fn prefix_at(all: Seq<char>, from: int, prefix: Seq<char>)
    requires
        0 <= from <= all.len(),
    ensures
        text::stands_at(all, prefix, from) == text::starts_with(all.skip(from), prefix),
{
    if from + prefix.len() <= all.len() {
        assert(all.skip(from).take(prefix.len() as int) =~= all.subrange(
            from,
            from + prefix.len(),
        ));
    }
}

impl LexicalPath {
    /// The parts of a hierarchical reference.
    pub fn parse(value: &str) -> (r: Option<Self>)
        ensures
            match path_parsed(value@) {
                Some(parts) => r matches Some(path) && path@ == parts,
                None => r is None,
            },
    {
        let cs = text::chars(value);
        let n: usize = cs.len();
        proof {
            reveal_strlit("//");
            reveal_strlit("/");
            prefix_at(value@, 0, "//"@);
            prefix_at(value@, 0, "/"@);
            assert(value@.skip(0) =~= value@);
        }
        if has_uri_scheme(value) {
            let colon = place_of(cs.as_slice(), ':', 0);
            let scheme = text::text_of_range(cs.as_slice(), 0, colon);
            proof {
                prefix_at(value@, colon + 1, "//"@);
                prefix_at(value@, colon + 1, "/"@);
                assert(scheme@ =~= value@.take(colon as int));
            }
            if text::has_at(cs.as_slice(), "//", colon + 1) {
                let (authority, path) = authority_and_path(cs.as_slice(), colon + 3);
                assert(value@.skip(colon + 1).skip(2) =~= value@.skip(colon + 3));
                let mut prefix = scheme;
                prefix.append("://");
                prefix.append(authority.as_str());
                return Some(LexicalPath { root: LexicalPathRoot::Authority(prefix), path });
            }
            if text::has_at(cs.as_slice(), "/", colon + 1) {
                let path = text::text_of_range(cs.as_slice(), colon + 2, n);
                assert(path@ =~= value@.skip(colon + 1).skip(1));
                let mut prefix = scheme;
                prefix.append(":");
                return Some(LexicalPath { root: LexicalPathRoot::SchemeRoot(prefix), path });
            }
            return None;
        }
        if text::has_at(cs.as_slice(), "//", 0) {
            let (authority, path) = authority_and_path(cs.as_slice(), 2);
            let mut prefix: String = "//".to_owned();
            prefix.append(authority.as_str());
            return Some(LexicalPath { root: LexicalPathRoot::NetworkAuthority(prefix), path });
        }
        if text::has_at(cs.as_slice(), "/", 0) {
            let path = text::text_of_range(cs.as_slice(), 1, n);
            assert(path@ =~= value@.skip(1));
            return Some(LexicalPath { root: LexicalPathRoot::Absolute, path });
        }
        Some(LexicalPath { root: LexicalPathRoot::Relative, path: value.to_owned() })
    }

    /// Whether the path starts from a root.
    pub fn is_rooted(&self) -> (r: bool)
        ensures
            r == !(self@.root is Relative),
    {
        match self.root {
            LexicalPathRoot::Relative => false,
            _ => true,
        }
    }

    /// The reference with another path.
    pub fn render(&self, normalized: &str) -> (r: String)
        ensures
            r@ == rendered(self@.root, normalized@),
    {
        match &self.root {
            LexicalPathRoot::Authority(prefix) => slashed(prefix.as_str(), normalized),
            LexicalPathRoot::SchemeRoot(prefix) => slashed(prefix.as_str(), normalized),
            LexicalPathRoot::NetworkAuthority(prefix) => slashed(prefix.as_str(), normalized),
            LexicalPathRoot::Absolute => {
                let r = slashed("", normalized);
                proof {
                    reveal_strlit("");
                    assert(r@ =~= "/"@ + normalized@);
                }
                r
            },
            LexicalPathRoot::Relative => normalized.to_owned(),
        }
    }
}

fn slashed(prefix: &str, path: &str) -> (r: String)
    ensures
        r@ == prefix@ + "/"@ + path@,
{
    let mut out: String = prefix.to_owned();
    out.append("/");
    out.append(path);
    out
}

/// A path set on its root.
pub open spec fn rendered(root: RootView, path: Seq<char>) -> Seq<char> {
    match root {
        RootView::Authority(prefix) => prefix + "/"@ + path,
        RootView::SchemeRoot(prefix) => prefix + "/"@ + path,
        RootView::NetworkAuthority(prefix) => prefix + "/"@ + path,
        RootView::Absolute => "/"@ + path,
        RootView::Relative => path,
    }
}

// Segments.

/// The segments of a path: what stands between its slashes.
pub open spec fn segments(path: Seq<char>) -> Seq<Seq<char>>
    decreases path.len(),
{
    if first_place(path, is_char('/')) < path.len() {
        seq![before_slash(path)] + segments(after_slash(path))
    } else {
        seq![path]
    }
}

/// The parts of a path with one more segment taken: empty segments and single dots change nothing, and
/// two dots take back the last part. Where there is none to take back, a rooted path stays at its root
/// and a relative path keeps the dots.
pub open spec fn with_segment(parts: Seq<Seq<char>>, segment: Seq<char>, rooted: bool) -> Seq<
    Seq<char>,
> {
    if segment == ""@ || segment == "."@ {
        parts
    } else if segment == ".."@ {
        if parts.len() > 0 && parts.last() != ".."@ {
            parts.drop_last()
        } else if !rooted {
            parts.push(".."@)
        } else {
            parts
        }
    } else {
        parts.push(segment)
    }
}

/// The parts of a path that the first `n` segments give.
pub open spec fn parts_of(list: Seq<Seq<char>>, rooted: bool, n: nat) -> Seq<Seq<char>>
    decreases n,
{
    if n == 0 || n > list.len() {
        Seq::empty()
    } else {
        with_segment(parts_of(list, rooted, (n - 1) as nat), list[n - 1], rooted)
    }
}

/// A path without empty segments, dots and what double dots take back.
pub open spec fn normalized(path: Seq<char>, rooted: bool) -> Seq<char> {
    let parts = parts_of(segments(path), rooted, segments(path).len());
    sorting::joined(parts, "/"@, parts.len())
}

/// The segments of a path.
pub fn split_segments(path: &str) -> (r: Vec<String>)
    ensures
        sorting::text_views(r@) == segments(path@),
{
    let cs = text::chars(path);
    let n: usize = cs.len();
    let mut out: Vec<String> = Vec::new();
    let mut from: usize = 0;
    assert(path@.skip(0) =~= path@);
    assert(sorting::text_views(out@) + segments(path@) =~= segments(path@));
    loop
        invariant
            from <= n == cs@.len(),
            cs@ == path@,
            sorting::text_views(out@) + segments(path@.skip(from as int)) == segments(path@),
        decreases n - from,
    {
        let slash = place_of(cs.as_slice(), '/', from);
        let segment = text::text_of_range(cs.as_slice(), from, slash);
        let ghost rest = path@.skip(from as int);
        let ghost before = sorting::text_views(out@);
        let ghost words = segment@;
        out.push(segment);
        assert(sorting::text_views(out@) =~= before.push(words));
        if slash == n {
            assert(words =~= rest);
            assert(sorting::text_views(out@) =~= before + segments(rest));
            return out;
        }
        proof {
            assert(words =~= before_slash(rest));
            assert(after_slash(rest) =~= path@.skip(slash + 1));
            assert(before + segments(rest) =~= sorting::text_views(out@) + segments(
                path@.skip(slash + 1),
            ));
        }
        from = slash + 1;
    }
}

/// The parts of a path that its segments give.
fn logical_parts(path: &str, rooted: bool) -> (r: Vec<String>)
    ensures
        sorting::text_views(r@) == parts_of(segments(path@), rooted, segments(path@).len()),
{
    let list = split_segments(path);
    let ghost all = segments(path@);
    let mut parts: Vec<String> = Vec::new();
    let mut i: usize = 0;
    assert(sorting::text_views(parts@) =~= Seq::empty());
    assert(all.len() == list@.len());
    while i < list.len()
        invariant
            i <= list@.len() == all.len(),
            all == sorting::text_views(list@),
            sorting::text_views(parts@) == parts_of(all, rooted, i as nat),
        decreases list@.len() - i,
    {
        let segment = list[i].as_str();
        let ghost before = sorting::text_views(parts@);
        assert(all[i as int] == segment@);
        if text::same(segment, "") || text::same(segment, ".") {
        } else if text::same(segment, "..") {
            let m: usize = parts.len();
            assert(before.len() == m);
            let backs = if m > 0 {
                assert(before.last() == parts@[m - 1]@);
                !text::same(parts[m - 1].as_str(), "..")
            } else {
                false
            };
            if backs {
                let _ = parts.pop();
                assert(sorting::text_views(parts@) =~= before.drop_last());
            } else if !rooted {
                parts.push("..".to_owned());
                assert(sorting::text_views(parts@) =~= before.push(".."@));
            }
        } else {
            parts.push(segment.to_owned());
            assert(sorting::text_views(parts@) =~= before.push(segment@));
        }
        i += 1;
    }
    parts
}

/// A path without empty segments, dots and what double dots take back.
pub fn normalize_logical_segments(path: &str, rooted: bool) -> (r: String)
    ensures
        r@ == normalized(path@, rooted),
{
    let parts = logical_parts(path, rooted);
    assert(sorting::text_views(parts@).len() == parts@.len());
    join_texts(&parts, "/")
}

// Resolution.

/// A path up to its last slash; nothing where there is none.
pub open spec fn directory(path: Seq<char>) -> Seq<char>
    decreases path.len(),
{
    if path.len() == 0 {
        Seq::empty()
    } else if path.last() == '/' {
        path.drop_last()
    } else {
        directory(path.drop_last())
    }
}

/// A path up to its last slash; nothing where there is none.
pub fn directory_of(path: &str) -> (r: String)
    ensures
        r@ == directory(path@),
{
    let cs = text::chars(path);
    let mut at: usize = cs.len();
    assert(path@.take(path@.len() as int) =~= path@);
    while at > 0
        invariant
            at <= cs@.len(),
            cs@ == path@,
            directory(path@) == directory(path@.take(at as int)),
        decreases at,
    {
        assert(path@.take(at as int).last() == cs@[at - 1]);
        assert(path@.take(at as int).drop_last() =~= path@.take(at - 1));
        at -= 1;
        if cs[at] == '/' {
            let r = text::text_of_range(cs.as_slice(), 0, at);
            assert(r@ =~= path@.take(at as int));
            return r;
        }
    }
    let r = String::new();
    assert(r@ =~= Seq::empty());
    r
}

/// A path relative to a directory.
pub open spec fn joined_path(directory: Seq<char>, path: Seq<char>) -> Seq<char> {
    if directory.len() == 0 {
        path
    } else {
        directory + "/"@ + path
    }
}

/// Whether a reference stands for itself, whatever its parent: it is rooted or has a scheme.
pub open spec fn is_absolute(reference: Seq<char>) -> bool {
    text::starts_with(reference, "/"@) || has_scheme(reference)
}

/// What a relative reference gives beside a parent that is hierarchical.
pub open spec fn resolved_beside(parent: Seq<char>, reference: Seq<char>) -> Seq<char> {
    let base = path_parsed(path_part(parent))->0;
    if path_part(reference).len() == 0 {
        path_part(parent) + suffix_part(reference)
    } else {
        rendered(
            base.root,
            normalized(
                joined_path(directory(base.path), path_part(reference)),
                !(base.root is Relative),
            ),
        ) + suffix_part(reference)
    }
}

/// Resolves a reference against the key of the resource that holds it. Rooted references and those
/// with a scheme are given back as they are.
pub fn resolve_resource_reference(parent: &str, reference: &str) -> (r: Result<
    String,
    ResourceReferenceError,
>)
    ensures
        match r {
            Err(ResourceReferenceError::EmptyReference) => text::trimmed(reference@).len() == 0,
            Err(ResourceReferenceError::OpaqueParent { parent: p, reference: q }) => {
                &&& text::trimmed(reference@).len() > 0
                &&& !is_absolute(reference@)
                &&& path_parsed(path_part(parent@)) is None
                &&& p@ == parent@
                &&& q@ == reference@
            },
            Ok(key) => {
                &&& text::trimmed(reference@).len() > 0
                &&& is_absolute(reference@) ==> key@ == reference@
                &&& !is_absolute(reference@) ==> path_parsed(path_part(parent@)) is Some && key@
                    == resolved_beside(parent@, reference@)
            },
        },
{
    let trimmed = text::trim(reference);
    if trimmed.as_str().is_empty() {
        return Err(ResourceReferenceError::EmptyReference);
    }
    if text::has_prefix(reference, "/") || has_uri_scheme(reference) {
        return Ok(reference.to_owned());
    }
    let (parent_path, _) = split_suffix(parent);
    let base = match LexicalPath::parse(parent_path.as_str()) {
        Some(base) => base,
        None => {
            return Err(
                ResourceReferenceError::OpaqueParent {
                    parent: parent.to_owned(),
                    reference: reference.to_owned(),
                },
            );
        },
    };
    let (reference_path, suffix) = split_suffix(reference);
    if reference_path.as_str().is_empty() {
        let mut key = parent_path;
        key.append(suffix.as_str());
        return Ok(key);
    }
    let dir = directory_of(base.path.as_str());
    let joined = if dir.as_str().is_empty() {
        reference_path
    } else {
        slashed(dir.as_str(), reference_path.as_str())
    };
    let path = normalize_logical_segments(joined.as_str(), base.is_rooted());
    let mut key = base.render(path.as_str());
    key.append(suffix.as_str());
    Ok(key)
}

// Filesystem paths.

/// The absolute form of a filesystem path, without dots: a path that is not absolute is taken from the
/// working directory.
pub open spec fn filesystem_path(
    style: PathStyle,
    working: Seq<char>,
    path: Seq<char>,
) -> Seq<char> {
    native_path::written(
        style,
        native_path::made_absolute(
            style,
            native_path::parsed(style, working),
            native_path::parsed(style, path),
        ),
    )
}

/// The absolute form of a filesystem path.
pub fn normalize_filesystem_path(style: PathStyle, working: &str, path: &str) -> (r: String)
    ensures
        r@ == filesystem_path(style, working@, path@),
{
    NativePath::make_absolute(
        style,
        NativePath::parse(style, working),
        NativePath::parse(style, path),
    ).text(style)
}

/// A reference to an asset, rerooted to a directory. A reference with a scheme, without a path or with
/// an absolute path stays as it is, and so do queries and fragments.
pub open spec fn rerooted(
    style: PathStyle,
    working: Seq<char>,
    base: Seq<char>,
    reference: Seq<char>,
) -> Seq<char> {
    let here = native_path::parsed(style, working);
    let path = native_path::parsed(style, path_part(reference));
    if has_scheme(reference) || path_part(reference).len() == 0 || native_path::is_absolute(
        style,
        path,
    ) {
        reference
    } else {
        let root = native_path::made_absolute(style, here, native_path::parsed(style, base));
        native_path::written(
            style,
            native_path::made_absolute(style, here, native_path::taken_from(root, path)),
        ) + suffix_part(reference)
    }
}

/// Reroots a reference to an asset to a directory.
pub fn reroot_filesystem_asset(
    style: PathStyle,
    working: &str,
    base: &str,
    reference: &str,
) -> (r: String)
    ensures
        r@ == rerooted(style, working@, base@, reference@),
{
    let (path, suffix) = split_suffix(reference);
    let relative = NativePath::parse(style, path.as_str());
    if has_uri_scheme(reference) || path.as_str().is_empty() || relative.absolute(style) {
        return reference.to_owned();
    }
    let root = NativePath::make_absolute(
        style,
        NativePath::parse(style, working),
        NativePath::parse(style, base),
    );
    let mut out = NativePath::make_absolute(
        style,
        NativePath::parse(style, working),
        NativePath::take_from(root, relative),
    ).text(style);
    out.append(suffix.as_str());
    out
}

// Laws.

/// Whether parts of a path are settled: none is empty, a dot or holds a slash, and double dots stand
/// at the front only, of relative paths only.
pub open spec fn is_settled(parts: Seq<Seq<char>>, rooted: bool) -> bool {
    &&& forall|i: int|
        0 <= i < parts.len() ==> (#[trigger] parts[i]) != ""@ && parts[i] != "."@
            && !parts[i].contains('/')
    &&& forall|i: int| 0 <= i < parts.len() && (#[trigger] parts[i]) == ".."@ ==> !rooted
    &&& forall|i: int, j: int|
        0 <= i < j < parts.len() && #[trigger] parts[j] == ".."@ ==> #[trigger] parts[i] == ".."@
}

proof fn parts_are_settled(list: Seq<Seq<char>>, rooted: bool, n: nat)
    requires
        forall|i: int| 0 <= i < list.len() ==> !(#[trigger] list[i]).contains('/'),
        n <= list.len(),
    ensures
        is_settled(parts_of(list, rooted, n), rooted),
    decreases n,
{
    if n > 0 {
        parts_are_settled(list, rooted, (n - 1) as nat);
        let before = parts_of(list, rooted, (n - 1) as nat);
        let after = parts_of(list, rooted, n);
        assert(!list[n - 1].contains('/'));
        assert forall|i: int| 0 <= i < after.len() implies (#[trigger] after[i]) != ""@ && after[i]
            != "."@ && !after[i].contains('/') by {
            reveal_strlit("..");
            reveal_strlit(".");
            reveal_strlit("");
            if i < before.len() {
                assert(after[i] == before[i]);
            }
        }
        assert forall|i: int, j: int|
            0 <= i < j < after.len() && #[trigger] after[j] == ".."@ implies #[trigger] after[i]
            == ".."@ by {
            if j < before.len() {
                assert(after[i] == before[i] && after[j] == before[j]);
            } else {
                // Double dots are added only behind double dots.
                assert(before.last() == ".."@);
                if i < before.len() - 1 {
                    assert(before[before.len() - 1] == ".."@);
                    assert(before[i] == ".."@);
                }
            }
        }
    }
}

proof fn segments_hold_no_slash(path: Seq<char>)
    ensures
        forall|i: int| 0 <= i < segments(path).len() ==> !(#[trigger] segments(path)[i]).contains(
            '/',
        ),
    decreases path.len(),
{
    first_place_bounds(path, is_char('/'));
    let at = first_place(path, is_char('/'));
    if at < path.len() {
        segments_hold_no_slash(after_slash(path));
        let head = before_slash(path);
        assert forall|k: int| 0 <= k < head.len() implies head[k] != '/' by {
            assert(!is_char('/')(path[k]));
        }
        let list = segments(path);
        assert forall|i: int| 0 <= i < list.len() implies !(#[trigger] list[i]).contains('/') by {
            if i == 0 {
                assert(list[0] == head);
            } else {
                assert(list[i] == segments(after_slash(path))[i - 1]);
            }
        }
    } else {
        assert forall|k: int| 0 <= k < path.len() implies path[k] != '/' by {
            assert(!is_char('/')(path[k]));
        }
        assert(segments(path)[0] == path);
    }
}

/// Settled parts are what their own segments give.
pub proof fn settled_parts_stay(parts: Seq<Seq<char>>, rooted: bool, n: nat)
    requires
        is_settled(parts, rooted),
        n <= parts.len(),
    ensures
        parts_of(parts, rooted, n) == parts.take(n as int),
    decreases n,
{
    if n == 0 {
        assert(parts.take(0) =~= Seq::empty());
    } else {
        settled_parts_stay(parts, rooted, (n - 1) as nat);
        let before = parts.take(n - 1);
        assert(parts.take(n as int) =~= before.push(parts[n - 1]));
        if parts[n - 1] == ".."@ && n > 1 {
            assert(parts[n - 2] == ".."@);
            assert(before.last() == ".."@);
        }
    }
}

proof fn first_segment_of_joined(parts: Seq<Seq<char>>, n: nat)
    requires
        forall|i: int| 0 <= i < parts.len() ==> !(#[trigger] parts[i]).contains('/'),
        0 < n <= parts.len(),
    ensures
        segments(sorting::joined(parts, "/"@, n)) == parts.take(n as int),
    decreases n,
{
    reveal_strlit("/");
    let path = sorting::joined(parts, "/"@, n);
    if n == 1 {
        no_slash_is_one_segment(parts[0]);
        assert(parts.take(1) =~= seq![parts[0]]);
    } else {
        first_segment_of_joined(parts, (n - 1) as nat);
        let front = sorting::joined(parts, "/"@, (n - 1) as nat);
        assert(path =~= front + "/"@ + parts[n - 1]);
        segments_of_two(front, parts[n - 1]);
        no_slash_is_one_segment(parts[n - 1]);
        assert(parts.take(n as int) =~= parts.take(n - 1) + seq![parts[n - 1]]);
    }
}

proof fn no_slash_is_one_segment(path: Seq<char>)
    requires
        !path.contains('/'),
    ensures
        segments(path) == seq![path],
{
    first_place_bounds(path, is_char('/'));
    if first_place(path, is_char('/')) < path.len() {
        assert(path[first_place(path, is_char('/')) as int] == '/');
    }
}

/// The segments of two paths with a slash between them are those of the first and then those of the
/// second.
pub proof fn segments_of_two(a: Seq<char>, b: Seq<char>)
    ensures
        segments(a + "/"@ + b) == segments(a) + segments(b),
    decreases a.len(),
{
    reveal_strlit("/");
    let whole = a + "/"@ + b;
    first_place_bounds(a, is_char('/'));
    let at = first_place(a, is_char('/'));
    if at < a.len() {
        assert forall|k: int| 0 <= k < at implies !is_char('/')(#[trigger] whole[k]) by {
            assert(!is_char('/')(a[k]));
        }
        assert(whole[at as int] == a[at as int]);
        first_place_is(whole, is_char('/'), at as int);
        assert(before_slash(whole) =~= before_slash(a));
        assert(after_slash(whole) =~= after_slash(a) + "/"@ + b);
        segments_of_two(after_slash(a), b);
        assert(segments(whole) =~= seq![before_slash(a)] + (segments(after_slash(a)) + segments(b)));
        assert(segments(whole) =~= segments(a) + segments(b));
    } else {
        assert forall|k: int| 0 <= k < a.len() implies !is_char('/')(#[trigger] whole[k]) by {
            assert(!is_char('/')(a[k]));
        }
        assert(whole[a.len() as int] == '/');
        first_place_is(whole, is_char('/'), a.len() as int);
        assert(before_slash(whole) =~= a);
        assert(after_slash(whole) =~= b);
    }
}

/// A normalized path has no empty segments and no single dots; where the path is rooted it has no
/// double dots, and where it is relative it has them at its front only. Normalizing it again changes
/// nothing.
pub proof fn normalizing_settles_a_path(path: Seq<char>, rooted: bool)
    ensures
        is_settled(parts_of(segments(path), rooted, segments(path).len()), rooted),
        normalized(path, rooted).len() > 0 ==> segments(normalized(path, rooted)) == parts_of(
            segments(path),
            rooted,
            segments(path).len(),
        ),
        normalized(normalized(path, rooted), rooted) == normalized(path, rooted),
{
    let list = segments(path);
    let parts = parts_of(list, rooted, list.len());
    segments_hold_no_slash(path);
    parts_are_settled(list, rooted, list.len());
    let once = normalized(path, rooted);
    if parts.len() == 0 {
        assert(once =~= Seq::empty());
        no_slash_is_one_segment(once);
        reveal_strlit("");
        assert(once =~= ""@);
        let again = parts_of(segments(once), rooted, 1);
        assert(parts_of(segments(once), rooted, 0) =~= Seq::empty());
        assert(again =~= Seq::empty());
    } else {
        first_segment_of_joined(parts, parts.len());
        assert(parts.take(parts.len() as int) =~= parts);
        settled_parts_stay(parts, rooted, parts.len());
    }
}

/// Whether a text holds neither a query nor a fragment.
pub open spec fn holds_no_suffix(text: Seq<char>) -> bool {
    forall|k: int| 0 <= k < text.len() ==> !starts_suffix()(#[trigger] text[k])
}

proof fn path_part_holds_no_suffix(value: Seq<char>)
    ensures
        holds_no_suffix(path_part(value)),
{
    first_place_bounds(value, starts_suffix());
    let path = path_part(value);
    assert forall|k: int| 0 <= k < path.len() implies !starts_suffix()(#[trigger] path[k]) by {
        assert(!starts_suffix()(value[k]));
    }
}

proof fn segments_hold_no_suffix(path: Seq<char>)
    requires
        holds_no_suffix(path),
    ensures
        forall|i: int|
            0 <= i < segments(path).len() ==> holds_no_suffix(#[trigger] segments(path)[i]),
    decreases path.len(),
{
    first_place_bounds(path, is_char('/'));
    let at = first_place(path, is_char('/'));
    if at < path.len() {
        let tail = after_slash(path);
        assert forall|k: int| 0 <= k < tail.len() implies !starts_suffix()(#[trigger] tail[k]) by {
            assert(tail[k] == path[k + at + 1]);
        }
        segments_hold_no_suffix(tail);
        let list = segments(path);
        assert forall|i: int| 0 <= i < list.len() implies holds_no_suffix(#[trigger] list[i]) by {
            if i == 0 {
                let head = before_slash(path);
                assert(list[0] == head);
                assert forall|k: int| 0 <= k < head.len() implies !starts_suffix()(
                    #[trigger] head[k],
                ) by {
                    assert(head[k] == path[k]);
                }
            } else {
                assert(list[i] == segments(tail)[i - 1]);
            }
        }
    } else {
        assert(segments(path)[0] == path);
    }
}

proof fn parts_hold_no_suffix(list: Seq<Seq<char>>, rooted: bool, n: nat)
    requires
        forall|i: int| 0 <= i < list.len() ==> holds_no_suffix(#[trigger] list[i]),
        n <= list.len(),
    ensures
        forall|i: int|
            0 <= i < parts_of(list, rooted, n).len() ==> holds_no_suffix(
                #[trigger] parts_of(list, rooted, n)[i],
            ),
    decreases n,
{
    if n > 0 {
        parts_hold_no_suffix(list, rooted, (n - 1) as nat);
        reveal_strlit("..");
        assert(holds_no_suffix(list[n - 1]));
        let before = parts_of(list, rooted, (n - 1) as nat);
        let after = parts_of(list, rooted, n);
        assert forall|i: int| 0 <= i < after.len() implies holds_no_suffix(#[trigger] after[i]) by {
            if i < before.len() {
                assert(after[i] == before[i]);
            }
        }
    }
}

proof fn joined_holds_no_suffix(parts: Seq<Seq<char>>, n: nat)
    requires
        forall|i: int| 0 <= i < parts.len() ==> holds_no_suffix(#[trigger] parts[i]),
        n <= parts.len(),
    ensures
        holds_no_suffix(sorting::joined(parts, "/"@, n)),
    decreases n,
{
    reveal_strlit("/");
    if n == 1 {
        assert(holds_no_suffix(parts[0]));
    } else if n > 1 {
        joined_holds_no_suffix(parts, (n - 1) as nat);
        assert(holds_no_suffix(parts[n - 1]));
    }
}

proof fn directory_holds_no_suffix(path: Seq<char>)
    requires
        holds_no_suffix(path),
    ensures
        holds_no_suffix(directory(path)),
    decreases path.len(),
{
    if path.len() > 0 {
        let rest = path.drop_last();
        assert forall|k: int| 0 <= k < rest.len() implies !starts_suffix()(#[trigger] rest[k]) by {
            assert(rest[k] == path[k]);
        }
        if path.last() != '/' {
            directory_holds_no_suffix(rest);
        }
    }
}

proof fn skip_holds_no_suffix(value: Seq<char>, from: int)
    requires
        holds_no_suffix(value),
        0 <= from <= value.len(),
    ensures
        holds_no_suffix(value.skip(from)),
        holds_no_suffix(value.take(from)),
{
    let tail = value.skip(from);
    assert forall|k: int| 0 <= k < tail.len() implies !starts_suffix()(#[trigger] tail[k]) by {
        assert(tail[k] == value[k + from]);
    }
    let head = value.take(from);
    assert forall|k: int| 0 <= k < head.len() implies !starts_suffix()(#[trigger] head[k]) by {
        assert(head[k] == value[k]);
    }
}

/// What the parts of a reference hold of queries and fragments: nothing, where the reference holds
/// none.
proof fn parsed_holds_no_suffix(value: Seq<char>)
    requires
        holds_no_suffix(value),
        path_parsed(value) is Some,
    ensures
        holds_no_suffix(path_parsed(value)->0.path),
        forall|path: Seq<char>|
            holds_no_suffix(path) ==> holds_no_suffix(
                #[trigger] rendered(path_parsed(value)->0.root, path),
            ),
{
    reveal_strlit("//");
    reveal_strlit("/");
    reveal_strlit("://");
    reveal_strlit(":");
    if has_scheme(value) {
        let colon = colon_place(value) as int;
        skip_holds_no_suffix(value, colon);
        skip_holds_no_suffix(value, colon + 1);
        let rest = value.skip(colon + 1);
        if text::starts_with(rest, "//"@) {
            skip_holds_no_suffix(rest, 2);
            let after = rest.skip(2);
            first_place_bounds(after, is_char('/'));
            let at = first_place(after, is_char('/')) as int;
            skip_holds_no_suffix(after, at);
            if at < after.len() {
                skip_holds_no_suffix(after, at + 1);
            }
        } else if text::starts_with(rest, "/"@) {
            skip_holds_no_suffix(rest, 1);
        }
    } else if text::starts_with(value, "//"@) {
        skip_holds_no_suffix(value, 2);
        let after = value.skip(2);
        first_place_bounds(after, is_char('/'));
        let at = first_place(after, is_char('/')) as int;
        skip_holds_no_suffix(after, at);
        if at < after.len() {
            skip_holds_no_suffix(after, at + 1);
        }
    } else if text::starts_with(value, "/"@) {
        skip_holds_no_suffix(value, 1);
    }
}

/// Resolution keeps the query and fragment of a relative reference as they are and takes none from
/// the parent.
pub proof fn resolution_keeps_the_suffix(parent: Seq<char>, reference: Seq<char>)
    requires
        path_parsed(path_part(parent)) is Some,
    ensures
        suffix_part(resolved_beside(parent, reference)) == suffix_part(reference),
{
    let suffix = suffix_part(reference);
    let key = resolved_beside(parent, reference);
    path_part_holds_no_suffix(parent);
    path_part_holds_no_suffix(reference);
    first_place_bounds(reference, starts_suffix());
    let base = path_parsed(path_part(parent))->0;
    let front = if path_part(reference).len() == 0 {
        path_part(parent)
    } else {
        rendered(
            base.root,
            normalized(
                joined_path(directory(base.path), path_part(reference)),
                !(base.root is Relative),
            ),
        )
    };
    if path_part(reference).len() > 0 {
        parsed_holds_no_suffix(path_part(parent));
        directory_holds_no_suffix(base.path);
        let rooted = !(base.root is Relative);
        let whole = joined_path(directory(base.path), path_part(reference));
        reveal_strlit("/");
        assert(holds_no_suffix(whole));
        segments_hold_no_suffix(whole);
        parts_hold_no_suffix(segments(whole), rooted, segments(whole).len());
        let parts = parts_of(segments(whole), rooted, segments(whole).len());
        joined_holds_no_suffix(parts, parts.len());
    }
    assert(holds_no_suffix(front));
    assert(key =~= front + suffix);
    assert forall|k: int| 0 <= k < front.len() implies !starts_suffix()(#[trigger] key[k]) by {
        assert(key[k] == front[k]);
    }
    if suffix.len() > 0 {
        assert(suffix[0] == reference[first_place(reference, starts_suffix()) as int]);
        assert(key[front.len() as int] == suffix[0]);
    }
    first_place_is(key, starts_suffix(), front.len() as int);
    assert(suffix_part(key) =~= suffix);
}

} // verus!
