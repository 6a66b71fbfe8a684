//! Paths of the filesystem, by the rules of the system that they are for.
//!
//! On Unix a slash separates names, and a path that starts with one is absolute. On Windows slashes and
//! backslashes separate names, and a drive, the share of a server or a verbatim prefix may stand before
//! them: a path is absolute where it has such a prefix and is rooted behind it.
use vstd::prelude::*;
use crate::resource_path;
use crate::sorting;
use crate::text;

verus! {

/// The systems whose rules a path can follow.
#[derive(Debug, Clone, Copy, PartialEq, Eq, Structural)]
pub enum PathStyle {
    Unix,
    Windows,
}

/// What stands before the root of a path.
#[derive(Debug, Clone, Copy, PartialEq, Eq, Structural)]
pub enum PrefixKind {
    Nothing,
    /// A drive: `C:`.
    Drive,
    /// The share of a server or a device: `\\server\share`, `\\.\COM42`.
    Share,
    /// A prefix behind which only backslashes separate names: `\\?\C:`.
    Verbatim,
}

impl PathStyle {
    /// Whether a character separates names.
    pub open spec fn separates(self, c: char) -> bool {
        c == '/' || (self is Windows && c == '\\')
    }

    /// The separator that paths are written with.
    pub open spec fn separator(self) -> Seq<char> {
        match self {
            PathStyle::Unix => "/"@,
            PathStyle::Windows => "\\"@,
        }
    }

    /// Whether a character separates names.
    pub fn parts_at(self, c: char) -> (r: bool)
        ensures
            r == self.separates(c),
    {
        match self {
            PathStyle::Unix => c == '/',
            PathStyle::Windows => c == '/' || c == '\\',
        }
    }

    /// The separator that paths are written with.
    pub fn main_separator(self) -> (r: &'static str)
        ensures
            r@ == self.separator(),
    {
        match self {
            PathStyle::Unix => "/",
            PathStyle::Windows => "\\",
        }
    }
}

/// Which characters separate the names behind a prefix.
pub open spec fn splits(style: PathStyle, kind: PrefixKind) -> spec_fn(char) -> bool {
    |c: char|
        if kind is Verbatim {
            c == '\\'
        } else {
            style.separates(c)
        }
}

/// The number of characters up to the first that separates names.
pub open spec fn name_length(path: Seq<char>, kind: PrefixKind) -> nat {
    resource_path::first_place(path, splits(PathStyle::Windows, kind))
}

/// Whether a path starts with a drive.
pub open spec fn starts_with_drive(path: Seq<char>) -> bool {
    path.len() >= 2 && resource_path::is_letter(path[0]) && path[1] == ':'
}

/// The length of a share behind its server, with the separator before it; nothing where there is none.
pub open spec fn share_length(path: Seq<char>, kind: PrefixKind) -> nat {
    if path.len() == 0 || name_length(path.skip(1), kind) == 0 {
        0
    } else {
        1 + name_length(path.skip(1), kind)
    }
}

/// The length of what belongs to a verbatim prefix behind its mark: a server and a share, a drive, or
/// one name.
pub open spec fn verbatim_length(path: Seq<char>) -> nat {
    if text::starts_with(path, "UNC"@) && path.len() > 3 && PathStyle::Windows.separates(path[3]) {
        let server = name_length(path.skip(4), PrefixKind::Verbatim);
        4 + server + share_length(path.skip(4 + server as int), PrefixKind::Verbatim)
    } else if starts_with_drive(path) && (path.len() == 2 || PathStyle::Windows.separates(path[2])) {
        2
    } else {
        name_length(path, PrefixKind::Verbatim)
    }
}

/// The prefix of a path: its kind and its length.
pub open spec fn prefix_of(style: PathStyle, path: Seq<char>) -> (PrefixKind, nat) {
    if style is Unix {
        (PrefixKind::Nothing, 0)
    } else if text::starts_with(path, "\\\\?\\"@) {
        (PrefixKind::Verbatim, 4 + verbatim_length(path.skip(4)))
    } else if path.len() >= 2 && style.separates(path[0]) && style.separates(path[1]) {
        if path.len() >= 4 && path[2] == '.' && style.separates(path[3]) {
            (PrefixKind::Share, 4 + name_length(path.skip(4), PrefixKind::Share))
        } else {
            let server = name_length(path.skip(2), PrefixKind::Share);
            let share = share_length(path.skip(2 + server as int), PrefixKind::Share);
            if server > 0 && share > 0 {
                (PrefixKind::Share, 2 + server + share)
            } else {
                (PrefixKind::Nothing, 0)
            }
        }
    } else if starts_with_drive(path) {
        (PrefixKind::Drive, 2)
    } else {
        (PrefixKind::Nothing, 0)
    }
}

/// The place of the first character from `from` on that separates names.
fn name_end(style: PathStyle, kind: PrefixKind, cs: &[char], from: usize) -> (r: usize)
    requires
        from <= cs@.len(),
    ensures
        from <= r <= cs@.len(),
        resource_path::first_place(cs@.skip(from as int), splits(style, kind)) == r - from,
{
    let n: usize = cs.len();
    let ghost rest = cs@.skip(from as int);
    let ghost cut = splits(style, kind);
    let mut at: usize = from;
    while at < n
        invariant
            from <= at <= n,
            n == cs@.len(),
            rest == cs@.skip(from as int),
            cut == splits(style, kind),
            forall|k: int| 0 <= k < at - from ==> !cut(#[trigger] rest[k]),
        decreases n - at,
    {
        let c = cs[at];
        assert(rest[at - from] == c);
        let hit = match kind {
            PrefixKind::Verbatim => c == '\\',
            _ => style.parts_at(c),
        };
        if hit {
            proof {
                resource_path::first_place_is(rest, cut, at - from);
            }
            return at;
        }
        at += 1;
    }
    proof {
        resource_path::first_place_is(rest, cut, at - from);
    }
    at
}

/// The end of the share behind a server that ends at `from`; `from` itself where there is none.
fn share_end(kind: PrefixKind, cs: &[char], from: usize) -> (r: usize)
    requires
        from <= cs@.len(),
    ensures
        from <= r <= cs@.len(),
        share_length(cs@.skip(from as int), kind) == r - from,
{
    if from == cs.len() {
        return from;
    }
    let end = name_end(PathStyle::Windows, kind, cs, from + 1);
    assert(cs@.skip(from as int).skip(1) =~= cs@.skip(from + 1));
    if end == from + 1 {
        from
    } else {
        end
    }
}

/// Whether a drive stands at a place.
pub(crate) fn drive_at(cs: &[char], at: usize) -> (r: bool)
    requires
        at <= cs@.len(),
    ensures
        r == starts_with_drive(cs@.skip(at as int)),
{
    if cs.len() - at < 2 {
        return false;
    }
    let c = cs[at];
    assert(cs@.skip(at as int)[0] == c && cs@.skip(at as int)[1] == cs@[at + 1]);
    (('a' <= c && c <= 'z') || ('A' <= c && c <= 'Z')) && cs[at + 1] == ':'
}

/// The end of a verbatim prefix whose mark ends at `at`.
fn verbatim_end(cs: &[char], at: usize) -> (r: usize)
    requires
        at <= cs@.len(),
    ensures
        at <= r <= cs@.len(),
        verbatim_length(cs@.skip(at as int)) == r - at,
{
    let style = PathStyle::Windows;
    let kind = PrefixKind::Verbatim;
    let n: usize = cs.len();
    let ghost rest = cs@.skip(at as int);
    proof {
        reveal_strlit("UNC");
        resource_path::prefix_at(cs@, at as int, "UNC"@);
    }
    if n - at > 3 && text::has_at(cs, "UNC", at) && style.parts_at(cs[at + 3]) {
        let server = name_end(style, kind, cs, at + 4);
        assert(rest.skip(4) =~= cs@.skip(at + 4));
        assert(rest.skip(server - at) =~= cs@.skip(server as int));
        return share_end(kind, cs, server);
    }
    if drive_at(cs, at) && (n - at == 2 || style.parts_at(cs[at + 2])) {
        return at + 2;
    }
    name_end(style, kind, cs, at)
}

/// The prefix of a path: its kind and its length.
fn prefix(style: PathStyle, cs: &[char]) -> (r: (PrefixKind, usize))
    ensures
        r.1 <= cs@.len(),
        prefix_of(style, cs@) == (r.0, r.1 as nat),
{
    let n: usize = cs.len();
    if let PathStyle::Unix = style {
        return (PrefixKind::Nothing, 0);
    }
    proof {
        reveal_strlit("\\\\?\\");
        resource_path::prefix_at(cs@, 0, "\\\\?\\"@);
        assert(cs@.skip(0) =~= cs@);
    }
    if text::has_at(cs, "\\\\?\\", 0) {
        return (PrefixKind::Verbatim, verbatim_end(cs, 4));
    }
    if n >= 2 && style.parts_at(cs[0]) && style.parts_at(cs[1]) {
        if n >= 4 && cs[2] == '.' && style.parts_at(cs[3]) {
            return (PrefixKind::Share, name_end(style, PrefixKind::Share, cs, 4));
        }
        let server = name_end(style, PrefixKind::Share, cs, 2);
        let share = share_end(PrefixKind::Share, cs, server);
        if server > 2 && share > server {
            return (PrefixKind::Share, share);
        }
        return (PrefixKind::Nothing, 0);
    }
    if drive_at(cs, 0) {
        (PrefixKind::Drive, 2)
    } else {
        (PrefixKind::Nothing, 0)
    }
}

// The parts of a path.

/// The texts between the characters that `cut` picks.
pub open spec fn pieces(path: Seq<char>, cut: spec_fn(char) -> bool) -> Seq<Seq<char>>
    decreases path.len(),
{
    let at = resource_path::first_place(path, cut);
    if at < path.len() {
        seq![path.take(at as int)] + pieces(path.skip(at as int + 1), cut)
    } else {
        seq![path]
    }
}

/// What a path is made of: its prefix, whether it is rooted behind that, and its names.
pub struct PathParts {
    pub prefix: Seq<char>,
    pub kind: PrefixKind,
    pub rooted: bool,
    pub names: Seq<Seq<char>>,
}

/// What a path is made of. A share is a root of its own.
pub open spec fn parsed(style: PathStyle, path: Seq<char>) -> PathParts {
    let (kind, length) = prefix_of(style, path);
    let rest = path.skip(length as int);
    PathParts {
        prefix: path.take(length as int),
        kind,
        rooted: kind is Share || (rest.len() > 0 && splits(style, kind)(rest[0])),
        names: pieces(rest, splits(style, kind)),
    }
}

/// Whether a path stands for itself, whatever the working directory.
pub open spec fn is_absolute(style: PathStyle, path: PathParts) -> bool {
    match style {
        PathStyle::Unix => path.rooted,
        PathStyle::Windows => match path.kind {
            PrefixKind::Nothing => false,
            PrefixKind::Drive => path.rooted,
            PrefixKind::Share => true,
            PrefixKind::Verbatim => true,
        },
    }
}

/// Names behind a verbatim prefix with one more taken: dots that stand there already are names of their
/// own, which double dots do not take back.
pub open spec fn with_verbatim_name(names: Seq<Seq<char>>, name: Seq<char>) -> Seq<Seq<char>> {
    if name == ""@ || name == "."@ {
        names
    } else if name == ".."@ {
        if names.len() > 0 && names.last() != "."@ && names.last() != ".."@ {
            names.drop_last()
        } else {
            names
        }
    } else {
        names.push(name)
    }
}

/// Names behind a verbatim prefix with the first `n` of a list taken.
pub open spec fn with_verbatim_names(
    names: Seq<Seq<char>>,
    list: Seq<Seq<char>>,
    n: nat,
) -> Seq<Seq<char>>
    decreases n,
{
    if n == 0 || n > list.len() {
        names
    } else {
        with_verbatim_name(with_verbatim_names(names, list, (n - 1) as nat), list[n - 1])
    }
}

/// A path taken from a directory. One with a prefix stands for itself, and one that is rooted keeps
/// only the prefix of the directory.
pub open spec fn taken_from(directory: PathParts, path: PathParts) -> PathParts {
    if !(path.kind is Nothing) {
        path
    } else if path.rooted {
        PathParts { rooted: true, names: path.names, ..directory }
    } else if directory.kind is Verbatim {
        PathParts {
            rooted: true,
            names: with_verbatim_names(
                not_empty(directory.names, directory.names.len()),
                path.names,
                path.names.len(),
            ),
            ..directory
        }
    } else {
        PathParts { names: directory.names + path.names, ..directory }
    }
}

/// Names with one more taken: empty names and single dots change nothing, and two dots take back the
/// last name.
pub open spec fn with_name(names: Seq<Seq<char>>, name: Seq<char>) -> Seq<Seq<char>> {
    if name == ""@ || name == "."@ {
        names
    } else if name == ".."@ {
        if names.len() > 0 {
            names.drop_last()
        } else {
            names
        }
    } else {
        names.push(name)
    }
}

/// Names with the first `n` of a list taken.
pub open spec fn with_names(names: Seq<Seq<char>>, list: Seq<Seq<char>>, n: nat) -> Seq<Seq<char>>
    decreases n,
{
    if n == 0 || n > list.len() {
        names
    } else {
        with_name(with_names(names, list, (n - 1) as nat), list[n - 1])
    }
}

/// The first `n` names of a list but for the empty ones.
pub open spec fn not_empty(list: Seq<Seq<char>>, n: nat) -> Seq<Seq<char>>
    decreases n,
{
    if n == 0 || n > list.len() {
        Seq::empty()
    } else if list[n - 1] == ""@ {
        not_empty(list, (n - 1) as nat)
    } else {
        not_empty(list, (n - 1) as nat).push(list[n - 1])
    }
}

/// A path with one more name taken. A name with a prefix of its own takes the place of the path. Behind
/// a verbatim prefix a name may hold slashes, which separate names once it is taken.
pub open spec fn with_step(style: PathStyle, path: PathParts, name: Seq<char>) -> PathParts {
    let own = parsed(style, name);
    if !(own.kind is Nothing) {
        PathParts { names: not_empty(own.names, own.names.len()), ..own }
    } else if path.kind is Verbatim {
        PathParts {
            names: with_names(
                if own.rooted {
                    Seq::empty()
                } else {
                    path.names
                },
                own.names,
                own.names.len(),
            ),
            ..path
        }
    } else {
        PathParts { names: with_name(path.names, name), ..path }
    }
}

/// A path with its first `n` names taken, from its prefix and root on.
pub open spec fn with_steps(style: PathStyle, path: PathParts, n: nat) -> PathParts
    decreases n,
{
    if n == 0 || n > path.names.len() {
        PathParts { names: Seq::empty(), ..path }
    } else {
        with_step(style, with_steps(style, path, (n - 1) as nat), path.names[n - 1])
    }
}

/// A path without empty names, dots and what double dots take back.
pub open spec fn settled(style: PathStyle, path: PathParts) -> PathParts {
    with_steps(style, path, path.names.len())
}

/// The absolute form of a path, without dots: one that is not absolute is taken from the working
/// directory.
pub open spec fn made_absolute(style: PathStyle, working: PathParts, path: PathParts) -> PathParts {
    settled(
        style,
        if is_absolute(style, path) {
            path
        } else {
            taken_from(working, path)
        },
    )
}

/// The directory that a settled path stands in; a slash where it has no names.
pub open spec fn parent(style: PathStyle, path: PathParts) -> Seq<char> {
    if path.names.len() == 0 {
        "/"@
    } else {
        written(style, PathParts { names: path.names.drop_last(), ..path })
    }
}

/// The text of a path.
pub open spec fn written(style: PathStyle, path: PathParts) -> Seq<char> {
    path.prefix + (if path.rooted {
        style.separator()
    } else {
        Seq::empty()
    }) + sorting::joined(path.names, style.separator(), path.names.len())
}

/// What a path is made of.
#[derive(Debug, Clone, PartialEq, Eq)]
pub struct NativePath {
    pub prefix: String,
    pub kind: PrefixKind,
    pub rooted: bool,
    pub names: Vec<String>,
}

impl View for NativePath {
    type V = PathParts;

    open spec fn view(&self) -> PathParts {
        PathParts {
            prefix: self.prefix@,
            kind: self.kind,
            rooted: self.rooted,
            names: sorting::text_views(self.names@),
        }
    }
}

/// The texts between the characters that separate names.
fn names_from(style: PathStyle, kind: PrefixKind, cs: &[char], start: usize) -> (r: Vec<String>)
    requires
        start <= cs@.len(),
    ensures
        sorting::text_views(r@) == pieces(cs@.skip(start as int), splits(style, kind)),
{
    let n: usize = cs.len();
    let ghost cut = splits(style, kind);
    let ghost all = pieces(cs@.skip(start as int), cut);
    let mut out: Vec<String> = Vec::new();
    let mut from: usize = start;
    assert(sorting::text_views(out@) + all =~= all);
    loop
        invariant
            from <= n == cs@.len(),
            cut == splits(style, kind),
            sorting::text_views(out@) + pieces(cs@.skip(from as int), cut) == all,
            all == pieces(cs@.skip(start as int), splits(style, kind)),
        decreases n - from,
    {
        let end = name_end(style, kind, cs, from);
        let name = text::text_of_range(cs, from, end);
        let ghost rest = cs@.skip(from as int);
        let ghost before = sorting::text_views(out@);
        let ghost words = name@;
        out.push(name);
        assert(sorting::text_views(out@) =~= before.push(words));
        if end == n {
            assert(words =~= rest);
            assert(sorting::text_views(out@) =~= before + pieces(rest, cut));
            return out;
        }
        proof {
            assert(words =~= rest.take(end - from));
            assert(rest.skip(end - from + 1) =~= cs@.skip(end + 1));
            assert(before + pieces(rest, cut) =~= sorting::text_views(out@) + pieces(
                cs@.skip(end + 1),
                cut,
            ));
        }
        from = end + 1;
    }
}

fn take_name(names: &mut Vec<String>, name: &str)
    ensures
        sorting::text_views(final(names)@) == with_name(sorting::text_views(old(names)@), name@),
{
    let ghost before = sorting::text_views(names@);
    if text::same(name, "") || text::same(name, ".") {
        return;
    }
    if text::same(name, "..") {
        assert(before.len() == names@.len());
        if names.len() > 0 {
            let _ = names.pop();
            assert(sorting::text_views(names@) =~= before.drop_last());
        }
        return;
    }
    names.push(name.to_owned());
    assert(sorting::text_views(names@) =~= before.push(name@));
}

fn take_names(names: &mut Vec<String>, list: &Vec<String>)
    ensures
        sorting::text_views(final(names)@) == with_names(
            sorting::text_views(old(names)@),
            sorting::text_views(list@),
            list@.len(),
        ),
{
    let ghost start = sorting::text_views(names@);
    let ghost all = sorting::text_views(list@);
    let mut i: usize = 0;
    while i < list.len()
        invariant
            i <= list@.len(),
            all == sorting::text_views(list@),
            sorting::text_views(names@) == with_names(start, all, i as nat),
        decreases list@.len() - i,
    {
        assert(all[i as int] == list@[i as int]@);
        take_name(names, list[i].as_str());
        i += 1;
    }
}

fn take_verbatim_names(names: &mut Vec<String>, list: &Vec<String>)
    ensures
        sorting::text_views(final(names)@) == with_verbatim_names(
            sorting::text_views(old(names)@),
            sorting::text_views(list@),
            list@.len(),
        ),
{
    let ghost start = sorting::text_views(names@);
    let ghost all = sorting::text_views(list@);
    let mut i: usize = 0;
    while i < list.len()
        invariant
            i <= list@.len(),
            all == sorting::text_views(list@),
            sorting::text_views(names@) == with_verbatim_names(start, all, i as nat),
        decreases list@.len() - i,
    {
        assert(all[i as int] == list@[i as int]@);
        let name = list[i].as_str();
        let n: usize = names.len();
        let ghost before = sorting::text_views(names@);
        assert(before.len() == n);
        if text::same(name, "..") {
            proof {
                reveal_strlit("..");
                reveal_strlit(".");
                reveal_strlit("");
            }
            if n > 0 {
                assert(before.last() == names@[n - 1]@);
                let last = names[n - 1].as_str();
                if !text::same(last, ".") && !text::same(last, "..") {
                    let _ = names.pop();
                    assert(sorting::text_views(names@) =~= before.drop_last());
                }
            }
        } else if !text::same(name, "") && !text::same(name, ".") {
            names.push(name.to_owned());
            assert(sorting::text_views(names@) =~= before.push(name@));
        }
        i += 1;
    }
}

pub(crate) fn without_empty(list: &Vec<String>) -> (r: Vec<String>)
    ensures
        sorting::text_views(r@) == not_empty(sorting::text_views(list@), list@.len()),
{
    let ghost all = sorting::text_views(list@);
    let mut out: Vec<String> = Vec::new();
    let mut i: usize = 0;
    assert(sorting::text_views(out@) =~= not_empty(all, 0));
    while i < list.len()
        invariant
            i <= list@.len(),
            all == sorting::text_views(list@),
            sorting::text_views(out@) == not_empty(all, i as nat),
        decreases list@.len() - i,
    {
        assert(all[i as int] == list@[i as int]@);
        if !text::same(list[i].as_str(), "") {
            let ghost before = sorting::text_views(out@);
            out.push(list[i].clone());
            assert(sorting::text_views(out@) =~= before.push(all[i as int]));
        }
        i += 1;
    }
    out
}

impl NativePath {
    /// What a path is made of.
    pub fn parse(style: PathStyle, path: &str) -> (r: Self)
        ensures
            r@ == parsed(style, path@),
    {
        let cs = text::chars(path);
        let (kind, length) = prefix(style, cs.as_slice());
        let n: usize = cs.len();
        let head = text::text_of_range(cs.as_slice(), 0, length);
        let first: bool = if length < n {
            let c = cs[length];
            match kind {
                PrefixKind::Verbatim => c == '\\',
                _ => style.parts_at(c),
            }
        } else {
            false
        };
        let rooted = match kind {
            PrefixKind::Share => true,
            _ => first,
        };
        let names = names_from(style, kind, cs.as_slice(), length);
        assert(head@ =~= path@.take(length as int));
        assert(length < n ==> path@.skip(length as int)[0] == cs@[length as int]);
        NativePath { prefix: head, kind, rooted, names }
    }

    /// A path taken from a directory.
    pub fn take_from(directory: NativePath, path: NativePath) -> (r: Self)
        ensures
            r@ == taken_from(directory@, path@),
    {
        match path.kind {
            PrefixKind::Nothing => {},
            _ => {
                return path;
            },
        }
        if path.rooted {
            return NativePath {
                prefix: directory.prefix,
                kind: directory.kind,
                rooted: true,
                names: path.names,
            };
        }
        if let PrefixKind::Verbatim = directory.kind {
            let mut names: Vec<String> = without_empty(&directory.names);
            take_verbatim_names(&mut names, &path.names);
            return NativePath {
                prefix: directory.prefix,
                kind: directory.kind,
                rooted: true,
                names,
            };
        }
        let mut names: Vec<String> = directory.names;
        let mut more: Vec<String> = path.names;
        let ghost first = names@;
        let ghost second = more@;
        names.append(&mut more);
        assert(sorting::text_views(names@) =~= sorting::text_views(first) + sorting::text_views(
            second,
        ));
        NativePath {
            prefix: directory.prefix,
            kind: directory.kind,
            rooted: directory.rooted,
            names,
        }
    }

    /// Whether the path stands for itself, whatever the working directory.
    pub fn absolute(&self, style: PathStyle) -> (r: bool)
        ensures
            r == is_absolute(style, self@),
    {
        match style {
            PathStyle::Unix => self.rooted,
            PathStyle::Windows => match self.kind {
                PrefixKind::Nothing => false,
                PrefixKind::Drive => self.rooted,
                PrefixKind::Share => true,
                PrefixKind::Verbatim => true,
            },
        }
    }

    /// The absolute form of a path, without dots.
    pub fn make_absolute(style: PathStyle, working: NativePath, path: NativePath) -> (r: Self)
        ensures
            r@ == made_absolute(style, working@, path@),
    {
        let whole = if path.absolute(style) {
            path
        } else {
            NativePath::take_from(working, path)
        };
        whole.settle(style)
    }

    /// The directory that a settled path stands in.
    pub fn parent(self, style: PathStyle) -> (r: String)
        ensures
            r@ == parent(style, self@),
    {
        let mut path = self;
        let ghost before = path@.names;
        assert(before.len() == path.names@.len());
        if path.names.len() == 0 {
            return "/".to_owned();
        }
        let _ = path.names.pop();
        assert(path@.names =~= before.drop_last());
        path.text(style)
    }

    /// The path without empty names, dots and what double dots take back.
    pub fn settle(&self, style: PathStyle) -> (r: Self)
        ensures
            r@ == settled(style, self@),
    {
        let mut out = NativePath {
            prefix: self.prefix.clone(),
            kind: self.kind,
            rooted: self.rooted,
            names: Vec::new(),
        };
        let ghost all = self@;
        assert(out@.names =~= Seq::empty());
        let mut i: usize = 0;
        while i < self.names.len()
            invariant
                i <= self.names@.len(),
                all == self@,
                out@ == with_steps(style, all, i as nat),
            decreases self.names@.len() - i,
        {
            assert(all.names[i as int] == self.names@[i as int]@);
            let name = self.names[i].as_str();
            let own = NativePath::parse(style, name);
            match own.kind {
                PrefixKind::Nothing => match out.kind {
                    PrefixKind::Verbatim => {
                        if own.rooted {
                            out.names = Vec::new();
                            assert(sorting::text_views(out.names@) =~= Seq::empty());
                        }
                        take_names(&mut out.names, &own.names);
                    },
                    _ => {
                        take_name(&mut out.names, name);
                    },
                },
                _ => {
                    let names = without_empty(&own.names);
                    out = NativePath { prefix: own.prefix, kind: own.kind, rooted: own.rooted, names };
                },
            }
            i += 1;
        }
        out
    }

    /// The text of the path.
    pub fn text(&self, style: PathStyle) -> (r: String)
        ensures
            r@ == written(style, self@),
    {
        let mut out: String = self.prefix.clone();
        if self.rooted {
            out.append(style.main_separator());
        }
        out.append(sorting::join_texts(&self.names, style.main_separator()).as_str());
        assert(out@ =~= written(style, self@));
        out
    }
}

// Laws.

/// Whether names stay as they are when they are taken: none is empty or made of dots.
pub open spec fn are_plain(names: Seq<Seq<char>>) -> bool {
    forall|i: int|
        0 <= i < names.len() ==> (#[trigger] names[i]) != ""@ && names[i] != "."@ && names[i]
            != ".."@
}

/// Plain names are taken one after the other.
pub proof fn plain_names_are_taken(names: Seq<Seq<char>>, list: Seq<Seq<char>>, n: nat)
    requires
        are_plain(list),
        n <= list.len(),
    ensures
        with_names(names, list, n) == names + list.take(n as int),
    decreases n,
{
    if n == 0 {
        assert(names + list.take(0) =~= names);
    } else {
        plain_names_are_taken(names, list, (n - 1) as nat);
        assert(names + list.take(n as int) =~= (names + list.take(n - 1)).push(list[n - 1]));
    }
}

/// Whether a path is made of a prefix that is not verbatim and of names without prefixes.
pub open spec fn is_ordinary(style: PathStyle, path: PathParts) -> bool {
    &&& !(path.kind is Verbatim)
    &&& forall|i: int|
        0 <= i < path.names.len() ==> prefix_of(style, #[trigger] path.names[i]).0 is Nothing
}

/// The names of an ordinary path are taken one by one, and its prefix and root stay.
pub proof fn ordinary_steps(style: PathStyle, path: PathParts, n: nat)
    requires
        is_ordinary(style, path),
        n <= path.names.len(),
    ensures
        with_steps(style, path, n) == (PathParts {
            names: with_names(Seq::empty(), path.names, n),
            ..path
        }),
    decreases n,
{
    if n > 0 {
        ordinary_steps(style, path, (n - 1) as nat);
        assert(prefix_of(style, path.names[n - 1]).0 is Nothing);
    }
}

proof fn taken_names_are_plain(names: Seq<Seq<char>>, list: Seq<Seq<char>>, n: nat)
    requires
        are_plain(names),
        n <= list.len(),
    ensures
        are_plain(with_names(names, list, n)),
        forall|i: int|
            0 <= i < with_names(names, list, n).len() ==> names.contains(
                #[trigger] with_names(names, list, n)[i],
            ) || list.contains(with_names(names, list, n)[i]),
    decreases n,
{
    if n > 0 {
        taken_names_are_plain(names, list, (n - 1) as nat);
        let before = with_names(names, list, (n - 1) as nat);
        let after = with_names(names, list, n);
        assert forall|i: int| 0 <= i < after.len() implies (#[trigger] after[i]) != ""@ && after[i]
            != "."@ && after[i] != ".."@ && (names.contains(after[i]) || list.contains(
            after[i],
        )) by {
            if i < before.len() {
                assert(after[i] == before[i]);
            } else {
                assert(after[i] == list[n - 1]);
            }
        }
    } else {
        assert forall|i: int| 0 <= i < names.len() implies names.contains(#[trigger] names[i]) by {}
    }
}

/// An ordinary path, once settled, has plain names and the same prefix and root, and settling it again
/// changes nothing. All paths of Unix are ordinary.
pub proof fn settling_settles(style: PathStyle, path: PathParts)
    requires
        is_ordinary(style, path),
    ensures
        are_plain(settled(style, path).names),
        settled(style, path) == (PathParts { names: settled(style, path).names, ..path }),
        settled(style, settled(style, path)) == settled(style, path),
{
    let n = path.names.len();
    let once = settled(style, path);
    ordinary_steps(style, path, n);
    taken_names_are_plain(Seq::empty(), path.names, n);
    assert forall|i: int| 0 <= i < once.names.len() implies prefix_of(
        style,
        #[trigger] once.names[i],
    ).0 is Nothing by {
        assert(path.names.contains(once.names[i]));
        let k = choose|k: int| 0 <= k < path.names.len() && path.names[k] == once.names[i];
        assert(prefix_of(style, path.names[k]).0 is Nothing);
    }
    ordinary_steps(style, once, once.names.len());
    plain_names_are_taken(Seq::empty(), once.names, once.names.len());
    assert(Seq::<Seq<char>>::empty() + once.names.take(once.names.len() as int) =~= once.names);
}

} // verus!
