//! What a schema declares about the elements of a document.
use vstd::prelude::*;
use crate::error::Outcome;
use crate::json::dom;
use crate::json::dom::{parse_dom, Dom};
use crate::text;

verus! {

/// The declarations of a schema: which attributes and child elements each type has, which type it
/// extends, and whether it mixes text and elements. Declarations are kept in the order in which they
/// were read; a later one takes the place of an earlier one for the same key.
#[derive(Debug)]
pub struct XsdInfo {
    type_attrs: Vec<(String, String)>,
    type_children: Vec<(String, String, String)>,
    type_bases: Vec<(String, String)>,
    elem_type_map: Vec<(String, String)>,
    type_mixed: Vec<String>,
}

/// The type of a child element: the type that declares it, the name of the element and its type.
pub type ChildType = (Seq<char>, Seq<char>, Seq<char>);

/// What the declarations of a schema say.
pub struct XsdView {
    /// A type and the name of one of its attributes.
    pub attrs: Seq<dom::Pair>,
    pub children: Seq<ChildType>,
    /// A type and the type that it extends.
    pub bases: Seq<dom::Pair>,
    /// A global element and its type.
    pub elems: Seq<dom::Pair>,
    /// The types that mix text and elements.
    pub mixed: Seq<Seq<char>>,
}

/// What a list of child declarations holds.
pub open spec fn child_views(list: Seq<(String, String, String)>) -> Seq<ChildType> {
    list.map_values(|c: (String, String, String)| (c.0@, c.1@, c.2@))
}

/// What a list of names holds.
pub open spec fn name_views(list: Seq<String>) -> Seq<Seq<char>> {
    list.map_values(|s: String| s@)
}

impl View for XsdInfo {
    type V = XsdView;

    closed spec fn view(&self) -> XsdView {
        XsdView {
            attrs: dom::pair_views(self.type_attrs@),
            children: child_views(self.type_children@),
            bases: dom::pair_views(self.type_bases@),
            elems: dom::pair_views(self.elem_type_map@),
            mixed: name_views(self.type_mixed@),
        }
    }
}

/// The value of the last pair with this key.
pub open spec fn last_value(pairs: Seq<dom::Pair>, key: Seq<char>) -> Option<Seq<char>>
    decreases pairs.len(),
{
    if pairs.len() == 0 {
        None
    } else if pairs.last().0 == key {
        Some(pairs.last().1)
    } else {
        last_value(pairs.drop_last(), key)
    }
}

/// The type that a type itself declares for a child element.
pub open spec fn declared_child(
    children: Seq<ChildType>,
    owner: Seq<char>,
    tag: Seq<char>,
) -> Option<Seq<char>>
    decreases children.len(),
{
    if children.len() == 0 {
        None
    } else if children.last().0 == owner && children.last().1 == tag {
        Some(children.last().2)
    } else {
        declared_child(children.drop_last(), owner, tag)
    }
}

/// The attributes that a type itself declares.
pub open spec fn declared_attrs(attrs: Seq<dom::Pair>, owner: Seq<char>) -> Seq<Seq<char>>
    decreases attrs.len(),
{
    if attrs.len() == 0 {
        Seq::empty()
    } else if attrs.last().0 == owner {
        declared_attrs(attrs.drop_last(), owner).push(attrs.last().1)
    } else {
        declared_attrs(attrs.drop_last(), owner)
    }
}

/// Whether a type itself declares a child element.
pub open spec fn declares_children(children: Seq<ChildType>, owner: Seq<char>) -> bool {
    exists|i: int| 0 <= i < children.len() && (#[trigger] children[i]).0 == owner
}

/// The type of a child element within a type, which may have it from one of the `steps` next types
/// that it extends.
pub open spec fn child_type_within(
    info: XsdView,
    parent: Seq<char>,
    tag: Seq<char>,
    steps: nat,
) -> Option<Seq<char>>
    decreases steps,
{
    match declared_child(info.children, parent, tag) {
        Some(t) => Some(t),
        None => match last_value(info.bases, parent) {
            Some(base) => if steps > 0 {
                child_type_within(info, base, tag, (steps - 1) as nat)
            } else {
                None
            },
            None => None,
        },
    }
}

/// The attributes of a type: its own, then those of the `steps` next types that it extends.
pub open spec fn attrs_within(info: XsdView, owner: Seq<char>, steps: nat) -> Seq<Seq<char>>
    decreases steps,
{
    let own = declared_attrs(info.attrs, owner);
    match last_value(info.bases, owner) {
        Some(base) => if steps > 0 {
            own + attrs_within(info, base, (steps - 1) as nat)
        } else {
            own
        },
        None => own,
    }
}

impl XsdView {
    /// The type of a child element within a type. The chain of extended types has no more members
    /// than there are extensions.
    pub open spec fn child_type(self, parent: Seq<char>, tag: Seq<char>) -> Option<Seq<char>> {
        child_type_within(self, parent, tag, self.bases.len())
    }

    /// The attributes of a type, with those that it has from the types it extends.
    pub open spec fn attrs_for_type(self, owner: Seq<char>) -> Seq<Seq<char>> {
        attrs_within(self, owner, self.bases.len())
    }

    /// Whether a type has attributes and neither child elements nor text among them.
    pub open spec fn is_attr_only(self, owner: Seq<char>) -> bool {
        &&& self.attrs_for_type(owner).len() > 0
        &&& !declares_children(self.children, owner)
        &&& !self.mixed.contains(owner)
    }
}

/// The value of the last pair with this key.
fn find_last<'a>(pairs: &'a Vec<(String, String)>, key: &str) -> (r: Option<&'a str>)
    ensures
        match last_value(dom::pair_views(pairs@), key@) {
            Some(value) => r matches Some(s) && s@ == value,
            None => r is None,
        },
{
    let ghost all = dom::pair_views(pairs@);
    let mut i: usize = pairs.len();
    assert(all.take(all.len() as int) =~= all);
    while i > 0
        invariant
            i <= pairs@.len(),
            all == dom::pair_views(pairs@),
            last_value(all, key@) == last_value(all.take(i as int), key@),
        decreases i,
    {
        assert(all.take(i as int).last() == all[i - 1]);
        assert(all.take(i as int).drop_last() =~= all.take(i - 1));
        i -= 1;
        if text::same(pairs[i].0.as_str(), key) {
            return Some(pairs[i].1.as_str());
        }
    }
    None
}

/// The type that a type itself declares for a child element.
fn find_child<'a>(list: &'a Vec<(String, String, String)>, owner: &str, tag: &str) -> (r: Option<
    &'a str,
>)
    ensures
        match declared_child(child_views(list@), owner@, tag@) {
            Some(t) => r matches Some(s) && s@ == t,
            None => r is None,
        },
{
    let ghost all = child_views(list@);
    let mut i: usize = list.len();
    assert(all.take(all.len() as int) =~= all);
    while i > 0
        invariant
            i <= list@.len(),
            all == child_views(list@),
            declared_child(all, owner@, tag@) == declared_child(all.take(i as int), owner@, tag@),
        decreases i,
    {
        assert(all.take(i as int).last() == all[i - 1]);
        assert(all.take(i as int).drop_last() =~= all.take(i - 1));
        i -= 1;
        if text::same(list[i].0.as_str(), owner) && text::same(list[i].1.as_str(), tag) {
            return Some(list[i].2.as_str());
        }
    }
    None
}

impl XsdInfo {
    /// Declarations of nothing.
    pub fn new() -> (r: Self)
        ensures
            r@ == nothing_declared(),
    {
        let r = XsdInfo {
            type_attrs: Vec::new(),
            type_children: Vec::new(),
            type_bases: Vec::new(),
            elem_type_map: Vec::new(),
            type_mixed: Vec::new(),
        };
        proof {
            assert(r@.attrs =~= Seq::empty());
            assert(r@.children =~= Seq::empty());
            assert(r@.bases =~= Seq::empty());
            assert(r@.elems =~= Seq::empty());
            assert(r@.mixed =~= Seq::empty());
        }
        r
    }

    /// The type of a child element within a type or the types that it extends. An empty text is the
    /// type of an element that declares none.
    pub fn child_type(&self, parent_type: &str, child_tag: &str) -> (r: Option<String>)
        ensures
            match self@.child_type(parent_type@, child_tag@) {
                Some(t) => r matches Some(s) && s@ == t,
                None => r is None,
            },
    {
        let mut steps: usize = self.type_bases.len();
        let mut at: &str = parent_type;
        loop
            invariant
                steps <= self.type_bases@.len(),
                self@.child_type(parent_type@, child_tag@) == child_type_within(
                    self@,
                    at@,
                    child_tag@,
                    steps as nat,
                ),
            decreases steps,
        {
            if let Some(t) = find_child(&self.type_children, at, child_tag) {
                return Some(t.to_owned());
            }
            match find_last(&self.type_bases, at) {
                Some(base) => {
                    if steps == 0 {
                        return None;
                    }
                    at = base;
                    steps -= 1;
                },
                None => {
                    return None;
                },
            }
        }
    }

    /// The attributes of a type, its own before those of the types that it extends.
    pub fn attrs_for_type(&self, owner: &str) -> (r: Vec<String>)
        ensures
            name_views(r@) == self@.attrs_for_type(owner@),
    {
        let mut steps: usize = self.type_bases.len();
        let mut at: &str = owner;
        let mut out: Vec<String> = Vec::new();
        assert(name_views(out@) + attrs_within(self@, at@, steps as nat) =~= attrs_within(
            self@,
            at@,
            steps as nat,
        ));
        loop
            invariant
                steps <= self.type_bases@.len(),
                self@.attrs_for_type(owner@) == name_views(out@) + attrs_within(
                    self@,
                    at@,
                    steps as nat,
                ),
            decreases steps,
        {
            let ghost own = declared_attrs(self@.attrs, at@);
            let ghost before = name_views(out@);
            let ghost all = self@.attrs;
            let mut i: usize = 0;
            assert(all.take(0) =~= Seq::empty());
            assert(name_views(out@) =~= before + declared_attrs(all.take(0), at@));
            while i < self.type_attrs.len()
                invariant
                    i <= self.type_attrs@.len(),
                    all == dom::pair_views(self.type_attrs@),
                    name_views(out@) == before + declared_attrs(all.take(i as int), at@),
                decreases self.type_attrs@.len() - i,
            {
                assert(all.take(i + 1).last() == all[i as int]);
                assert(all.take(i + 1).drop_last() =~= all.take(i as int));
                if text::same(self.type_attrs[i].0.as_str(), at) {
                    let ghost had = out@;
                    out.push(self.type_attrs[i].1.clone());
                    assert(name_views(out@) =~= name_views(had).push(all[i as int].1));
                }
                i += 1;
                assert(name_views(out@) =~= before + declared_attrs(all.take(i as int), at@));
            }
            assert(all.take(all.len() as int) =~= all);
            match find_last(&self.type_bases, at) {
                Some(base) => {
                    if steps == 0 {
                        assert(name_views(out@) =~= self@.attrs_for_type(owner@));
                        return out;
                    }
                    proof {
                        assert(attrs_within(self@, at@, steps as nat) == own + attrs_within(
                            self@,
                            base@,
                            (steps - 1) as nat,
                        ));
                    }
                    at = base;
                    steps -= 1;
                    assert(self@.attrs_for_type(owner@) =~= name_views(out@) + attrs_within(
                        self@,
                        at@,
                        steps as nat,
                    ));
                },
                None => {
                    assert(name_views(out@) =~= self@.attrs_for_type(owner@));
                    return out;
                },
            }
        }
    }

    /// Whether a type has attributes and neither child elements nor text among them.
    pub fn is_attr_only(&self, owner: &str) -> (r: bool)
        ensures
            r == self@.is_attr_only(owner@),
    {
        let attrs = self.attrs_for_type(owner);
        assert(name_views(attrs@).len() == attrs@.len());
        if attrs.len() == 0 {
            return false;
        }
        let ghost children = child_views(self.type_children@);
        let mut i: usize = 0;
        while i < self.type_children.len()
            invariant
                i <= self.type_children@.len(),
                children == child_views(self.type_children@),
                children == self@.children,
                forall|k: int| 0 <= k < i ==> (#[trigger] children[k]).0 != owner@,
            decreases self.type_children@.len() - i,
        {
            assert(children[i as int].0 == self.type_children@[i as int].0@);
            if text::same(self.type_children[i].0.as_str(), owner) {
                assert(declares_children(children, owner@));
                return false;
            }
            i += 1;
        }
        let ghost mixed = name_views(self.type_mixed@);
        let mut m: usize = 0;
        while m < self.type_mixed.len()
            invariant
                m <= self.type_mixed@.len(),
                mixed == name_views(self.type_mixed@),
                mixed == self@.mixed,
                forall|k: int| 0 <= k < m ==> mixed[k] != owner@,
            decreases self.type_mixed@.len() - m,
        {
            assert(mixed[m as int] == self.type_mixed@[m as int]@);
            if text::same(self.type_mixed[m].as_str(), owner) {
                return false;
            }
            m += 1;
        }
        true
    }

    /// The type of a global element.
    pub fn global_type(&self, tag: &str) -> (r: Option<String>)
        ensures
            match last_value(self@.elems, tag@) {
                Some(t) => r matches Some(s) && s@ == t,
                None => r is None,
            },
    {
        match find_last(&self.elem_type_map, tag) {
            Some(t) => Some(t.to_owned()),
            None => None,
        }
    }
}

/// Declarations of nothing.
pub open spec fn nothing_declared() -> XsdView {
    XsdView {
        attrs: Seq::empty(),
        children: Seq::empty(),
        bases: Seq::empty(),
        elems: Seq::empty(),
        mixed: Seq::empty(),
    }
}

// Reading a schema.

/// The place of the first element with this name, where there is one.
pub open spec fn first_named(list: Seq<dom::DomView>, name: Seq<char>) -> Option<int> {
    if exists|at: int| dom::is_first_named(list, name, at) {
        Some(choose|at: int| dom::is_first_named(list, name, at))
    } else {
        None
    }
}

/// The name of the type of an element that declares its type in place.
pub open spec fn inline_type(element: Seq<char>) -> Seq<char> {
    "__"@ + element + "__"@
}

/// What the declarations say once the type that an element `ct` describes has been read.
pub open spec fn type_collected(ct: dom::DomView, owner: Seq<char>, info: XsdView) -> XsdView
    decreases ct, 1nat, 0nat,
{
    let noted = if dom::value_of(ct.attrs, "mixed"@) == Some("true"@) {
        XsdView { mixed: info.mixed.push(owner), ..info }
    } else {
        info
    };
    content_collected(ct.children, ct.children.len(), owner, noted)
}

/// What the declarations say once the first `n` members of a content model have been read.
pub open spec fn content_collected(
    list: Seq<dom::DomView>,
    n: nat,
    owner: Seq<char>,
    info: XsdView,
) -> XsdView
    decreases list, 0nat, n,
{
    if n == 0 || n > list.len() {
        info
    } else {
        member_collected(
            list[n - 1],
            owner,
            content_collected(list, (n - 1) as nat, owner, info),
        )
    }
}

/// What the declarations say once one member of a content model has been read: an attribute or an
/// element, a group of members, or an extension of another type.
pub open spec fn member_collected(member: dom::DomView, owner: Seq<char>, info: XsdView) -> XsdView
    decreases member, 2nat, 0nat,
{
    if member.name == "attribute"@ {
        match dom::value_of(member.attrs, "name"@) {
            Some(name) => XsdView { attrs: info.attrs.push((owner, name)), ..info },
            None => info,
        }
    } else if member.name == "element"@ {
        match dom::value_of(member.attrs, "name"@) {
            None => info,
            Some(name) => {
                let stated = match dom::value_of(member.attrs, "type"@) {
                    Some(t) => t,
                    None => ""@,
                };
                if stated != ""@ {
                    XsdView { children: info.children.push((owner, name, stated)), ..info }
                } else {
                    match first_named(member.children, "complexType"@) {
                        Some(at) => if 0 <= at < member.children.len() {
                            let read = type_collected(
                                member.children[at],
                                inline_type(name),
                                XsdView {
                                    children: info.children.push((owner, name, inline_type(name))),
                                    ..info
                                },
                            );
                            XsdView { elems: read.elems.push((name, inline_type(name))), ..read }
                        } else {
                            info
                        },
                        None => XsdView {
                            children: info.children.push((owner, name, ""@)),
                            ..info
                        },
                    }
                }
            },
        }
    } else if member.name == "sequence"@ || member.name == "all"@ || member.name == "choice"@ {
        content_collected(member.children, member.children.len(), owner, info)
    } else if member.name == "complexContent"@ || member.name == "simpleContent"@ {
        match first_named(member.children, "extension"@) {
            Some(at) => if 0 <= at < member.children.len() {
                let extension = member.children[at];
                let noted = match dom::value_of(extension.attrs, "base"@) {
                    Some(base) => if base != ""@ {
                        XsdView { bases: info.bases.push((owner, base)), ..info }
                    } else {
                        info
                    },
                    None => info,
                };
                content_collected(extension.children, extension.children.len(), owner, noted)
            } else {
                info
            },
            None => info,
        }
    } else {
        info
    }
}

/// An element that is found is the one that the declarations are read from.
proof fn found_is_first(list: Seq<dom::DomView>, name: Seq<char>, at: int)
    requires
        dom::is_first_named(list, name, at),
    ensures
        first_named(list, name) == Some(at),
{
    let other = first_named(list, name)->0;
    assert(dom::is_first_named(list, name, other));
    if at < other {
        assert(list[at].name != name);
    } else if other < at {
        assert(list[other].name != name);
    }
}

impl XsdInfo {
    fn note_attr(&mut self, owner: &str, name: &str)
        ensures
            final(self)@ == (XsdView { attrs: old(self)@.attrs.push((owner@, name@)), ..old(self)@
            }),
    {
        let ghost before = self.type_attrs@;
        self.type_attrs.push((owner.to_owned(), name.to_owned()));
        assert(self@.attrs =~= dom::pair_views(before).push((owner@, name@)));
    }

    fn note_child(&mut self, owner: &str, name: &str, stated: &str)
        ensures
            final(self)@ == (XsdView {
                children: old(self)@.children.push((owner@, name@, stated@)),
                ..old(self)@
            }),
    {
        let ghost before = self.type_children@;
        self.type_children.push((owner.to_owned(), name.to_owned(), stated.to_owned()));
        assert(self@.children =~= child_views(before).push((owner@, name@, stated@)));
    }

    fn note_base(&mut self, owner: &str, base: &str)
        ensures
            final(self)@ == (XsdView { bases: old(self)@.bases.push((owner@, base@)), ..old(self)@
            }),
    {
        let ghost before = self.type_bases@;
        self.type_bases.push((owner.to_owned(), base.to_owned()));
        assert(self@.bases =~= dom::pair_views(before).push((owner@, base@)));
    }

    fn note_element(&mut self, name: &str, stated: &str)
        ensures
            final(self)@ == (XsdView { elems: old(self)@.elems.push((name@, stated@)), ..old(self)@
            }),
    {
        let ghost before = self.elem_type_map@;
        self.elem_type_map.push((name.to_owned(), stated.to_owned()));
        assert(self@.elems =~= dom::pair_views(before).push((name@, stated@)));
    }

    fn note_mixed(&mut self, owner: &str)
        ensures
            final(self)@ == (XsdView { mixed: old(self)@.mixed.push(owner@), ..old(self)@ }),
    {
        let ghost before = self.type_mixed@;
        self.type_mixed.push(owner.to_owned());
        assert(self@.mixed =~= name_views(before).push(owner@));
    }
}

fn inline_name(element: &str) -> (r: String)
    ensures
        r@ == inline_type(element@),
{
    let mut out: String = "__".to_owned();
    out.append(element);
    out.append("__");
    out
}

/// Reads the type that an element describes.
fn collect_type_info(ct: &Dom, owner: &str, info: &mut XsdInfo)
    ensures
        final(info)@ == type_collected(ct@, owner@, old(info)@),
    decreases ct, 1nat,
{
    let mixed = match ct.get("mixed") {
        Some(value) => text::same(value, "true"),
        None => false,
    };
    if mixed {
        info.note_mixed(owner);
    }
    walk_attrs_children(ct, owner, info);
}

/// Reads the members of a content model.
fn walk_attrs_children(node: &Dom, owner: &str, info: &mut XsdInfo)
    ensures
        final(info)@ == content_collected(
            node@.children,
            node@.children.len(),
            owner@,
            old(info)@,
        ),
    decreases node, 0nat,
{
    let ghost list = node@.children;
    let ghost start = info@;
    proof {
        dom::dom_view(*node);
    }
    let mut i: usize = 0;
    while i < node.children.len()
        invariant
            i <= node.children@.len(),
            list == dom::dom_views(node.children@),
            info@ == content_collected(list, i as nat, owner@, start),
        decreases node.children@.len() - i,
    {
        assert(decreases_to!(node => node.children@[i as int]));
        assert(list[i as int] == node.children@[i as int]@);
        walk_member(&node.children[i], owner, info);
        i += 1;
    }
}

/// Reads one member of a content model.
fn walk_member(member: &Dom, owner: &str, info: &mut XsdInfo)
    ensures
        final(info)@ == member_collected(member@, owner@, old(info)@),
    decreases member, 2nat,
{
    proof {
        dom::dom_view(*member);
    }
    let name = member.name.as_str();
    if text::same(name, "attribute") {
        if let Some(attr) = member.get("name") {
            info.note_attr(owner, attr);
        }
    } else if text::same(name, "element") {
        if let Some(element) = member.get("name") {
            let stated = match member.get("type") {
                Some(t) => t,
                None => "",
            };
            if !text::same(stated, "") {
                info.note_child(owner, element, stated);
            } else {
                match member.find("complexType") {
                    Some(inline) => {
                        proof {
                            let at = choose|at: int| #[trigger]
                                dom::is_first_named(member@.children, "complexType"@, at)
                                    && inline@ == member@.children[at];
                            found_is_first(member@.children, "complexType"@, at);
                        }
                        let synth = inline_name(element);
                        info.note_child(owner, element, synth.as_str());
                        collect_type_info(inline, synth.as_str(), info);
                        info.note_element(element, synth.as_str());
                    },
                    None => {
                        info.note_child(owner, element, "");
                    },
                }
            }
        }
    } else if text::same(name, "sequence") || text::same(name, "all") || text::same(name, "choice") {
        walk_attrs_children(member, owner, info);
    } else if text::same(name, "complexContent") || text::same(name, "simpleContent") {
        match member.find("extension") {
            Some(extension) => {
                proof {
                    let at = choose|at: int| #[trigger]
                        dom::is_first_named(member@.children, "extension"@, at) && extension@
                            == member@.children[at];
                    found_is_first(member@.children, "extension"@, at);
                }
                if let Some(base) = extension.get("base") {
                    if !text::same(base, "") {
                        info.note_base(owner, base);
                    }
                }
                walk_attrs_children(extension, owner, info);
            },
            None => {},
        }
    }
}

/// What the declarations say once the named types among the first `n` elements of a schema have been
/// read.
pub open spec fn types_collected(list: Seq<dom::DomView>, n: nat, info: XsdView) -> XsdView
    decreases n,
{
    if n == 0 || n > list.len() {
        info
    } else {
        let before = types_collected(list, (n - 1) as nat, info);
        let el = list[n - 1];
        match dom::value_of(el.attrs, "name"@) {
            Some(name) => if el.name == "complexType"@ {
                type_collected(el, name, before)
            } else {
                before
            },
            None => before,
        }
    }
}

/// What the declarations say once a global element has been read.
pub open spec fn global_collected(el: dom::DomView, info: XsdView) -> XsdView {
    match dom::value_of(el.attrs, "name"@) {
        None => info,
        Some(name) => {
            let stated = match dom::value_of(el.attrs, "type"@) {
                Some(t) => XsdView { elems: info.elems.push((name, t)), ..info },
                None => info,
            };
            match first_named(el.children, "complexType"@) {
                Some(at) => type_collected(
                    el.children[at],
                    inline_type(name),
                    XsdView { elems: stated.elems.push((name, inline_type(name))), ..stated },
                ),
                None => stated,
            }
        },
    }
}

/// What the declarations say once the global elements among the first `n` elements of a schema have
/// been read.
pub open spec fn globals_collected(list: Seq<dom::DomView>, n: nat, info: XsdView) -> XsdView
    decreases n,
{
    if n == 0 || n > list.len() {
        info
    } else {
        let before = globals_collected(list, (n - 1) as nat, info);
        if list[n - 1].name == "element"@ {
            global_collected(list[n - 1], before)
        } else {
            before
        }
    }
}

/// The children of types once `owner` has those that the first `n` declarations give to `base` and
/// that it does not declare itself.
pub open spec fn owner_merged(
    children: Seq<ChildType>,
    owner: Seq<char>,
    base: Seq<char>,
    n: nat,
) -> Seq<ChildType>
    decreases n,
{
    if n == 0 || n > children.len() {
        children
    } else {
        let before = owner_merged(children, owner, base, (n - 1) as nat);
        let tag = children[n - 1].1;
        match declared_child(before, base, tag) {
            Some(t) => if children[n - 1].0 == base && declared_child(before, owner, tag) is None {
                before.push((owner, tag, t))
            } else {
                before
            },
            None => before,
        }
    }
}

/// The children of types once the types of the first `n` extensions have those of the type that they
/// extend.
pub open spec fn pass_merged(children: Seq<ChildType>, bases: Seq<dom::Pair>, n: nat) -> Seq<
    ChildType,
>
    decreases n,
{
    if n == 0 || n > bases.len() {
        children
    } else {
        let before = pass_merged(children, bases, (n - 1) as nat);
        match last_value(bases, bases[n - 1].0) {
            Some(base) => owner_merged(before, bases[n - 1].0, base, before.len()),
            None => before,
        }
    }
}

/// The children of types after at most `passes` rounds over all extensions, ending with the first
/// round that adds nothing.
pub open spec fn merged(children: Seq<ChildType>, bases: Seq<dom::Pair>, passes: nat) -> Seq<
    ChildType,
>
    decreases passes,
{
    let next = pass_merged(children, bases, bases.len());
    if passes == 0 || next.len() == children.len() {
        children
    } else {
        merged(next, bases, (passes - 1) as nat)
    }
}

/// How many rounds of merging there are at most.
pub const MERGE_PASSES: u64 = 10;

/// What the declarations of a schema say: its named types, its global elements, and the children that
/// types have from those that they extend.
pub open spec fn schema_info(root: dom::DomView) -> XsdView {
    let types = types_collected(root.children, root.children.len(), nothing_declared());
    let all = globals_collected(root.children, root.children.len(), types);
    XsdView { children: merged(all.children, all.bases, MERGE_PASSES as nat), ..all }
}

proof fn owner_merge_extends(
    children: Seq<ChildType>,
    owner: Seq<char>,
    base: Seq<char>,
    n: nat,
)
    ensures
        owner_merged(children, owner, base, n).len() >= children.len(),
        owner_merged(children, owner, base, n).take(children.len() as int) =~= children,
        owner_merged(children, owner, base, n).len() == children.len() ==> owner_merged(
            children,
            owner,
            base,
            n,
        ) =~= children,
    decreases n,
{
    if n == 0 || n > children.len() {
    } else {
        owner_merge_extends(children, owner, base, (n - 1) as nat);
        let before = owner_merged(children, owner, base, (n - 1) as nat);
        let after = owner_merged(children, owner, base, n);
        assert(after.take(children.len() as int) =~= before.take(children.len() as int));
    }
}

proof fn pass_extends(children: Seq<ChildType>, bases: Seq<dom::Pair>, n: nat)
    ensures
        pass_merged(children, bases, n).len() >= children.len(),
        pass_merged(children, bases, n).len() == children.len() ==> pass_merged(children, bases, n)
            == children,
    decreases n,
{
    if n == 0 || n > bases.len() {
    } else {
        pass_extends(children, bases, (n - 1) as nat);
        let before = pass_merged(children, bases, (n - 1) as nat);
        if let Some(base) = last_value(bases, bases[n - 1].0) {
            owner_merge_extends(before, bases[n - 1].0, base, before.len());
        }
    }
}

impl XsdInfo {
    /// Gives `owner` the children of `base` that it does not declare itself.
    fn merge_owner(&mut self, owner: &str, base: &str)
        ensures
            final(self)@ == (XsdView {
                children: owner_merged(
                    old(self)@.children,
                    owner@,
                    base@,
                    old(self)@.children.len(),
                ),
                ..old(self)@
            }),
    {
        let ghost start = self@;
        let count: usize = self.type_children.len();
        let mut k: usize = 0;
        while k < count
            invariant
                k <= count == start.children.len(),
                self@ == (XsdView {
                    children: owner_merged(start.children, owner@, base@, k as nat),
                    ..start
                }),
            decreases count - k,
        {
            proof {
                owner_merge_extends(start.children, owner@, base@, k as nat);
                assert(self@.children.take(count as int)[k as int] == start.children[k as int]);
                assert(self@.children[k as int] == start.children[k as int]);
            }
            let tag = self.type_children[k].1.clone();
            let of_base = text::same(self.type_children[k].0.as_str(), base);
            let stated = match find_child(&self.type_children, base, tag.as_str()) {
                Some(t) => Some(t.to_owned()),
                None => None,
            };
            let vacant = find_child(&self.type_children, owner, tag.as_str()).is_none();
            if let Some(t) = stated {
                if of_base && vacant {
                    self.note_child(owner, tag.as_str(), t.as_str());
                }
            }
            k += 1;
        }
    }

    /// Gives every type that extends another the children of that type, once.
    fn merge_pass(&mut self)
        ensures
            final(self)@ == (XsdView {
                children: pass_merged(
                    old(self)@.children,
                    old(self)@.bases,
                    old(self)@.bases.len(),
                ),
                ..old(self)@
            }),
    {
        let ghost start = self@;
        let mut i: usize = 0;
        while i < self.type_bases.len()
            invariant
                i <= start.bases.len(),
                self@ == (XsdView {
                    children: pass_merged(start.children, start.bases, i as nat),
                    ..start
                }),
                self@.bases == start.bases,
            decreases start.bases.len() - i,
        {
            assert(self@.bases[i as int].0 == self.type_bases@[i as int].0@);
            let owner = self.type_bases[i].0.clone();
            let base = match find_last(&self.type_bases, owner.as_str()) {
                Some(base) => Some(base.to_owned()),
                None => None,
            };
            if let Some(base) = base {
                self.merge_owner(owner.as_str(), base.as_str());
            }
            i += 1;
        }
    }

    /// Gives types the children of the types that they extend, until nothing changes.
    fn merge_children(&mut self)
        ensures
            final(self)@ == (XsdView {
                children: merged(
                    old(self)@.children,
                    old(self)@.bases,
                    MERGE_PASSES as nat,
                ),
                ..old(self)@
            }),
    {
        let ghost start = self@;
        let mut left: u64 = MERGE_PASSES;
        while left > 0
            invariant
                left <= MERGE_PASSES,
                start == old(self)@,
                self@ == (XsdView { children: self@.children, ..start }),
                merged(start.children, start.bases, MERGE_PASSES as nat) == merged(
                    self@.children,
                    start.bases,
                    left as nat,
                ),
            decreases left,
        {
            let ghost had = self@;
            let before: usize = self.type_children.len();
            assert(before == self@.children.len());
            self.merge_pass();
            assert(self.type_children@.len() == self@.children.len());
            if self.type_children.len() == before {
                proof {
                    pass_extends(had.children, had.bases, had.bases.len());
                }
                return;
            }
            left -= 1;
        }
    }

    /// Reads a global element.
    fn note_global(&mut self, el: &Dom)
        ensures
            final(self)@ == global_collected(el@, old(self)@),
    {
        let name = match el.get("name") {
            Some(name) => name,
            None => {
                return;
            },
        };
        if let Some(stated) = el.get("type") {
            self.note_element(name, stated);
        }
        match el.find("complexType") {
            Some(inline) => {
                proof {
                    let at = choose|at: int| #[trigger]
                        dom::is_first_named(el@.children, "complexType"@, at) && inline@
                            == el@.children[at];
                    found_is_first(el@.children, "complexType"@, at);
                }
                let synth = inline_name(name);
                self.note_element(name, synth.as_str());
                collect_type_info(inline, synth.as_str(), self);
            },
            None => {},
        }
    }
}

/// What the declarations of a schema say.
pub fn build_xsd_info(root: &Dom) -> (r: XsdInfo)
    ensures
        r@ == schema_info(root@),
{
    let mut info = XsdInfo::new();
    let ghost list = root@.children;
    let ghost start = info@;
    proof {
        dom::dom_view(*root);
    }
    let mut i: usize = 0;
    while i < root.children.len()
        invariant
            i <= root.children@.len(),
            list == dom::dom_views(root.children@),
            info@ == types_collected(list, i as nat, start),
        decreases root.children@.len() - i,
    {
        proof {
            dom::dom_view(root.children@[i as int]);
            assert(list[i as int] == root.children@[i as int]@);
        }
        let el = &root.children[i];
        if text::same(el.name.as_str(), "complexType") {
            if let Some(name) = el.get("name") {
                collect_type_info(el, name, &mut info);
            }
        }
        i += 1;
    }
    let ghost types = info@;
    let mut k: usize = 0;
    while k < root.children.len()
        invariant
            k <= root.children@.len(),
            list == dom::dom_views(root.children@),
            info@ == globals_collected(list, k as nat, types),
        decreases root.children@.len() - k,
    {
        proof {
            dom::dom_view(root.children@[k as int]);
            assert(list[k as int] == root.children@[k as int]@);
        }
        if text::same(root.children[k].name.as_str(), "element") {
            info.note_global(&root.children[k]);
        }
        k += 1;
    }
    info.merge_children();
    info
}

/// What the declarations of a schema text say.
pub fn schema_from_str(source: &str) -> (r: Outcome<XsdInfo>)
    ensures
        match dom::tree_of(source@) {
            Ok(tree) => r matches Ok(info) && info@ == schema_info(tree),
            Err(message) => r matches Err(e) && e.is_xml(message),
        },
{
    match parse_dom(source) {
        Ok(root) => Ok(build_xsd_info(&root)),
        Err(e) => Err(e),
    }
}

/// Whether merging `base` into `owner` has nothing to add below a place.
proof fn owner_is_settled(
    children: Seq<ChildType>,
    owner: Seq<char>,
    base: Seq<char>,
    n: nat,
    k: int,
)
    requires
        n <= children.len(),
        owner_merged(children, owner, base, n).len() == children.len(),
        0 <= k < n,
        children[k].0 == base,
        declared_child(children, base, children[k].1) is Some,
    ensures
        declared_child(children, owner, children[k].1) is Some,
    decreases n,
{
    owner_merge_extends(children, owner, base, (n - 1) as nat);
    let before = owner_merged(children, owner, base, (n - 1) as nat);
    assert(before.len() == children.len());
    assert(before =~= children);
    if k < n - 1 {
        owner_is_settled(children, owner, base, (n - 1) as nat, k);
    }
}

/// The declaration of a child that a type has.
proof fn declared_somewhere(children: Seq<ChildType>, owner: Seq<char>, tag: Seq<char>) -> (k: int)
    requires
        declared_child(children, owner, tag) is Some,
    ensures
        0 <= k < children.len(),
        children[k].0 == owner,
        children[k].1 == tag,
    decreases children.len(),
{
    let last = children.last();
    if last.0 == owner && last.1 == tag {
        children.len() - 1
    } else {
        declared_somewhere(children.drop_last(), owner, tag)
    }
}

proof fn pass_is_settled(children: Seq<ChildType>, bases: Seq<dom::Pair>, n: nat, i: int)
    requires
        0 <= i < n <= bases.len(),
        pass_merged(children, bases, n).len() == children.len(),
    ensures
        match last_value(bases, bases[i].0) {
            Some(base) => owner_merged(children, bases[i].0, base, children.len()).len()
                == children.len(),
            None => true,
        },
    decreases n,
{
    pass_extends(children, bases, (n - 1) as nat);
    let before = pass_merged(children, bases, (n - 1) as nat);
    if let Some(base) = last_value(bases, bases[n - 1].0) {
        owner_merge_extends(before, bases[n - 1].0, base, before.len());
    }
    if i < n - 1 {
        pass_is_settled(children, bases, (n - 1) as nat, i);
    }
}

/// Where a round over all extensions has nothing to add, every type that extends another has each child
/// that the other has.
pub proof fn settled_types_inherit(
    children: Seq<ChildType>,
    bases: Seq<dom::Pair>,
    owner: Seq<char>,
    base: Seq<char>,
    tag: Seq<char>,
)
    requires
        pass_merged(children, bases, bases.len()) == children,
        last_value(bases, owner) == Some(base),
        declared_child(children, base, tag) is Some,
    ensures
        declared_child(children, owner, tag) is Some,
{
    let i = named_somewhere(bases, owner);
    pass_is_settled(children, bases, bases.len(), i);
    let k = declared_somewhere(children, base, tag);
    owner_is_settled(children, owner, base, children.len(), k);
}

/// The place of a pair that has a key.
proof fn named_somewhere(pairs: Seq<dom::Pair>, key: Seq<char>) -> (i: int)
    requires
        last_value(pairs, key) is Some,
    ensures
        0 <= i < pairs.len(),
        pairs[i].0 == key,
    decreases pairs.len(),
{
    if pairs.last().0 == key {
        pairs.len() - 1
    } else {
        named_somewhere(pairs.drop_last(), key)
    }
}

/// What a type declares itself stays as it is, whatever it inherits.
pub proof fn inheritance_keeps_declarations(
    children: Seq<ChildType>,
    bases: Seq<dom::Pair>,
    passes: nat,
    owner: Seq<char>,
    tag: Seq<char>,
)
    requires
        declared_child(children, owner, tag) is Some,
    ensures
        declared_child(merged(children, bases, passes), owner, tag) == declared_child(
            children,
            owner,
            tag,
        ),
    decreases passes,
{
    if passes > 0 {
        let next = pass_merged(children, bases, bases.len());
        pass_keeps(children, bases, bases.len(), owner, tag);
        if next.len() != children.len() {
            inheritance_keeps_declarations(next, bases, (passes - 1) as nat, owner, tag);
        }
    }
}

proof fn pass_keeps(
    children: Seq<ChildType>,
    bases: Seq<dom::Pair>,
    n: nat,
    owner: Seq<char>,
    tag: Seq<char>,
)
    requires
        declared_child(children, owner, tag) is Some,
    ensures
        declared_child(pass_merged(children, bases, n), owner, tag) == declared_child(
            children,
            owner,
            tag,
        ),
    decreases n,
{
    if 0 < n <= bases.len() {
        pass_keeps(children, bases, (n - 1) as nat, owner, tag);
        let before = pass_merged(children, bases, (n - 1) as nat);
        if let Some(base) = last_value(bases, bases[n - 1].0) {
            owner_keeps(before, bases[n - 1].0, base, before.len(), owner, tag);
        }
    }
}

proof fn owner_keeps(
    children: Seq<ChildType>,
    heir: Seq<char>,
    base: Seq<char>,
    n: nat,
    owner: Seq<char>,
    tag: Seq<char>,
)
    requires
        declared_child(children, owner, tag) is Some,
    ensures
        declared_child(owner_merged(children, heir, base, n), owner, tag) == declared_child(
            children,
            owner,
            tag,
        ),
    decreases n,
{
    if 0 < n <= children.len() {
        owner_keeps(children, heir, base, (n - 1) as nat, owner, tag);
        let before = owner_merged(children, heir, base, (n - 1) as nat);
        let after = owner_merged(children, heir, base, n);
        if after.len() > before.len() {
            assert(after.drop_last() =~= before);
        }
    }
}

} // verus!
