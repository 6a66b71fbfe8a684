//! A plain tree of XML elements.
use vstd::prelude::*;
use crate::error::{Error, Outcome};
use crate::text;
use crate::xml;
use crate::xml::{XmlAttribute, XmlEvent};
use quick_xml::events::BytesStart;

verus! {

/// An XML element: its name without a namespace prefix, its attributes in source order with entities
/// resolved, its child elements in order, and the text before the first child. Comments, processing
/// instructions and literal sections leave no trace.
#[derive(Debug)]
pub struct Dom {
    pub name: String,
    pub attrs: Vec<(String, String)>,
    pub children: Vec<Dom>,
    pub text: String,
}

/// A key and its value.
pub type Pair = (Seq<char>, Seq<char>);

/// What an element holds.
pub struct DomView {
    pub name: Seq<char>,
    pub attrs: Seq<Pair>,
    pub children: Seq<DomView>,
    pub text: Seq<char>,
}

/// What a list of keys and values holds.
pub open spec fn pair_views(pairs: Seq<(String, String)>) -> Seq<Pair> {
    pairs.map_values(|p: (String, String)| (p.0@, p.1@))
}

impl View for Dom {
    type V = DomView;

    open spec fn view(&self) -> DomView
        decreases self,
    {
        DomView {
            name: self.name@,
            attrs: pair_views(self.attrs@),
            children: Seq::new(
                self.children@.len(),
                |i: int|
                    if 0 <= i < self.children@.len() {
                        self.children@[i].view()
                    } else {
                        arbitrary()
                    },
            ),
            text: self.text@,
        }
    }
}

/// What a list of elements holds.
pub open spec fn dom_views(list: Seq<Dom>) -> Seq<DomView> {
    list.map_values(|d: Dom| d@)
}

/// What an element holds, part by part.
pub proof fn dom_view(d: Dom)
    ensures
        d@ == (DomView {
            name: d.name@,
            attrs: pair_views(d.attrs@),
            children: dom_views(d.children@),
            text: d.text@,
        }),
{
    reveal_with_fuel(<Dom as View>::view, 2);
    assert(d@.children =~= dom_views(d.children@));
}

/// The value of the first pair with this key.
pub open spec fn value_of(pairs: Seq<Pair>, key: Seq<char>) -> Option<Seq<char>>
    decreases pairs.len(),
{
    if pairs.len() == 0 {
        None
    } else if pairs[0].0 == key {
        Some(pairs[0].1)
    } else {
        value_of(pairs.drop_first(), key)
    }
}

/// The place of the first element with this name.
pub open spec fn is_first_named(list: Seq<DomView>, name: Seq<char>, at: int) -> bool {
    0 <= at < list.len() && list[at].name == name && forall|k: int|
        0 <= k < at ==> (#[trigger] list[k]).name != name
}

impl Dom {
    /// The value of the first attribute with this name.
    pub fn get(&self, key: &str) -> (r: Option<&str>)
        ensures
            match value_of(self@.attrs, key@) {
                Some(value) => r matches Some(s) && s@ == value,
                None => r is None,
            },
    {
        let ghost all = self@.attrs;
        proof {
            dom_view(*self);
            assert(all.skip(0) =~= all);
        }
        let mut i: usize = 0;
        while i < self.attrs.len()
            invariant
                i <= self.attrs@.len(),
                all == pair_views(self.attrs@),
                value_of(all, key@) == value_of(all.skip(i as int), key@),
            decreases self.attrs@.len() - i,
        {
            assert(all.skip(i as int)[0] == all[i as int]);
            assert(all.skip(i as int).drop_first() =~= all.skip(i + 1));
            if text::same(self.attrs[i].0.as_str(), key) {
                return Some(self.attrs[i].1.as_str());
            }
            i += 1;
        }
        None
    }

    /// The first child element with this name.
    pub fn find(&self, local: &str) -> (r: Option<&Dom>)
        ensures
            match r {
                Some(d) => exists|at: int| #[trigger]
                    is_first_named(self@.children, local@, at) && d@ == self@.children[at],
                None => forall|k: int|
                    0 <= k < self@.children.len() ==> (#[trigger] self@.children[k]).name != local@,
            },
            r matches Some(d) ==> decreases_to!(self => d),
    {
        let ghost all = self@.children;
        proof {
            dom_view(*self);
        }
        let mut i: usize = 0;
        while i < self.children.len()
            invariant
                i <= self.children@.len(),
                all == dom_views(self.children@),
                all == self@.children,
                forall|k: int| 0 <= k < i ==> (#[trigger] all[k]).name != local@,
            decreases self.children@.len() - i,
        {
            proof {
                assert(all[i as int] == self.children@[i as int]@);
                dom_view(self.children@[i as int]);
            }
            if text::same(self.children[i].name.as_str(), local) {
                assert(is_first_named(all, local@, i as int));
                assert(decreases_to!(self => self.children@[i as int]));
                return Some(&self.children[i]);
            }
            i += 1;
        }
        None
    }
}

/// The attributes of an opening tag, or the words of the first that cannot be read.
pub open spec fn attributes_read(attributes: Seq<xml::AttributeView>) -> Result<
    Seq<Pair>,
    Seq<char>,
>
    decreases attributes.len(),
{
    if attributes.len() == 0 {
        Ok(Seq::empty())
    } else {
        match attributes_read(attributes.drop_last()) {
            Err(message) => Err(message),
            Ok(list) => match attributes.last() {
                xml::AttributeView::Failed(message) => Err(message),
                xml::AttributeView::Read { local, value: Err(message), .. } => Err(message),
                xml::AttributeView::Read { local, value: Ok(value), .. } => Ok(
                    list.push((local, value)),
                ),
            },
        }
    }
}

proof fn failure_stays(attributes: Seq<xml::AttributeView>, m: int)
    requires
        0 <= m <= attributes.len(),
        attributes_read(attributes.take(m)) is Err,
    ensures
        attributes_read(attributes) == attributes_read(attributes.take(m)),
    decreases attributes.len(),
{
    if m < attributes.len() {
        assert(attributes.drop_last().take(m) =~= attributes.take(m));
        failure_stays(attributes.drop_last(), m);
    } else {
        assert(attributes.take(m) =~= attributes);
    }
}

/// The element that an opening tag begins.
pub open spec fn element_begun(element: xml::ElementView) -> Result<DomView, Seq<char>> {
    match attributes_read(element.attributes) {
        Err(message) => Err(message),
        Ok(attrs) => Ok(
            DomView {
                name: element.local,
                attrs,
                children: Seq::empty(),
                text: Seq::empty(),
            },
        ),
    }
}

/// Where the reading of a tree stands: the open elements and the last one closed at the top.
pub struct DomState {
    pub stack: Seq<DomView>,
    pub root: Option<DomView>,
}

/// The innermost open element, or the document, with a finished element added.
pub open spec fn attached(state: DomState, d: DomView) -> DomState {
    if state.stack.len() == 0 {
        DomState { root: Some(d), ..state }
    } else {
        let top = state.stack.last();
        DomState {
            stack: state.stack.drop_last().push(
                DomView { children: top.children.push(d), ..top },
            ),
            ..state
        }
    }
}

/// What one step does to the state of the reading.
pub open spec fn after_step(state: DomState, event: xml::EventView) -> Result<DomState, Seq<char>> {
    match event {
        xml::EventView::Start(element) => match element_begun(element) {
            Err(message) => Err(message),
            Ok(d) => Ok(DomState { stack: state.stack.push(d), ..state }),
        },
        xml::EventView::Empty(element) => match element_begun(element) {
            Err(message) => Err(message),
            Ok(d) => Ok(attached(state, d)),
        },
        xml::EventView::End => if state.stack.len() == 0 {
            Err("unbalanced end tag"@)
        } else {
            Ok(
                attached(
                    DomState { stack: state.stack.drop_last(), ..state },
                    state.stack.last(),
                ),
            )
        },
        xml::EventView::Text(content) => if state.stack.len() == 0
            || state.stack.last().children.len() > 0 {
            Ok(state)
        } else {
            let top = state.stack.last();
            match content {
                Err(message) => Err(message),
                Ok(text) => Ok(
                    DomState {
                        stack: state.stack.drop_last().push(
                            DomView { text: top.text + text, ..top },
                        ),
                        ..state
                    },
                ),
            }
        },
        xml::EventView::Failed(message) => Err(message),
        _ => Ok(state),
    }
}

/// The tree that the remaining steps give from a state on, or the words of the first failure.
pub open spec fn tree_read(state: DomState, steps: Seq<xml::StepView>) -> Result<DomView, Seq<char>>
    decreases steps.len(),
{
    if steps.len() == 0 || steps[0].event is Eof {
        match state.root {
            Some(root) => Ok(root),
            None => Err("no root element"@),
        }
    } else {
        match after_step(state, steps[0].event) {
            Err(message) => Err(message),
            Ok(next) => tree_read(next, steps.drop_first()),
        }
    }
}

/// The state before the first step.
pub open spec fn initial() -> DomState {
    DomState { stack: Seq::empty(), root: None }
}

/// The tree that a document text holds.
pub open spec fn tree_of(source: Seq<char>) -> Result<DomView, Seq<char>> {
    tree_read(initial(), xml::steps_of(source))
}

/// The element that an opening tag begins.
fn start_dom(element: &BytesStart<'_>) -> (r: Outcome<Dom>)
    ensures
        match element_begun(xml::element_of(*element)) {
            Ok(d) => r matches Ok(dom) && dom@ == d,
            Err(message) => r matches Err(e) && e.is_xml(message),
        },
{
    let name = xml::tag_local_name(element);
    let attributes = xml::tag_attributes(element);
    let ghost all = xml::attribute_views(attributes@);
    let mut attrs: Vec<(String, String)> = Vec::new();
    let mut i: usize = 0;
    assert(all.take(0) =~= Seq::empty());
    assert(pair_views(attrs@) =~= Seq::empty());
    while i < attributes.len()
        invariant
            i <= attributes@.len(),
            all == xml::attribute_views(attributes@),
            all == xml::element_of(*element).attributes,
            attributes_read(all.take(i as int)) == Ok::<Seq<Pair>, Seq<char>>(pair_views(attrs@)),
        decreases attributes@.len() - i,
    {
        let ghost upto = all.take(i + 1);
        assert(upto.drop_last() =~= all.take(i as int));
        assert(upto.last() == attributes@[i as int]@);
        match &attributes[i] {
            XmlAttribute::Failed(message) => {
                proof {
                    failure_stays(all, i + 1);
                }
                return Err(Error::Xml(message.clone()));
            },
            XmlAttribute::Read { local, value, .. } => {
                match value {
                    Err(message) => {
                        proof {
                            failure_stays(all, i + 1);
                        }
                        return Err(Error::Xml(message.clone()));
                    },
                    Ok(value) => {
                        let ghost before = attrs@;
                        attrs.push((local.clone(), value.clone()));
                        assert(pair_views(attrs@) =~= pair_views(before).push((local@, value@)));
                    },
                }
            },
        }
        i += 1;
    }
    assert(all.take(all.len() as int) =~= all);
    let dom = Dom { name, attrs, children: Vec::new(), text: String::new() };
    proof {
        dom_view(dom);
        assert(dom_views(dom.children@) =~= Seq::empty());
    }
    Ok(dom)
}

/// Adds a finished element to the innermost open one, or makes it the root.
fn attach(stack: &mut Vec<Dom>, root: &mut Option<Dom>, d: Dom)
    ensures
        ({
            let old_state = DomState { stack: dom_views(old(stack)@), root: root_view(*old(root)) };
            let new_state = DomState {
                stack: dom_views(final(stack)@),
                root: root_view(*final(root)),
            };
            new_state == attached(old_state, d@)
        }),
{
    let ghost before = stack@;
    match stack.pop() {
        None => {
            *root = Some(d);
            assert(dom_views(stack@) =~= dom_views(before));
        },
        Some(mut parent) => {
            let ghost old_parent = parent;
            let ghost finished = d;
            parent.children.push(d);
            proof {
                dom_view(old_parent);
                dom_view(parent);
                assert(dom_views(parent.children@) =~= dom_views(old_parent.children@).push(
                    finished@,
                ));
                assert(dom_views(before).last() == old_parent@);
                assert(dom_views(stack@) =~= dom_views(before).drop_last());
            }
            let ghost rest = stack@;
            stack.push(parent);
            assert(dom_views(stack@) =~= dom_views(rest).push(parent@));
        },
    }
}

/// What an optional element holds.
pub open spec fn root_view(root: Option<Dom>) -> Option<DomView> {
    match root {
        Some(d) => Some(d@),
        None => None,
    }
}

/// Reads the tree of elements of a document text.
pub fn parse_dom(source: &str) -> (r: Outcome<Dom>)
    ensures
        match tree_of(source@) {
            Ok(tree) => r matches Ok(d) && d@ == tree,
            Err(message) => r matches Err(e) && e.is_xml(message),
        },
        xml::is_read_as_spelled(source@),
{
    let mut reader = xml::open_reader(source);
    let mut stack: Vec<Dom> = Vec::new();
    let mut root: Option<Dom> = None;
    let ghost all = xml::steps_of(source@);
    assert(dom_views(stack@) =~= Seq::empty());
    loop
        invariant
            xml::runs_to_end(xml::steps_left(reader)),
            xml::is_read_as_spelled(source@),
            all == xml::steps_of(source@),
            tree_read(initial(), all) == tree_read(
                DomState { stack: dom_views(stack@), root: root_view(root) },
                xml::steps_left(reader),
            ),
        decreases xml::steps_left(reader).len(),
    {
        let ghost steps = xml::steps_left(reader);
        let ghost state = DomState { stack: dom_views(stack@), root: root_view(root) };
        let event = match xml::read_event(&mut reader) {
            Ok(event) => event,
            Err(message) => {
                return Err(Error::Xml(message));
            },
        };
        match event {
            XmlEvent::Start(element) => {
                let d = start_dom(&element)?;
                let ghost before = stack@;
                stack.push(d);
                assert(dom_views(stack@) =~= dom_views(before).push(d@));
            },
            XmlEvent::Empty(element) => {
                let d = start_dom(&element)?;
                attach(&mut stack, &mut root, d);
            },
            XmlEvent::End => {
                let ghost before = stack@;
                match stack.pop() {
                    None => {
                        return Err(Error::Xml("unbalanced end tag".to_owned()));
                    },
                    Some(d) => {
                        assert(dom_views(stack@) =~= dom_views(before).drop_last());
                        assert(dom_views(before).last() == d@);
                        attach(&mut stack, &mut root, d);
                    },
                }
            },
            XmlEvent::Text(content) => {
                let ghost before = stack@;
                match stack.pop() {
                    None => {},
                    Some(mut top) => {
                        let ghost old_top = top;
                        proof {
                            dom_view(top);
                            assert(dom_views(before).last() == top@);
                            assert(dom_views(stack@) =~= dom_views(before).drop_last());
                        }
                        if top.children.len() == 0 {
                            match xml::unescape(&content) {
                                Err(message) => {
                                    return Err(Error::Xml(message));
                                },
                                Ok(words) => {
                                    top.text.append(words.as_str());
                                },
                            }
                        }
                        proof {
                            dom_view(top);
                        }
                        let ghost rest = stack@;
                        stack.push(top);
                        assert(dom_views(stack@) =~= dom_views(rest).push(top@));
                        assert(old_top.children@.len() > 0 ==> dom_views(stack@) =~= dom_views(
                            before,
                        ));
                    },
                }
            },
            XmlEvent::Eof => {
                return match root {
                    Some(d) => Ok(d),
                    None => Err(Error::Xml("no root element".to_owned())),
                };
            },
            XmlEvent::CData(_) => {},
            XmlEvent::Other => {},
        }
        proof {
            let left = steps.drop_first();
            let next = DomState { stack: dom_views(stack@), root: root_view(root) };
            assert(!xml::is_last(steps[0]));
            assert(after_step(state, steps[0].event) == Ok::<DomState, Seq<char>>(next));
            xml::rest_runs_to_end(steps);
        }
    }
}

} // verus!
