//! Where the elements of a stream-profile document may stand, and how the check of their shape runs.
use vstd::prelude::*;
use crate::faults;
use crate::text;
use crate::xml;
use super::stream_grammar;
use super::stream_grammar::{CheckState, FrameView};

verus! {

// Which elements stand where.

/// Whether an element is a reference to something that a document defines.
pub open spec fn is_reference(name: Seq<char>) -> bool {
    name == "group-ref"@ || name == "network-ref"@ || name == "function-ref"@ || name
        == "participant-ref"@ || name == "traffic-class-ref"@ || name == "schedule-ref"@
}

/// Whether an element is the end of something: of a stream or of a step on its way.
pub open spec fn is_end(name: Seq<char>) -> bool {
    name == "from"@ || name == "to"@ || name == "talker"@ || name == "listener"@
}

/// Whether a child may stand in a parent.
pub open spec fn may_stand_in(child: Seq<char>, parent: Seq<char>) -> bool {
    ||| child == "description"@ && (parent == "stream-profile"@ || parent == "stream-group"@ || parent
        == "stream"@)
    ||| (child == "dependency"@ || child == "stream-group"@ || child == "stream"@) && parent
        == "stream-profile"@
    ||| (child == "group-ref"@ || child == "path"@ || child == "talker"@ || child == "listener"@
        || child == "traffic-class-ref"@ || child == "schedule-ref"@ || child == "frer"@) && parent
        == "stream"@
    ||| (child == "network-ref"@ || child == "forwarding"@) && parent == "path"@
    ||| (child == "from"@ || child == "function-ref"@ || child == "to"@) && parent == "forwarding"@
    ||| child == "participant-ref"@ && is_end(parent)
    ||| child == "instance"@ && is_reference(parent)
    ||| child == "segment"@ && parent == "instance"@
}

/// Whether an element may stand more than once in its parent.
pub open spec fn is_repeatable(child: Seq<char>) -> bool {
    child == "dependency"@ || child == "stream-group"@ || child == "stream"@ || child == "listener"@
        || child == "network-ref"@ || child == "forwarding"@ || child == "segment"@
}

/// Whether no parent in which an element may stand goes without it.
pub open spec fn is_required(child: Seq<char>) -> bool {
    child == "path"@ || child == "talker"@ || child == "listener"@ || child == "network-ref"@ || child
        == "from"@ || child == "function-ref"@ || child == "to"@ || child == "participant-ref"@
        || child == "segment"@
}

/// How many kinds of elements stand before an element in its parent.
pub open spec fn place(child: Seq<char>) -> int {
    if child == "dependency"@ || child == "group-ref"@ || child == "forwarding"@ || child
        == "function-ref"@ {
        1
    } else if child == "stream-group"@ || child == "path"@ || child == "to"@ {
        2
    } else if child == "stream"@ || child == "talker"@ {
        3
    } else if child == "listener"@ {
        4
    } else if child == "traffic-class-ref"@ {
        5
    } else if child == "schedule-ref"@ {
        6
    } else if child == "frer"@ {
        7
    } else {
        0
    }
}

/// Whether an element may carry an attribute.
pub open spec fn may_carry(element: Seq<char>, attribute: Seq<char>) -> bool {
    ||| attribute == "name"@ && (element == "stream-profile"@ || element == "stream-group"@ || element
        == "stream"@ || element == "segment"@)
    ||| attribute == "version"@ && element == "stream-profile"@
    ||| (attribute == "uri"@ || attribute == "sha"@ || attribute == "required"@) && element
        == "dependency"@
    ||| (attribute == "vlan-id"@ || attribute == "pcp"@ || attribute == "max-frame-size-bytes"@
        || attribute == "interval-ns"@ || attribute == "max-latency-ns"@ || attribute == "protocol"@)
        && element == "stream"@
    ||| attribute == "group"@ && element == "group-ref"@
    ||| attribute == "network"@ && (element == "network-ref"@ || element == "participant-ref"@
        || element == "traffic-class-ref"@ || element == "schedule-ref"@)
    ||| (attribute == "component"@ || attribute == "function"@) && element == "function-ref"@
    ||| attribute == "participant"@ && element == "participant-ref"@
    ||| attribute == "traffic-class"@ && element == "traffic-class-ref"@
    ||| attribute == "schedule"@ && element == "schedule-ref"@
    ||| attribute == "occurrence"@ && element == "segment"@
    ||| (attribute == "seamless-trees"@ || attribute == "sequence-encoding"@) && element == "frer"@
}

// The names.

/// What tells a name from the others: its length and some of its characters.
spec fn looks(name: Seq<char>, len: nat, first: char, second: char) -> bool {
    name.len() == len && name[0] == first && name[1] == second
}

proof fn names_differ()
    ensures
        looks("stream-profile"@, 14, 's', 't'),
        looks("description"@, 11, 'd', 'e'),
        looks("dependency"@, 10, 'd', 'e'),
        looks("stream-group"@, 12, 's', 't'),
        looks("stream"@, 6, 's', 't'),
        looks("group-ref"@, 9, 'g', 'r'),
        looks("path"@, 4, 'p', 'a'),
        looks("talker"@, 6, 't', 'a'),
        looks("listener"@, 8, 'l', 'i'),
        looks("traffic-class-ref"@, 17, 't', 'r'),
        looks("schedule-ref"@, 12, 's', 'c'),
        looks("frer"@, 4, 'f', 'r') && "frer"@[2] == 'e',
        looks("network-ref"@, 11, 'n', 'e'),
        looks("forwarding"@, 10, 'f', 'o'),
        looks("from"@, 4, 'f', 'r') && "from"@[2] == 'o',
        looks("function-ref"@, 12, 'f', 'u'),
        looks("to"@, 2, 't', 'o'),
        looks("participant-ref"@, 15, 'p', 'a'),
        looks("instance"@, 8, 'i', 'n'),
        looks("segment"@, 7, 's', 'e'),
{
    reveal_strlit("stream-profile");
    reveal_strlit("description");
    reveal_strlit("dependency");
    reveal_strlit("stream-group");
    reveal_strlit("stream");
    reveal_strlit("group-ref");
    reveal_strlit("path");
    reveal_strlit("talker");
    reveal_strlit("listener");
    reveal_strlit("traffic-class-ref");
    reveal_strlit("schedule-ref");
    reveal_strlit("frer");
    reveal_strlit("network-ref");
    reveal_strlit("forwarding");
    reveal_strlit("from");
    reveal_strlit("function-ref");
    reveal_strlit("to");
    reveal_strlit("participant-ref");
    reveal_strlit("instance");
    reveal_strlit("segment");
}

// The rules.

/// Whether a rule of a parent says of its child what the child's name says.
spec fn rule_fits(parent: Seq<char>, k: int) -> bool {
    let rule = stream_grammar::grammar_of(parent)[k];
    &&& may_stand_in(rule.name, parent)
    &&& place(rule.name) == k
    &&& rule.max == (if is_repeatable(rule.name) {
        None::<nat>
    } else {
        Some(1nat)
    })
    &&& rule.min == (if is_required(rule.name) {
        1nat
    } else {
        0nat
    })
}

proof fn every_rule_fits(parent: Seq<char>, k: int)
    requires
        0 <= k < stream_grammar::grammar_of(parent).len(),
    ensures
        rule_fits(parent, k),
{
    names_differ();
}

proof fn every_child_has_a_rule(parent: Seq<char>, child: Seq<char>)
    requires
        may_stand_in(child, parent),
    ensures
        0 <= place(child) < stream_grammar::grammar_of(parent).len(),
        stream_grammar::grammar_of(parent)[place(child)].name == child,
{
    names_differ();
}

proof fn no_rule_is_found(rules: Seq<stream_grammar::ChildRule>, name: Seq<char>)
    requires
        forall|i: int| 0 <= i < rules.len() ==> (#[trigger] rules[i]).name != name,
    ensures
        stream_grammar::rule_index(rules, name) is None,
    decreases rules.len(),
{
    if rules.len() > 0 {
        no_rule_is_found(rules.drop_last(), name);
        assert(rules.last() == rules[rules.len() - 1]);
    }
}

proof fn the_rule_is_found(rules: Seq<stream_grammar::ChildRule>, name: Seq<char>, k: int)
    requires
        0 <= k < rules.len(),
        rules[k].name == name,
        forall|i: int| 0 <= i < k ==> (#[trigger] rules[i]).name != name,
    ensures
        stream_grammar::rule_index(rules, name) == Some(k),
    decreases rules.len(),
{
    if k < rules.len() - 1 {
        the_rule_is_found(rules.drop_last(), name, k);
    } else {
        no_rule_is_found(rules.drop_last(), name);
    }
}

proof fn rule_of(parent: Seq<char>, child: Seq<char>)
    ensures
        stream_grammar::rule_index(stream_grammar::grammar_of(parent), child) == (if may_stand_in(
            child,
            parent,
        ) {
            Some(place(child))
        } else {
            None
        }),
        may_stand_in(child, parent) ==> 0 <= place(child) < stream_grammar::grammar_of(parent).len()
            && stream_grammar::grammar_of(parent)[place(child)].name == child && rule_fits(
            parent,
            place(child),
        ),
{
    let rules = stream_grammar::grammar_of(parent);
    assert forall|i: int| 0 <= i < rules.len() implies place((#[trigger] rules[i]).name) == i
        && may_stand_in(rules[i].name, parent) by {
        every_rule_fits(parent, i);
    }
    if may_stand_in(child, parent) {
        every_child_has_a_rule(parent, child);
        every_rule_fits(parent, place(child));
        the_rule_is_found(rules, child, place(child));
    } else {
        no_rule_is_found(rules, child);
    }
}

// Open elements.

/// An open element that holds these children so far.
pub open spec fn holding(parent: Seq<char>, names: Seq<Seq<char>>) -> FrameView
    decreases names.len(),
{
    if names.len() == 0 {
        stream_grammar::opened(parent)
    } else {
        stream_grammar::with_child(holding(parent, names.drop_last()), names.last())
    }
}

/// Whether children may stand in a parent, in this order.
pub open spec fn are_in_order(names: Seq<Seq<char>>, parent: Seq<char>) -> bool {
    &&& forall|i: int| 0 <= i < names.len() ==> may_stand_in(#[trigger] names[i], parent)
    &&& forall|i: int, j: int|
        0 <= i < j < names.len() ==> place(#[trigger] names[i]) <= place(#[trigger] names[j])
}

proof fn what_is_held(parent: Seq<char>, names: Seq<Seq<char>>)
    requires
        forall|i: int| 0 <= i < names.len() ==> may_stand_in(#[trigger] names[i], parent),
    ensures
        holding(parent, names).name == parent,
        holding(parent, names).children == names.map_values(|name: Seq<char>| place(name)),
    decreases names.len(),
{
    if names.len() > 0 {
        let front = names.drop_last();
        assert forall|i: int| 0 <= i < front.len() implies may_stand_in(#[trigger] front[i], parent) by {
            assert(front[i] == names[i]);
        }
        what_is_held(parent, front);
        assert(names.last() == names[names.len() - 1]);
        rule_of(parent, names.last());
        assert(front.map_values(|name: Seq<char>| place(name)).push(place(names.last()))
            =~= names.map_values(|name: Seq<char>| place(name)));
    } else {
        assert(names.map_values(|name: Seq<char>| place(name)) =~= Seq::<int>::empty());
    }
}

proof fn what_occurs(children: Seq<int>, at: int)
    ensures
        stream_grammar::occurrences(children, at) > 0 <==> children.contains(at),
    decreases children.len(),
{
    if children.len() > 0 {
        let front = children.drop_last();
        what_occurs(front, at);
        assert(children.last() == children[children.len() - 1]);
        if front.contains(at) {
            let i = choose|i: int| 0 <= i < front.len() && front[i] == at;
            assert(children[i] == at);
        }
        if children.contains(at) {
            let i = choose|i: int| 0 <= i < children.len() && children[i] == at;
            if i < front.len() {
                assert(front[i] == at);
            }
        }
    }
}

proof fn held_at_a_place(parent: Seq<char>, names: Seq<Seq<char>>, child: Seq<char>)
    requires
        forall|i: int| 0 <= i < names.len() ==> may_stand_in(#[trigger] names[i], parent),
        may_stand_in(child, parent),
    ensures
        stream_grammar::occurrences(holding(parent, names).children, place(child)) > 0
            <==> names.contains(child),
{
    what_is_held(parent, names);
    let children = holding(parent, names).children;
    what_occurs(children, place(child));
    every_child_has_a_rule(parent, child);
    if names.contains(child) {
        let i = choose|i: int| 0 <= i < names.len() && names[i] == child;
        assert(children[i] == place(child));
    }
    if children.contains(place(child)) {
        let i = choose|i: int| 0 <= i < children.len() && children[i] == place(child);
        every_child_has_a_rule(parent, names[i]);
        assert(names[i] == child);
    }
}

/// An open element takes a child exactly where the child may stand in it, nothing that stands behind
/// the child is there already, and the child itself is not there already unless it may be repeated. The
/// first of these that fails is the one that is reported.
pub proof fn which_children_are_taken(
    parent: Seq<char>,
    names: Seq<Seq<char>>,
    child: Seq<char>,
    position: nat,
)
    requires
        are_in_order(names, parent),
    ensures
        stream_grammar::accept_due(holding(parent, names), child, position) == (if !may_stand_in(
            child,
            parent,
        ) {
            Some(
                "unknown stream-profile core element <"@ + child + "> inside <"@ + parent
                    + "> near byte "@ + text::decimal(position),
            )
        } else if exists|i: int| 0 <= i < names.len() && place(#[trigger] names[i]) > place(child) {
            Some(
                "stream-profile element <"@ + child + "> is out of order inside <"@ + parent
                    + "> near byte "@ + text::decimal(position),
            )
        } else if names.contains(child) && !is_repeatable(child) {
            Some(
                "stream-profile element <"@ + child + "> occurs too many times inside <"@ + parent
                    + "> near byte "@ + text::decimal(position),
            )
        } else {
            None
        }),
{
    what_is_held(parent, names);
    rule_of(parent, child);
    let children = holding(parent, names).children;
    if names.len() > 0 {
        assert(children.last() == place(names[names.len() - 1]));
        if children.last() > place(child) {
            assert(place(names[names.len() - 1]) > place(child));
        }
    }
    if may_stand_in(child, parent) {
        held_at_a_place(parent, names, child);
    }
}

/// An element closes exactly where it holds every child that no element of its name goes without.
pub proof fn which_elements_close(parent: Seq<char>, names: Seq<Seq<char>>, position: nat)
    requires
        are_in_order(names, parent),
    ensures
        stream_grammar::finish_due(holding(parent, names), position) is None <==> (forall|
            child: Seq<char>,
        |
            #[trigger] may_stand_in(child, parent) && is_required(child) ==> names.contains(child)),
{
    what_is_held(parent, names);
    let frame = holding(parent, names);
    let rules = stream_grammar::grammar_of(parent);
    let due = stream_grammar::minimum_due(frame, position);
    if forall|child: Seq<char>|
        #[trigger] may_stand_in(child, parent) && is_required(child) ==> names.contains(child) {
        assert forall|k: int| 0 <= k < rules.len() implies #[trigger] due(k) is None by {
            every_rule_fits(parent, k);
            held_at_a_place(parent, names, rules[k].name);
        }
        faults::no_failure_means_none(rules.len(), due);
    }
    if stream_grammar::finish_due(frame, position) is None {
        assert forall|child: Seq<char>| #[trigger] may_stand_in(child, parent) && is_required(
            child,
        ) implies names.contains(child) by {
            rule_of(parent, child);
            held_at_a_place(parent, names, child);
            none_fails(rules.len(), due, place(child));
        }
    }
}

/// Where no place fails first, none fails.
proof fn none_fails<E>(n: nat, at: spec_fn(int) -> Option<E>, i: int)
    requires
        faults::first_failure(n, at) is None,
        0 <= i < n,
    ensures
        at(i) is None,
    decreases n,
{
    if i < n - 1 {
        none_fails((n - 1) as nat, at, i);
    }
}

// Tags.

/// Whether an attribute can be read and belongs to an element: one of its own, or a declaration of no
/// namespace.
pub open spec fn belongs(attribute: xml::AttributeView, element: Seq<char>) -> bool {
    attribute matches xml::AttributeView::Read { key, value, .. } && (if key == "xmlns"@
        || text::starts_with(key, "xmlns:"@) {
        value matches Ok(content) && content.len() == 0
    } else {
        may_carry(element, key)
    })
}

proof fn no_namespace(attributes: Seq<xml::AttributeView>)
    ensures
        stream_grammar::namespaced(attributes) == Ok::<bool, Seq<char>>(false) <==> (forall|i: int|
            0 <= i < attributes.len() ==> (#[trigger] attributes[i] matches xml::AttributeView::Read {
                key,
                value,
                ..
            } && (stream_grammar::is_namespace_key(key) ==> (value matches Ok(content)
                && content.len() == 0)))),
    decreases attributes.len(),
{
    if attributes.len() > 0 {
        let rest = attributes.drop_first();
        no_namespace(rest);
        assert forall|i: int| 0 <= i < rest.len() implies rest[i] == #[trigger] attributes[i + 1] by {
        }
        assert forall|i: int| 0 < i < attributes.len() implies #[trigger] attributes[i] == rest[i - 1] by {
        }
    }
}

proof fn carried(element: Seq<char>, attribute: Seq<char>)
    ensures
        stream_grammar::is_allowed_attribute(element, attribute) == may_carry(element, attribute),
{
    names_differ();
}

/// A tag opens an element exactly where its name has no prefix, it declares no namespace, all its
/// attributes belong to it, and it stands as the one root of the document or where its parent takes it.
pub proof fn which_tags_are_taken(
    state: CheckState,
    element: xml::ElementView,
    position: nat,
)
    ensures
        stream_grammar::element_due(state, element, position) is None <==> {
            &&& !element.name.contains(':')
            &&& forall|i: int|
                0 <= i < element.attributes.len() ==> belongs(
                    #[trigger] element.attributes[i],
                    element.local,
                )
            &&& if state.stack.len() == 0 {
                !state.saw_root && element.local == "stream-profile"@
            } else {
                stream_grammar::accept_due(state.stack.last(), element.local, position) is None
            }
        },
{
    let attributes = element.attributes;
    let due = stream_grammar::attributes_due(attributes, element.local);
    no_namespace(attributes);
    if forall|i: int|
        0 <= i < attributes.len() ==> belongs(#[trigger] attributes[i], element.local) {
        assert forall|i: int| 0 <= i < attributes.len() implies #[trigger] due(i) is None by {
            assert(belongs(attributes[i], element.local));
            carried(element.local, attributes[i]->key);
        }
        faults::no_failure_means_none(attributes.len(), due);
        assert(forall|i: int| 0 <= i < attributes.len() ==> belongs(#[trigger] attributes[i], element.local));
    }
    if stream_grammar::element_due(state, element, position) is None {
        assert forall|i: int| 0 <= i < attributes.len() implies belongs(
            #[trigger] attributes[i],
            element.local,
        ) by {
            none_fails(attributes.len(), due, i);
            carried(element.local, attributes[i]->key);
        }
    }
}

// Steps.

/// A tag that is taken opens its element inside the one that was open, and the end of it leaves that
/// one open with the element as its last child, as an empty tag does.
pub proof fn an_element_opens_and_closes(
    state: CheckState,
    element: xml::ElementView,
    position: nat,
)
    requires
        stream_grammar::element_due(state, element, position) is None,
        stream_grammar::finish_due(stream_grammar::opened(element.local), position) is None,
    ensures
        ({
            let start = xml::StepView { event: xml::EventView::Start(element), position };
            let end = xml::StepView { event: xml::EventView::End, position };
            let empty = xml::StepView { event: xml::EventView::Empty(element), position };
            let inside = stream_grammar::after_step(state, start);
            let after = stream_grammar::after_step(inside->Ok_0, end);
            &&& inside is Ok
            &&& inside->Ok_0.stack.len() == state.stack.len() + 1
            &&& inside->Ok_0.stack.last() == holding(element.local, Seq::empty())
            &&& inside->Ok_0.saw_root == (state.saw_root || state.stack.len() == 0)
            &&& after is Ok
            &&& after == stream_grammar::after_step(state, empty)
            &&& after->Ok_0.stack.len() == state.stack.len()
            &&& forall|i: int|
                0 <= i < state.stack.len() - 1 ==> #[trigger] after->Ok_0.stack[i] == state.stack[i]
            &&& forall|parent: Seq<char>, names: Seq<Seq<char>>|
                state.stack.len() > 0 && state.stack.last() == #[trigger] holding(parent, names)
                    ==> after->Ok_0.stack.last() == holding(parent, names.push(element.local))
        }),
{
    let start = xml::StepView { event: xml::EventView::Start(element), position };
    let end = xml::StepView { event: xml::EventView::End, position };
    let inside = stream_grammar::after_step(state, start);
    let after = stream_grammar::after_step(inside->Ok_0, end);
    let stack = stream_grammar::with_element(state.stack, element.local);
    assert(stack.push(stream_grammar::opened(element.local)).drop_last() =~= stack);
    assert forall|parent: Seq<char>, names: Seq<Seq<char>>|
        state.stack.len() > 0 && state.stack.last() == #[trigger] holding(parent, names) implies after->Ok_0.stack.last()
        == holding(parent, names.push(element.local)) by {
        assert(names.push(element.local).drop_last() =~= names);
        assert(names.push(element.local).last() == element.local);
    }
}

/// Text that is more than blanks stands only in a description, be it plain or in a CDATA section.
pub proof fn where_text_may_stand(state: CheckState, content: Seq<char>, position: nat)
    requires
        state.stack.len() > 0,
        !text::is_blank(content),
    ensures
        stream_grammar::after_step(
            state,
            xml::StepView { event: xml::EventView::Text(Ok(content)), position },
        ) == (if state.stack.last().name == "description"@ {
            Ok::<CheckState, Seq<char>>(state)
        } else {
            Err(
                "unexpected character content in stream-profile core element <"@
                    + state.stack.last().name + "> near byte "@ + text::decimal(position),
            )
        }),
        stream_grammar::after_step(
            state,
            xml::StepView { event: xml::EventView::CData(Ok(content)), position },
        ) == stream_grammar::after_step(
            state,
            xml::StepView { event: xml::EventView::Text(Ok(content)), position },
        ),
{
}

/// A closing tag that closes nothing is refused.
pub proof fn nothing_closes_outside(state: CheckState, position: nat)
    requires
        state.stack.len() == 0,
    ensures
        stream_grammar::after_step(state, xml::StepView { event: xml::EventView::End, position }) is Err,
{
}

} // verus!
