//! What reading the steps of a written document gives: the tree that was written.
//!
//! A parser that delivers, for the text of a document, the tags and the texts that were written leads
//! back to the same tree, but for white space around texts.
use vstd::prelude::*;
use crate::json::dom;
use crate::json::read;
use crate::json::roundtrip;
use crate::json::schema;
use crate::json::value;
use crate::text;
use crate::xml;

verus! {

/// The text of a written element.
pub open spec fn words_of(e: crate::json::write::XmlElView) -> Seq<char> {
    match e.text {
        Some(words) => words,
        None => Seq::empty(),
    }
}

/// A run of text that a parser delivers.
pub open spec fn text_spelled(words: Seq<char>) -> xml::EventView {
    xml::EventView::Text(Ok(words))
}

/// What a parser delivers for an element whose lines start with `pad`.
pub open spec fn element_spelled(e: crate::json::write::XmlElView, pad: Seq<char>) -> Seq<
    xml::EventView,
>
    decreases e, 0nat,
{
    if e.children.len() > 0 {
        let inner = pad + "  "@;
        seq![xml::EventView::Start(xml::branch_tag(e.name, e.attrs)), text_spelled(words_of(e) + "\n"@ + inner)]
            + children_spelled(e.children, pad, e.children.len()) + seq![xml::EventView::End]
    } else if e.text is Some {
        seq![
            xml::EventView::Start(xml::branch_tag(e.name, e.attrs)),
            text_spelled(words_of(e)),
            xml::EventView::End,
        ]
    } else {
        seq![xml::EventView::Empty(xml::branch_tag(e.name, e.attrs))]
    }
}

/// What a parser delivers for the first `n` children of an element whose lines start with `pad`: each
/// of them, and the start of the next line.
pub open spec fn children_spelled(
    list: Seq<crate::json::write::XmlElView>,
    pad: Seq<char>,
    n: nat,
) -> Seq<xml::EventView>
    decreases list, n,
{
    if n == 0 || n > list.len() {
        Seq::empty()
    } else {
        let inner = pad + "  "@;
        children_spelled(list, pad, (n - 1) as nat) + element_spelled(list[n - 1], inner) + seq![
            text_spelled(
                "\n"@ + if n < list.len() {
                    inner
                } else {
                    pad
                },
            ),
        ]
    }
}

/// The tree that an element whose lines start with `pad` is read as.
pub open spec fn tree_spelled(e: crate::json::write::XmlElView, pad: Seq<char>) -> dom::DomView
    decreases e,
{
    dom::DomView {
        name: e.name,
        attrs: e.attrs,
        text: if e.children.len() > 0 {
            words_of(e) + "\n"@ + (pad + "  "@)
        } else {
            words_of(e)
        },
        children: Seq::new(
            e.children.len(),
            |i: int|
                if 0 <= i < e.children.len() {
                    tree_spelled(e.children[i], pad + "  "@)
                } else {
                    arbitrary()
                },
        ),
    }
}

/// Where the reading of a tree stands after some events.
pub open spec fn after_events(state: dom::DomState, events: Seq<xml::EventView>) -> Result<
    dom::DomState,
    Seq<char>,
>
    decreases events.len(),
{
    if events.len() == 0 {
        Ok(state)
    } else {
        match dom::after_step(state, events[0]) {
            Err(message) => Err(message),
            Ok(next) => after_events(next, events.drop_first()),
        }
    }
}

proof fn after_more(state: dom::DomState, a: Seq<xml::EventView>, b: Seq<xml::EventView>)
    ensures
        after_events(state, a + b) == match after_events(state, a) {
            Err(message) => Err(message),
            Ok(next) => after_events(next, b),
        },
    decreases a.len(),
{
    if a.len() == 0 {
        assert(a + b =~= b);
    } else {
        assert((a + b)[0] == a[0]);
        assert((a + b).drop_first() =~= a.drop_first() + b);
        if let Ok(next) = dom::after_step(state, a[0]) {
            after_more(next, a.drop_first(), b);
        }
    }
}

proof fn after_one(state: dom::DomState, event: xml::EventView)
    ensures
        after_events(state, seq![event]) == dom::after_step(state, event),
{
    let events = seq![event];
    assert(events.drop_first() =~= Seq::empty());
    if let Ok(next) = dom::after_step(state, event) {
        assert(after_events(next, events.drop_first()) == Ok::<dom::DomState, Seq<char>>(next));
    }
}

proof fn attributes_spelled(attrs: Seq<dom::Pair>)
    ensures
        dom::attributes_read(
            attrs.map_values(
                |p: dom::Pair| xml::AttributeView::Read { key: p.0, local: p.0, value: Ok(p.1) },
            ),
        ) == Ok::<Seq<dom::Pair>, Seq<char>>(attrs),
    decreases attrs.len(),
{
    let each = |p: dom::Pair| xml::AttributeView::Read { key: p.0, local: p.0, value: Ok(p.1) };
    let all = attrs.map_values(each);
    if attrs.len() == 0 {
        assert(attrs =~= Seq::empty());
    } else {
        attributes_spelled(attrs.drop_last());
        assert(all.drop_last() =~= attrs.drop_last().map_values(each));
        assert(all.last() == each(attrs.last()));
        assert(attrs =~= attrs.drop_last().push(attrs.last()));
    }
}

/// An element that has begun, with the given text and children.
spec fn begun(
    e: crate::json::write::XmlElView,
    words: Seq<char>,
    children: Seq<dom::DomView>,
) -> dom::DomView {
    dom::DomView { name: e.name, attrs: e.attrs, children, text: words }
}

proof fn children_are_read(
    state: dom::DomState,
    e: crate::json::write::XmlElView,
    pad: Seq<char>,
    words: Seq<char>,
    n: nat,
)
    requires
        n <= e.children.len(),
    ensures
        after_events(
            dom::DomState { stack: state.stack.push(begun(e, words, Seq::empty())), ..state },
            children_spelled(e.children, pad, n),
        ) == Ok::<dom::DomState, Seq<char>>(
            dom::DomState {
                stack: state.stack.push(begun(e, words, tree_spelled(e, pad).children.take(n as int))),
                ..state
            },
        ),
    decreases e, 0nat, n,
{
    let inner = pad + "  "@;
    let all = tree_spelled(e, pad).children;
    let opened = dom::DomState { stack: state.stack.push(begun(e, words, Seq::empty())), ..state };
    if n == 0 {
        assert(all.take(0) =~= Seq::empty());
    } else {
        children_are_read(state, e, pad, words, (n - 1) as nat);
        let child = e.children[n - 1];
        let before = children_spelled(e.children, pad, (n - 1) as nat);
        let spelled = element_spelled(child, inner);
        let gap = text_spelled(
            "\n"@ + if n < e.children.len() {
                inner
            } else {
                pad
            },
        );
        let mid = dom::DomState {
            stack: state.stack.push(begun(e, words, all.take(n - 1))),
            ..state
        };
        assert(decreases_to!(e => e.children));
        assert(decreases_to!(e.children => e.children[n - 1]));
        element_is_read(mid, child, inner);
        let d = tree_spelled(child, inner);
        assert(all[n - 1] == d);
        let next = dom::attached(mid, d);
        assert(mid.stack.drop_last() =~= state.stack);
        assert(all.take(n as int) =~= all.take(n - 1).push(d));
        assert(next == dom::DomState {
            stack: state.stack.push(begun(e, words, all.take(n as int))),
            ..state
        });
        after_more(opened, before, spelled);
        after_more(opened, before + spelled, seq![gap]);
        after_one(next, gap);
        assert(next.stack.last().children.len() > 0);
    }
}

/// The events of an element add its tree to the innermost open element.
proof fn element_is_read(
    state: dom::DomState,
    e: crate::json::write::XmlElView,
    pad: Seq<char>,
)
    ensures
        after_events(state, element_spelled(e, pad)) == Ok::<dom::DomState, Seq<char>>(
            dom::attached(state, tree_spelled(e, pad)),
        ),
    decreases e, 1nat, 0nat,
{
    attributes_spelled(e.attrs);
    let tag = xml::branch_tag(e.name, e.attrs);
    let start = xml::EventView::Start(tag);
    let tree = tree_spelled(e, pad);
    let empty = begun(e, Seq::empty(), Seq::empty());
    assert(dom::element_begun(tag) == Ok::<dom::DomView, Seq<char>>(empty));
    let opened = dom::DomState { stack: state.stack.push(empty), ..state };
    after_one(state, start);
    if e.children.len() > 0 {
        let words = words_of(e) + "\n"@ + (pad + "  "@);
        let text = text_spelled(words);
        let list = children_spelled(e.children, pad, e.children.len());
        after_one(opened, text);
        let filled = dom::DomState {
            stack: state.stack.push(begun(e, words, Seq::empty())),
            ..state
        };
        assert(opened.stack.drop_last() =~= state.stack);
        assert(Seq::<char>::empty() + words =~= words);
        assert(seq![start, text] =~= seq![start] + seq![text]);
        after_more(state, seq![start], seq![text]);
        children_are_read(state, e, pad, words, e.children.len());
        assert(tree.children.take(e.children.len() as int) =~= tree.children);
        after_more(state, seq![start, text], list);
        let full = dom::DomState { stack: state.stack.push(tree), ..state };
        after_one(full, xml::EventView::End);
        after_more(state, seq![start, text] + list, seq![xml::EventView::End]);
        assert(full.stack.drop_last() =~= state.stack);
    } else {
        assert(tree.children =~= Seq::empty());
        if e.text is Some {
            let text = text_spelled(words_of(e));
            after_one(opened, text);
            assert(opened.stack.drop_last() =~= state.stack);
            assert(Seq::<char>::empty() + words_of(e) =~= words_of(e));
            let full = dom::DomState { stack: state.stack.push(tree), ..state };
            after_more(state, seq![start], seq![text]);
            after_one(full, xml::EventView::End);
            after_more(state, seq![start] + seq![text], seq![xml::EventView::End]);
            assert(element_spelled(e, pad) =~= seq![start] + seq![text] + seq![xml::EventView::End]);
            assert(full.stack.drop_last() =~= state.stack);
        } else {
            after_one(state, xml::EventView::Empty(tag));
        }
    }
}

/// Whether a text is white space through and through.
pub open spec fn is_space(text: Seq<char>) -> bool {
    forall|i: int| 0 <= i < text.len() ==> text::is_whitespace(#[trigger] text[i])
}

proof fn space_is_trimmed(words: Seq<char>, space: Seq<char>)
    requires
        is_space(space),
    ensures
        text::trimmed(words + space) == text::trimmed(words),
    decreases words.len() + space.len(),
{
    let all = words + space;
    if space.len() == 0 {
        assert(all =~= words);
    } else if words.len() == 0 {
        assert(all[0] == space[0]);
        assert(all.drop_first() =~= words + space.drop_first());
        assert forall|i: int| 0 <= i < space.drop_first().len() implies text::is_whitespace(
            #[trigger] space.drop_first()[i],
        ) by {
            assert(space.drop_first()[i] == space[i + 1]);
        }
        space_is_trimmed(words, space.drop_first());
    } else if text::is_whitespace(words[0]) {
        assert(all[0] == words[0]);
        assert(all.drop_first() =~= words.drop_first() + space);
        space_is_trimmed(words.drop_first(), space);
    } else {
        assert(all[0] == words[0]);
        assert(all.last() == space.last());
        assert(text::is_whitespace(space[space.len() - 1]));
        assert(all.drop_last() =~= words + space.drop_last());
        assert forall|i: int| 0 <= i < space.drop_last().len() implies text::is_whitespace(
            #[trigger] space.drop_last()[i],
        ) by {
            assert(space.drop_last()[i] == space[i]);
        }
        space_is_trimmed(words, space.drop_last());
    }
}

proof fn spelled_is_read_as(e: crate::json::write::XmlElView, pad: Seq<char>)
    requires
        is_space(pad),
    ensures
        roundtrip::is_read_as(e, tree_spelled(e, pad)),
    decreases e,
{
    let inner = pad + "  "@;
    let tree = tree_spelled(e, pad);
    reveal_strlit("  ");
    reveal_strlit("\n");
    assert forall|i: int| 0 <= i < inner.len() implies text::is_whitespace(#[trigger] inner[i]) by {
        if i < pad.len() {
            assert(inner[i] == pad[i]);
        }
    }
    let space = "\n"@ + inner;
    assert forall|i: int| 0 <= i < space.len() implies text::is_whitespace(#[trigger] space[i]) by {
        if i > 0 {
            assert(space[i] == inner[i - 1]);
        }
    }
    if e.children.len() > 0 {
        space_is_trimmed(words_of(e), space);
        assert(words_of(e) + "\n"@ + inner =~= words_of(e) + space);
    }
    assert forall|i: int| 0 <= i < e.children.len() implies roundtrip::is_read_as(
        #[trigger] e.children[i],
        tree.children[i],
    ) by {
        assert(decreases_to!(e => e.children));
        assert(decreases_to!(e.children => e.children[i]));
        spelled_is_read_as(e.children[i], inner);
        assert(tree.children[i] == tree_spelled(e.children[i], inner));
    }
}

/// What a parser delivers for the text of a written document: the declaration, the root element, the
/// end of its line and the end.
pub open spec fn document_spelled(root: crate::json::write::XmlElView) -> Seq<xml::EventView> {
    seq![xml::EventView::Other, text_spelled("\n"@)] + element_spelled(root, ""@) + seq![
        text_spelled("\n"@),
    ]
}

proof fn events_lead_to_tree(state: dom::DomState, steps: Seq<xml::StepView>, n: nat)
    requires
        n < steps.len(),
        forall|i: int| 0 <= i < n ==> !((#[trigger] steps[i]).event is Eof),
        steps[n as int].event is Eof,
        after_events(state, xml::events_of(steps).take(n as int)) is Ok,
    ensures
        dom::tree_read(state, steps) == match (after_events(
            state,
            xml::events_of(steps).take(n as int),
        )->Ok_0).root {
            Some(root) => Ok(root),
            None => Err("no root element"@),
        },
    decreases n,
{
    let events = xml::events_of(steps).take(n as int);
    if n == 0 {
        assert(events =~= Seq::empty());
    } else {
        assert(events[0] == steps[0].event);
        let rest = steps.drop_first();
        assert(events.drop_first() =~= xml::events_of(rest).take(n - 1));
        let next = dom::after_step(state, steps[0].event)->Ok_0;
        assert forall|i: int| 0 <= i < n - 1 implies !((#[trigger] rest[i]).event is Eof) by {
            assert(rest[i] == steps[i + 1]);
        }
        assert(rest[n - 1] == steps[n as int]);
        events_lead_to_tree(next, rest, (n - 1) as nat);
    }
}

proof fn spelled_has_no_end(e: crate::json::write::XmlElView, pad: Seq<char>)
    ensures
        forall|i: int|
            0 <= i < element_spelled(e, pad).len() ==> !((#[trigger] element_spelled(e, pad)[i])
                is Eof),
    decreases e, 1nat, 0nat,
{
    if e.children.len() > 0 {
        children_have_no_end(e, pad, e.children.len());
    }
}

proof fn children_have_no_end(e: crate::json::write::XmlElView, pad: Seq<char>, n: nat)
    requires
        n <= e.children.len(),
    ensures
        forall|i: int|
            0 <= i < children_spelled(e.children, pad, n).len() ==> !((#[trigger] children_spelled(
                e.children,
                pad,
                n,
            )[i]) is Eof),
    decreases e, 0nat, n,
{
    if n > 0 {
        children_have_no_end(e, pad, (n - 1) as nat);
        assert(decreases_to!(e => e.children));
        assert(decreases_to!(e.children => e.children[n - 1]));
        spelled_has_no_end(e.children[n - 1], pad + "  "@);
    }
}

// Spelling out.

/// What stands between a child of an element and the next one, or the end of the element.
pub open spec fn gap(pad: Seq<char>, i: int, n: int) -> Seq<char> {
    if i < n {
        pad + "  "@
    } else {
        pad
    }
}

/// A written element whose lines start with `pad`, with the text behind it, as it is spelled out.
pub open spec fn branch_of(
    e: crate::json::write::XmlElView,
    pad: Seq<char>,
    tail: Seq<char>,
) -> xml::Branch
    decreases e,
{
    xml::Branch {
        name: e.name,
        attrs: e.attrs,
        lead: if e.children.len() > 0 {
            words_of(e) + "\n"@ + (pad + "  "@)
        } else {
            words_of(e)
        },
        inner: Seq::new(
            e.children.len(),
            |i: int|
                if 0 <= i < e.children.len() {
                    branch_of(
                        e.children[i],
                        pad + "  "@,
                        "\n"@ + gap(pad, i + 1, e.children.len() as int),
                    )
                } else {
                    arbitrary()
                },
        ),
        tail,
    }
}

proof fn content_of_both(a: Seq<char>, b: Seq<char>)
    ensures
        xml::content(a + b, false) == xml::content(a, false) + xml::content(b, false),
    decreases b.len(),
{
    if b.len() == 0 {
        assert(a + b =~= a);
        assert(xml::content(a, false) + xml::content(b, false) =~= xml::content(a, false));
    } else {
        content_of_both(a, b.drop_last());
        assert((a + b).drop_last() =~= a + b.drop_last());
        assert((a + b).last() == b.last());
        assert(xml::content(a + b, false) =~= xml::content(a, false) + xml::content(b, false));
    }
}

proof fn space_is_content(space: Seq<char>)
    requires
        is_space(space),
    ensures
        xml::content(space, false) == space,
    decreases space.len(),
{
    if space.len() > 0 {
        assert(text::is_whitespace(space[space.len() - 1]));
        assert forall|i: int| 0 <= i < space.drop_last().len() implies text::is_whitespace(
            #[trigger] space.drop_last()[i],
        ) by {
            assert(space.drop_last()[i] == space[i]);
        }
        space_is_content(space.drop_last());
        assert(space =~= space.drop_last().push(space.last()));
    } else {
        assert(xml::content(space, false) =~= space);
    }
}

proof fn lines_are_space(pad: Seq<char>)
    requires
        is_space(pad),
    ensures
        is_space(pad + "  "@),
        is_space("\n"@ + pad),
        is_space("\n"@ + (pad + "  "@)),
{
    reveal_strlit("  ");
    reveal_strlit("\n");
}

/// The markup of an element without what is behind it.
spec fn body(e: crate::json::write::XmlElView, pad: Seq<char>) -> Seq<char> {
    xml::branch_text(branch_of(e, pad, Seq::empty()))
}

proof fn text_of_branch(e: crate::json::write::XmlElView, pad: Seq<char>, tail: Seq<char>)
    ensures
        xml::branch_text(branch_of(e, pad, tail)) == body(e, pad) + xml::content(tail, false),
{
    let b = branch_of(e, pad, tail);
    let bare = branch_of(e, pad, Seq::empty());
    assert(b.inner =~= bare.inner);
    assert(xml::content(Seq::empty(), false) =~= Seq::empty());
    assert(xml::branch_text(b) =~= body(e, pad) + xml::content(tail, false));
}

proof fn grouped(a: Seq<char>, b: Seq<char>, c: Seq<char>)
    ensures
        a + b + c == a + (b + c),
{
    assert(a + b + c =~= a + (b + c));
}

proof fn nested_lines(
    pad: Seq<char>,
    opening: Seq<char>,
    words: Seq<char>,
    end: Seq<char>,
    lines: Seq<char>,
    start: Seq<char>,
    list: Seq<char>,
    closing: Seq<char>,
)
    requires
        lines + pad == start + list,
    ensures
        pad + opening + words + end + lines + pad + closing == pad + (opening + (words + (end + start))
            + list + closing),
{
    grouped(pad + opening + words + end, lines, pad);
    grouped(pad + opening + words + end, start, list);
    grouped(pad + opening + words, end, start);
    grouped(pad + opening, words, end + start);
    grouped(pad, opening, words + (end + start));
    grouped(pad, opening + (words + (end + start)), list);
    grouped(pad, opening + (words + (end + start)) + list, closing);
}

proof fn line_of_child(
    before: Seq<char>,
    start: Seq<char>,
    earlier: Seq<char>,
    middle: Seq<char>,
    end: Seq<char>,
    gap: Seq<char>,
)
    requires
        before + start == start + earlier,
    ensures
        before + (start + middle + end) + gap == start + (earlier + (middle + (end + gap))),
{
    grouped(before, start + middle + end, gap);
    grouped(start + middle, end, gap);
    grouped(start, middle, end + gap);
    grouped(before, start, middle + (end + gap));
    grouped(start, earlier, middle + (end + gap));
}

proof fn element_is_branch(e: crate::json::write::XmlElView, pad: Seq<char>)
    requires
        is_space(pad),
        roundtrip::is_spellable(e),
    ensures
        crate::json::write::element_text(e, pad) == pad + body(e, pad) + "\n"@,
    decreases e, 1nat, 0nat,
{
    let b = branch_of(e, pad, Seq::empty());
    if e.children.len() > 0 {
        parent_is_branch(e, pad);
    } else {
        let tag = xml::attributes_text(e.attrs, e.attrs.len());
        assert(b.inner.len() == 0);
        leaf_lines(pad, e.name, tag, xml::content(words_of(e), false));
        assert(xml::branches_text(b.inner, b.inner.len()) == Seq::<char>::empty());
        assert(xml::content(Seq::empty(), false) == Seq::<char>::empty());
    }
}

proof fn leaf_lines(pad: Seq<char>, name: Seq<char>, tag: Seq<char>, words: Seq<char>)
    ensures
        pad + "<"@ + name + tag + ">"@ + words + "</"@ + name + ">\n"@ == pad + ("<"@ + name + tag
            + ">"@ + words + Seq::<char>::empty() + "</"@ + name + ">"@ + Seq::<char>::empty())
            + "\n"@,
        pad + "<"@ + name + tag + "/>\n"@ == pad + ("<"@ + name + tag + "/>"@ + Seq::<
            char,
        >::empty()) + "\n"@,
{
    reveal_strlit("\n");
    reveal_strlit(">");
    reveal_strlit(">\n");
    reveal_strlit("/>");
    reveal_strlit("/>\n");
    let none = Seq::<char>::empty();
    assert(">\n"@ =~= ">"@ + "\n"@);
    assert("/>\n"@ =~= "/>"@ + "\n"@);
    let opening = "<"@ + name + tag;
    assert(pad + "<"@ + name + tag =~= pad + opening);
    let full = opening + ">"@ + words;
    assert(full + none =~= full);
    assert(full + "</"@ + name + ">"@ + none =~= full + "</"@ + name + ">"@);
    assert(pad + opening + ">"@ + words =~= pad + full);
    assert(pad + full + "</"@ + name =~= pad + (full + "</"@ + name));
    let shut = full + "</"@ + name;
    assert(pad + shut + (">"@ + "\n"@) =~= pad + (shut + ">"@) + "\n"@);
    assert(opening + "/>"@ + none =~= opening + "/>"@);
    assert(pad + opening + ("/>"@ + "\n"@) =~= pad + (opening + "/>"@) + "\n"@);
}

proof fn parent_is_branch(e: crate::json::write::XmlElView, pad: Seq<char>)
    requires
        is_space(pad),
        roundtrip::is_spellable(e),
        e.children.len() > 0,
    ensures
        crate::json::write::element_text(e, pad) == pad + body(e, pad) + "\n"@,
    decreases e, 0nat, e.children.len() + 1,
{
    let inner = pad + "  "@;
    let b = branch_of(e, pad, Seq::empty());
    let len = e.children.len();
    let tag = xml::attributes_text(e.attrs, e.attrs.len());
    let words = xml::content(words_of(e), false);
    let lines = crate::json::write::elements_text(e.children, inner, len);
    let list = xml::branches_text(b.inner, len);
    children_are_branches(e, pad, len);
    assert(lines + pad == inner + list);
    lines_are_space(pad);
    content_of_both(words_of(e), "\n"@ + inner);
    space_is_content("\n"@ + inner);
    grouped(words_of(e), "\n"@, inner);
    assert(xml::content(b.lead, false) == words + ("\n"@ + inner));
    parent_lines(pad, e.name, tag, words, lines, inner, list);
    assert(xml::content(Seq::empty(), false) == Seq::<char>::empty());
}

proof fn parent_lines(
    pad: Seq<char>,
    name: Seq<char>,
    tag: Seq<char>,
    words: Seq<char>,
    lines: Seq<char>,
    inner: Seq<char>,
    list: Seq<char>,
)
    requires
        lines + pad == inner + list,
    ensures
        pad + "<"@ + name + tag + ">"@ + words + "\n"@ + lines + pad + "</"@ + name + ">\n"@ == pad + (
        "<"@ + name + tag + ">"@ + (words + ("\n"@ + inner)) + list + "</"@ + name + ">"@ + Seq::<
            char,
        >::empty()) + "\n"@,
{
    reveal_strlit("\n");
    reveal_strlit(">");
    reveal_strlit(">\n");
    let none = Seq::<char>::empty();
    assert(">\n"@ =~= ">"@ + "\n"@);
    let opening = "<"@ + name + tag + ">"@;
    assert(pad + "<"@ + name + tag + ">"@ =~= pad + opening);
    let left = pad + opening + words + "\n"@ + lines + pad;
    let right = opening + (words + ("\n"@ + inner)) + list;
    assert(left + "</"@ + name + (">"@ + "\n"@) =~= left + ("</"@ + name + ">"@) + "\n"@);
    assert(right + "</"@ + name + ">"@ + none =~= right + ("</"@ + name + ">"@));
    nested_lines(pad, opening, words, "\n"@, lines, inner, list, "</"@ + name + ">"@);
}

proof fn children_are_branches(e: crate::json::write::XmlElView, pad: Seq<char>, n: nat)
    requires
        is_space(pad),
        roundtrip::is_spellable(e),
        0 < e.children.len(),
        n <= e.children.len(),
    ensures
        crate::json::write::elements_text(e.children, pad + "  "@, n) + gap(
            pad,
            n as int,
            e.children.len() as int,
        ) == pad + "  "@ + xml::branches_text(branch_of(e, pad, Seq::empty()).inner, n),
    decreases e, 0nat, n,
{
    let inner = pad + "  "@;
    let list = branch_of(e, pad, Seq::empty()).inner;
    let len = e.children.len() as int;
    if n == 0 {
        assert(crate::json::write::elements_text(e.children, inner, 0) + inner =~= inner
            + xml::branches_text(list, 0));
    } else {
        children_are_branches(e, pad, (n - 1) as nat);
        let child = e.children[n - 1];
        let tail = "\n"@ + gap(pad, n as int, len);
        lines_are_space(pad);
        assert(decreases_to!(e => e.children));
        assert(decreases_to!(e.children => e.children[n - 1]));
        assert(roundtrip::is_spellable(child));
        element_is_branch(child, inner);
        text_of_branch(child, inner, tail);
        space_is_content(tail);
        assert(list[n - 1] == branch_of(child, inner, tail));
        line_of_child(
            crate::json::write::elements_text(e.children, inner, (n - 1) as nat),
            inner,
            xml::branches_text(list, (n - 1) as nat),
            body(child, inner),
            "\n"@,
            gap(pad, n as int, len),
        );
    }
}

proof fn events_of_branch(e: crate::json::write::XmlElView, pad: Seq<char>, tail: Seq<char>)
    requires
        roundtrip::is_spellable(e),
    ensures
        xml::branch_events(branch_of(e, pad, tail)) == element_spelled(e, pad) + xml::words_read(
            tail,
        ),
    decreases e, 1nat, 0nat,
{
    let b = branch_of(e, pad, tail);
    let start = xml::EventView::Start(xml::branch_tag(e.name, e.attrs));
    reveal_strlit("\n");
    if e.children.len() > 0 {
        children_have_events(e, pad, tail, e.children.len());
        assert(b.lead.len() > 0);
        assert(seq![start] + xml::words_read(b.lead) =~= seq![start, text_spelled(b.lead)]);
    } else {
        assert(b.inner.len() == 0);
        if e.text is Some {
            assert(seq![start] + xml::words_read(b.lead) + xml::branches_events(b.inner, 0) + seq![
                xml::EventView::End,
            ] =~= seq![start, text_spelled(words_of(e)), xml::EventView::End]);
        }
    }
}

proof fn children_have_events(
    e: crate::json::write::XmlElView,
    pad: Seq<char>,
    tail: Seq<char>,
    n: nat,
)
    requires
        roundtrip::is_spellable(e),
        n <= e.children.len(),
    ensures
        xml::branches_events(branch_of(e, pad, tail).inner, n) == children_spelled(
            e.children,
            pad,
            n,
        ),
    decreases e, 0nat, n,
{
    let list = branch_of(e, pad, tail).inner;
    if n > 0 {
        children_have_events(e, pad, tail, (n - 1) as nat);
        let inner = pad + "  "@;
        let behind = "\n"@ + gap(pad, n as int, e.children.len() as int);
        assert(decreases_to!(e => e.children));
        assert(decreases_to!(e.children => e.children[n - 1]));
        events_of_branch(e.children[n - 1], inner, behind);
        assert(list[n - 1] == branch_of(e.children[n - 1], inner, behind));
        reveal_strlit("\n");
        assert(xml::words_read(behind) =~= seq![text_spelled(behind)]);
        assert(xml::branches_events(list, n) =~= children_spelled(e.children, pad, n));
    }
}

proof fn branch_is_plain(e: crate::json::write::XmlElView, pad: Seq<char>, tail: Seq<char>)
    requires
        roundtrip::is_spellable(e),
    ensures
        xml::is_plain_branch(branch_of(e, pad, tail)),
    decreases e,
{
    let b = branch_of(e, pad, tail);
    assert forall|i: int| 0 <= i < b.inner.len() implies xml::is_plain_branch(
        #[trigger] b.inner[i],
    ) by {
        assert(decreases_to!(e => e.children));
        assert(decreases_to!(e.children => e.children[i]));
        assert(roundtrip::is_spellable(e.children[i]));
        branch_is_plain(
            e.children[i],
            pad + "  "@,
            "\n"@ + gap(pad, i + 1, e.children.len() as int),
        );
    }
}

/// The text of a written document spells out a plain element, and what the parser delivers for it are
/// the tags and texts that were written.
proof fn document_is_spelled(root: crate::json::write::XmlElView)
    requires
        roundtrip::is_spellable(root),
    ensures
        xml::is_plain_branch(branch_of(root, ""@, "\n"@)),
        crate::json::write::document_text(root) == xml::spelled(branch_of(root, ""@, "\n"@)),
        forall|steps: Seq<xml::StepView>|
            #[trigger] xml::reads_as(steps, branch_of(root, ""@, "\n"@)) ==> spell_document(
                steps,
                root,
            ),
{
    reveal_strlit("");
    reveal_strlit("\n");
    branch_is_plain(root, ""@, "\n"@);
    element_is_branch(root, ""@);
    text_of_branch(root, ""@, "\n"@);
    space_is_content("\n"@);
    assert(""@ + body(root, ""@) =~= body(root, ""@));
    events_of_branch(root, ""@, "\n"@);
    assert(xml::words_read("\n"@) =~= seq![text_spelled("\n"@)]);
    let head = seq![xml::EventView::Other, text_spelled("\n"@)];
    assert(head + (element_spelled(root, ""@) + seq![text_spelled("\n"@)]) =~= document_spelled(
        root,
    ));
}

/// Whether steps are what a parser delivers for the text of a written document.
pub open spec fn spell_document(
    steps: Seq<xml::StepView>,
    root: crate::json::write::XmlElView,
) -> bool {
    &&& steps.len() > 0
    &&& steps.last().event is Eof
    &&& xml::events_of(steps.drop_last()) == document_spelled(root)
}

/// Steps that deliver the tags and texts of a written document give the tree that was written, but for
/// white space around texts.
pub proof fn written_document_is_read(
    steps: Seq<xml::StepView>,
    root: crate::json::write::XmlElView,
)
    requires
        spell_document(steps, root),
    ensures
        dom::tree_read(dom::initial(), steps) matches Ok(tree) && roundtrip::is_read_as(root, tree),
{
    let n = (steps.len() - 1) as nat;
    let head = seq![xml::EventView::Other, text_spelled("\n"@)];
    let body = element_spelled(root, ""@);
    let tail = seq![text_spelled("\n"@)];
    let start = dom::initial();
    let tree = tree_spelled(root, ""@);
    reveal_strlit("");
    assert(head =~= seq![xml::EventView::Other] + seq![text_spelled("\n"@)]);
    after_one(start, xml::EventView::Other);
    after_one(start, text_spelled("\n"@));
    after_more(start, seq![xml::EventView::Other], seq![text_spelled("\n"@)]);
    element_is_read(start, root, ""@);
    after_more(start, head, body);
    let full = dom::attached(start, tree);
    after_one(full, text_spelled("\n"@));
    after_more(start, head + body, tail);
    spelled_has_no_end(root, ""@);
    let events = document_spelled(root);
    assert forall|i: int| 0 <= i < n implies !((#[trigger] steps[i]).event is Eof) by {
        assert(xml::events_of(steps.drop_last())[i] == steps[i].event);
        assert(events[i] == steps[i].event);
        if 2 <= i < 2 + body.len() {
            assert(events[i] == body[i - 2]);
        }
    }
    assert(xml::events_of(steps).take(n as int) =~= events);
    events_lead_to_tree(start, steps, n);
    spelled_is_read_as(root, ""@);
}

/// Whether a text is the XML that the JSON form of a document is written as.
pub open spec fn is_written_for(
    readings: read::FloatReadings,
    texts: value::FloatTexts,
    info: schema::XsdView,
    root: dom::DomView,
    source: Seq<char>,
) -> bool {
    source == crate::json::write::document_text(
        crate::json::write::element_written(
            texts,
            info,
            root.name,
            read::element_json(readings, root),
            None,
        ),
    )
}

/// The JSON form of a recoverable document with plain names comes back from the XML text that it is
/// written as.
pub proof fn json_comes_back(
    readings: read::FloatReadings,
    texts: value::FloatTexts,
    info: schema::XsdView,
    root: dom::DomView,
    source: Seq<char>,
)
    requires
        roundtrip::is_recoverable(readings, texts, info, root, None),
        roundtrip::is_plainly_named(root),
        is_written_for(readings, texts, info, root, source),
    ensures
        xml::is_read_as_spelled(source) ==> (dom::tree_of(source) matches Ok(tree)
            && read::document_json(readings, tree) == read::document_json(readings, root)),
{
    let v = read::element_json(readings, root);
    let written = crate::json::write::element_written(texts, info, root.name, v, None);
    roundtrip::written_is_spellable(readings, texts, info, root);
    document_is_spelled(written);
    if xml::is_read_as_spelled(source) {
        let b = branch_of(written, ""@, "\n"@);
        assert(source == xml::spelled(b));
        assert(xml::reads_as(xml::steps_of(source), b));
        written_document_is_read(xml::steps_of(source), written);
        if let Ok(tree) = dom::tree_of(source) {
            roundtrip::document_comes_back(readings, texts, info, root, tree);
        }
    }
}

} // verus!
