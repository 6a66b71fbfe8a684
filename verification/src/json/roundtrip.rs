//! What writing the JSON form of a document and reading it back gives.
//!
//! The XML that a JSON value is written as has the same JSON form again, as long as the pairs that the
//! document came to can be told apart in it and its numbers are written so that they are read back. A
//! document that keeps to the schema is of that kind, and so is one with attributes that no schema
//! declares, where they stand behind the declared ones of an element without text.
use vstd::prelude::*;
use crate::float::Float64;
use crate::json::dom;
use crate::json::read;
use crate::json::schema;
use crate::json::value;
use crate::text;
use crate::xml;

verus! {

/// The tree that a written element is read back as.
pub open spec fn tree_written(e: crate::json::write::XmlElView) -> dom::DomView
    decreases e,
{
    dom::DomView {
        name: e.name,
        attrs: e.attrs,
        text: match e.text {
            Some(t) => t,
            None => Seq::empty(),
        },
        children: Seq::new(
            e.children.len(),
            |i: int|
                if 0 <= i < e.children.len() {
                    tree_written(e.children[i])
                } else {
                    arbitrary()
                },
        ),
    }
}

/// Whether a written element can be spelled out plainly: the names in it are plain, no two attributes of
/// an element have the same, and no text is empty.
pub open spec fn is_spellable(e: crate::json::write::XmlElView) -> bool
    decreases e,
{
    &&& xml::is_plain_name(e.name)
    &&& xml::are_plain_attributes(e.attrs)
    &&& e.text matches Some(words) ==> words.len() > 0
    &&& forall|i: int| 0 <= i < e.children.len() ==> is_spellable(#[trigger] e.children[i])
}

/// Whether the names in a document are plain, and no two attributes of an element have the same.
pub open spec fn is_plainly_named(el: dom::DomView) -> bool
    decreases el,
{
    &&& xml::is_plain_name(el.name)
    &&& xml::are_plain_attributes(el.attrs)
    &&& forall|i: int| 0 <= i < el.children.len() ==> is_plainly_named(#[trigger] el.children[i])
}

/// Whether a number is written so that it is read back, with nothing to be trimmed.
pub open spec fn is_read_back(
    readings: read::FloatReadings,
    texts: value::FloatTexts,
    f: Float64,
) -> bool {
    let shown = value::float_text(texts, f);
    shown.len() > 0 && text::trimmed(shown) == shown && read::numeric(readings, shown)
        == value::JsonView::Float(f)
}

/// Whether the number that a text stands for, if any, is written so that it is read back.
pub open spec fn settles(
    readings: read::FloatReadings,
    texts: value::FloatTexts,
    words: Seq<char>,
) -> bool {
    read::numeric(readings, words) matches value::JsonView::Float(f) ==> is_read_back(
        readings,
        texts,
        f,
    )
}

/// Whether an element has neither attributes nor children.
pub open spec fn is_plain(el: dom::DomView) -> bool {
    el.attrs.len() == 0 && el.children.len() == 0
}

/// Whether an element keeps to the schema: its attributes are declared, an element of a type that has
/// attributes only is no bare text, and a child that is bare text or empty does not go by the name of an
/// attribute. The numbers in it are written so that they are read back.
pub open spec fn keeps_to_schema(
    readings: read::FloatReadings,
    texts: value::FloatTexts,
    info: schema::XsdView,
    el: dom::DomView,
    parent: Option<Seq<char>>,
) -> bool
    decreases el,
{
    let mine = crate::json::write::resolved_type(info, el.name, parent);
    let known = crate::json::write::known_attrs(info, mine);
    &&& settles(readings, texts, text::trimmed(el.text))
    &&& forall|i: int|
        0 <= i < el.attrs.len() ==> known.contains((#[trigger] el.attrs[i]).0) && el.attrs[i].0
            != "$text"@ && settles(readings, texts, el.attrs[i].1)
    &&& is_plain(el) && read::text_value(el.text) is Some ==> !(mine is Some && info.is_attr_only(
        mine->0,
    ))
    &&& forall|i: int|
        0 <= i < el.children.len() ==> {
            let child = #[trigger] el.children[i];
            &&& child.name != "$text"@
            &&& is_plain(child) ==> !known.contains(child.name)
            &&& keeps_to_schema(readings, texts, info, child, mine)
        }
}

/// The pairs of the object that an element with attributes or children is in JSON.
pub open spec fn object_pairs(readings: read::FloatReadings, el: dom::DomView) -> Seq<
    (Seq<char>, value::JsonView),
> {
    read::attribute_pairs(readings, el.attrs) + read::text_pairs(readings, el.text)
        + read::child_pairs(readings, el.children, el.children.len())
}

/// Where a pair of an object goes when it is written: to the attributes, to the text, or to the child
/// elements behind both.
pub open spec fn place(known: Seq<Seq<char>>, pair: (Seq<char>, value::JsonView)) -> int {
    if pair.0 == "$text"@ {
        1
    } else if crate::json::write::is_attribute(known, pair) {
        0
    } else {
        2
    }
}

/// Whether pairs stand in the order in which what they are written as is read again.
pub open spec fn is_in_order(
    known: Seq<Seq<char>>,
    pairs: Seq<(Seq<char>, value::JsonView)>,
) -> bool {
    forall|i: int, j: int|
        0 <= i < j < pairs.len() ==> place(known, #[trigger] pairs[i]) <= place(
            known,
            #[trigger] pairs[j],
        )
}

/// Whether the pairs of an element can be told apart once they are written. They stand in the order of
/// writing, those that become child elements have different names, and so have those that become
/// attributes without having been such. None that is empty becomes an attribute, and no attribute
/// that becomes a child element has white space at its ends or holds nothing.
pub open spec fn are_told_apart(
    known: Seq<Seq<char>>,
    attrs: Seq<dom::Pair>,
    pairs: Seq<(Seq<char>, value::JsonView)>,
) -> bool {
    &&& is_in_order(known, pairs)
    &&& forall|i: int, j: int|
        0 <= i < j < pairs.len() && place(known, #[trigger] pairs[i]) == place(
            known,
            #[trigger] pairs[j],
        ) && (attrs.len() <= j || place(known, pairs[j]) == 2) ==> pairs[i].0 != pairs[j].0
    &&& forall|i: int|
        0 <= i < pairs.len() && place(known, #[trigger] pairs[i]) == 0 ==> !(pairs[i].1 is Null)
    &&& forall|i: int|
        0 <= i < attrs.len() && place(known, #[trigger] pairs[i]) == 2 ==> pairs[i].1 is Float || (
        attrs[i].1.len() > 0 && text::trimmed(attrs[i].1) == attrs[i].1)
}

/// Whether no other child has the name of the child at a place.
pub open spec fn is_alone(children: Seq<dom::DomView>, at: int) -> bool {
    forall|k: int|
        0 <= k < children.len() && k != at ==> (#[trigger] children[k]).name != children[at].name
}

/// Whether what an element is in JSON can be recovered from what that is written as. The pairs of the
/// object that it is can be told apart, and the numbers in it are written so that they are read back.
/// An element of a type that has attributes only is no bare text, unless it is the only child of its
/// name.
pub open spec fn is_recoverable(
    readings: read::FloatReadings,
    texts: value::FloatTexts,
    info: schema::XsdView,
    el: dom::DomView,
    parent: Option<Seq<char>>,
) -> bool
    decreases el,
{
    let mine = crate::json::write::resolved_type(info, el.name, parent);
    let known = crate::json::write::known_attrs(info, mine);
    &&& settles(readings, texts, text::trimmed(el.text))
    &&& forall|i: int|
        0 <= i < el.attrs.len() ==> (#[trigger] el.attrs[i]).0 != "$text"@ && settles(
            readings,
            texts,
            el.attrs[i].1,
        )
    &&& if is_plain(el) {
        read::text_value(el.text) is Some ==> !(mine is Some && info.is_attr_only(mine->0))
    } else {
        are_told_apart(known, el.attrs, object_pairs(readings, el))
    }
    &&& forall|i: int|
        0 <= i < el.children.len() ==> {
            let child = #[trigger] el.children[i];
            &&& child.name != "$text"@
            &&& if is_plain(child) && is_alone(el.children, i) {
                settles(readings, texts, text::trimmed(child.text))
            } else {
                is_recoverable(readings, texts, info, child, mine)
            }
        }
}

/// Whether an element has the same JSON form once it has been written from it. What is written can be
/// spelled out plainly, where the names in the element are plain.
pub open spec fn comes_back(
    readings: read::FloatReadings,
    texts: value::FloatTexts,
    info: schema::XsdView,
    el: dom::DomView,
    parent: Option<Seq<char>>,
) -> bool {
    let v = read::element_json(readings, el);
    gives_back(
        readings,
        is_plainly_named(el),
        crate::json::write::element_written(texts, info, el.name, v, parent),
        v,
    )
}

/// Whether a written element is read back as a value, and can be spelled out plainly where that is
/// asked.
pub open spec fn gives_back(
    readings: read::FloatReadings,
    plain: bool,
    e: crate::json::write::XmlElView,
    v: value::JsonView,
) -> bool {
    read::element_json(readings, tree_written(e)) == v && (plain ==> is_spellable(e))
}

proof fn scalar_comes_back(
    readings: read::FloatReadings,
    texts: value::FloatTexts,
    words: Seq<char>,
)
    requires
        settles(readings, texts, words),
    ensures
        ({
            let v = read::numeric(readings, words);
            &&& crate::json::write::is_scalar(v)
            &&& read::numeric(readings, crate::json::write::scalar_text(texts, v)) == v
            &&& text::trimmed(words) == words && words.len() > 0 ==> text::trimmed(
                crate::json::write::scalar_text(texts, v),
            ) == crate::json::write::scalar_text(texts, v) && crate::json::write::scalar_text(texts, v).len() > 0
        }),
{
}

proof fn leaf_comes_back(
    readings: read::FloatReadings,
    texts: value::FloatTexts,
    el: dom::DomView,
)
    requires
        is_plain(el),
        settles(readings, texts, text::trimmed(el.text)),
    ensures
        ({
            let v = read::element_json(readings, el);
            gives_back(
                readings,
                is_plainly_named(el),
                crate::json::write::leaf(texts, el.name, v),
                v,
            )
        }),
        !(read::element_json(readings, el) is Arr),
        !(read::element_json(readings, el) is Obj),
{
    let words = text::trimmed(el.text);
    text::trimmed_is_stable(el.text);
    let v = read::element_json(readings, el);
    let back = tree_written(crate::json::write::leaf(texts, el.name, v));
    assert(is_plain(back));
    if words.len() > 0 {
        scalar_comes_back(readings, texts, words);
    } else {
        assert(text::trimmed(back.text) == back.text);
    }
}

/// The element that an attribute is written as where no attribute of its name is declared.
proof fn loose_attribute_comes_back(
    readings: read::FloatReadings,
    texts: value::FloatTexts,
    pair: dom::Pair,
    plain: bool,
)
    requires
        settles(readings, texts, pair.1),
        read::numeric(readings, pair.1) is Float || (pair.1.len() > 0 && text::trimmed(pair.1)
            == pair.1),
        plain ==> xml::is_plain_name(pair.0),
    ensures
        gives_back(
            readings,
            plain,
            crate::json::write::leaf(texts, pair.0, read::numeric(readings, pair.1)),
            read::numeric(readings, pair.1),
        ),
{
    scalar_comes_back(readings, texts, pair.1);
    let v = read::numeric(readings, pair.1);
    let back = tree_written(crate::json::write::leaf(texts, pair.0, v));
    assert(is_plain(back));
    assert(text::trimmed(back.text) == back.text && back.text.len() > 0);
}

// Names and values of children.

/// The names and the JSON forms of children.
pub open spec fn entries(readings: read::FloatReadings, children: Seq<dom::DomView>) -> Seq<
    (Seq<char>, value::JsonView),
> {
    children.map_values(|c: dom::DomView| (c.name, read::element_json(readings, c)))
}

/// The values under a name among the first `n` entries.
pub open spec fn values_under(
    list: Seq<(Seq<char>, value::JsonView)>,
    name: Seq<char>,
    n: nat,
) -> Seq<value::JsonView>
    decreases n,
{
    if n == 0 || n > list.len() {
        Seq::empty()
    } else {
        let before = values_under(list, name, (n - 1) as nat);
        if list[n - 1].0 == name {
            before.push(list[n - 1].1)
        } else {
            before
        }
    }
}

/// Whether no earlier entry has the name of the entry at a place.
pub open spec fn is_first(list: Seq<(Seq<char>, value::JsonView)>, at: int) -> bool {
    forall|k: int| 0 <= k < at ==> (#[trigger] list[k]).0 != list[at].0
}

/// The first `n` entries with all values of one name gathered where the first of them stands.
pub open spec fn grouped(list: Seq<(Seq<char>, value::JsonView)>, n: nat) -> Seq<
    (Seq<char>, value::JsonView),
>
    decreases n,
{
    if n == 0 || n > list.len() {
        Seq::empty()
    } else {
        let before = grouped(list, (n - 1) as nat);
        let name = list[n - 1].0;
        if is_first(list, n - 1) {
            before.push((name, read::gathered(values_under(list, name, list.len()))))
        } else {
            before
        }
    }
}

proof fn values_are_under(
    readings: read::FloatReadings,
    children: Seq<dom::DomView>,
    name: Seq<char>,
    n: nat,
)
    ensures
        read::values_named(readings, children, name, n) == values_under(
            entries(readings, children),
            name,
            n,
        ),
    decreases n,
{
    if 0 < n <= children.len() {
        values_are_under(readings, children, name, (n - 1) as nat);
        assert(entries(readings, children)[n - 1] == (
            children[n - 1].name,
            read::element_json(readings, children[n - 1]),
        ));
    }
}

proof fn pairs_are_grouped(readings: read::FloatReadings, children: Seq<dom::DomView>, n: nat)
    ensures
        read::child_pairs(readings, children, n) == grouped(entries(readings, children), n),
    decreases n,
{
    if 0 < n <= children.len() {
        let list = entries(readings, children);
        pairs_are_grouped(readings, children, (n - 1) as nat);
        assert(list.len() == children.len());
        assert(forall|k: int| 0 <= k < children.len() ==> (#[trigger] list[k]).0 == children[k].name);
        assert(list[n - 1].0 == children[n - 1].name);
        if is_first(list, n - 1) {
            assert forall|k: int| 0 <= k < n - 1 implies (#[trigger] children[k]).name
                != children[n - 1].name by {
                assert(list[k].0 == children[k].name);
            }
        } else {
            let k = choose|k: int| 0 <= k < n - 1 && (#[trigger] list[k]).0 == list[n - 1].0;
            assert(children[k].name == list[k].0);
        }
        values_are_under(readings, children, children[n - 1].name, children.len());
    }
}

/// The entries that a pair stands for.
pub open spec fn spread(pair: (Seq<char>, value::JsonView)) -> Seq<(Seq<char>, value::JsonView)> {
    match pair.1 {
        value::JsonView::Arr(items) => items.map_values(|v: value::JsonView| (pair.0, v)),
        _ => seq![pair],
    }
}

/// The entries that the first `n` pairs stand for.
pub open spec fn flattened(pairs: Seq<(Seq<char>, value::JsonView)>, n: nat) -> Seq<
    (Seq<char>, value::JsonView),
>
    decreases n,
{
    if n == 0 || n > pairs.len() {
        Seq::empty()
    } else {
        flattened(pairs, (n - 1) as nat) + spread(pairs[n - 1])
    }
}

/// Whether pairs may come of grouping: each name once, and two items or more in each list, none of
/// them a list.
pub open spec fn is_grouped(pairs: Seq<(Seq<char>, value::JsonView)>) -> bool {
    &&& forall|i: int, j: int|
        0 <= i < j < pairs.len() ==> (#[trigger] pairs[i]).0 != (#[trigger] pairs[j]).0
    &&& forall|i: int|
        0 <= i < pairs.len() ==> ((#[trigger] pairs[i]).1 matches value::JsonView::Arr(items)
            ==> items.len() >= 2)
}

proof fn flattened_names(pairs: Seq<(Seq<char>, value::JsonView)>, n: nat)
    requires
        n <= pairs.len(),
    ensures
        forall|k: int|
            0 <= k < flattened(pairs, n).len() ==> exists|j: int|
                0 <= j < n && (#[trigger] pairs[j]).0 == (#[trigger] flattened(pairs, n)[k]).0,
    decreases n,
{
    if n > 0 {
        flattened_names(pairs, (n - 1) as nat);
        let before = flattened(pairs, (n - 1) as nat);
        let all = flattened(pairs, n);
        assert forall|k: int| 0 <= k < all.len() implies exists|j: int|
            0 <= j < n && (#[trigger] pairs[j]).0 == (#[trigger] all[k]).0 by {
            if k < before.len() {
                assert(all[k] == before[k]);
                let j = choose|j: int| 0 <= j < n - 1 && (#[trigger] pairs[j]).0 == before[k].0;
                assert(pairs[j].0 == all[k].0);
            } else {
                assert(all[k] == spread(pairs[n - 1])[k - before.len()]);
                assert(pairs[n - 1].0 == all[k].0);
            }
        }
    }
}

/// What follows under other names changes no values.
proof fn values_before(
    list: Seq<(Seq<char>, value::JsonView)>,
    more: Seq<(Seq<char>, value::JsonView)>,
    name: Seq<char>,
    n: nat,
)
    requires
        n <= list.len() + more.len(),
        forall|k: int| 0 <= k < more.len() ==> (#[trigger] more[k]).0 != name,
    ensures
        values_under(list + more, name, n) == values_under(
            list,
            name,
            if n <= list.len() {
                n
            } else {
                list.len()
            },
        ),
    decreases n,
{
    if n > 0 {
        values_before(list, more, name, (n - 1) as nat);
        if n <= list.len() {
            assert((list + more)[n - 1] == list[n - 1]);
        } else {
            assert((list + more)[n - 1] == more[n - 1 - list.len()]);
        }
    }
}

/// The values under a name that only what follows has.
proof fn values_after(
    list: Seq<(Seq<char>, value::JsonView)>,
    more: Seq<(Seq<char>, value::JsonView)>,
    name: Seq<char>,
    n: nat,
)
    requires
        n <= more.len(),
        forall|k: int| 0 <= k < list.len() ==> (#[trigger] list[k]).0 != name,
        forall|k: int| 0 <= k < more.len() ==> (#[trigger] more[k]).0 == name,
    ensures
        values_under(list + more, name, list.len() + n) == more.take(n as int).map_values(
            |p: (Seq<char>, value::JsonView)| p.1,
        ),
    decreases n,
{
    let values = |p: (Seq<char>, value::JsonView)| p.1;
    if n == 0 {
        no_values(list, more, name, list.len());
        assert(more.take(0).map_values(values) =~= Seq::empty());
    } else {
        values_after(list, more, name, (n - 1) as nat);
        assert((list + more)[list.len() + n - 1] == more[n - 1]);
        assert(more.take(n as int).map_values(values) =~= more.take(n - 1).map_values(values).push(
            more[n - 1].1,
        ));
    }
}

proof fn no_values(
    list: Seq<(Seq<char>, value::JsonView)>,
    more: Seq<(Seq<char>, value::JsonView)>,
    name: Seq<char>,
    n: nat,
)
    requires
        n <= list.len(),
        forall|k: int| 0 <= k < list.len() ==> (#[trigger] list[k]).0 != name,
    ensures
        values_under(list + more, name, n) == Seq::<value::JsonView>::empty(),
    decreases n,
{
    if n > 0 {
        no_values(list, more, name, (n - 1) as nat);
        assert((list + more)[n - 1] == list[n - 1]);
    }
}

/// Grouping what stands before a list of entries under other names.
proof fn grouped_before(
    list: Seq<(Seq<char>, value::JsonView)>,
    more: Seq<(Seq<char>, value::JsonView)>,
    n: nat,
)
    requires
        n <= list.len(),
        forall|k: int, j: int|
            0 <= k < list.len() && 0 <= j < more.len() ==> (#[trigger] list[k]).0 != (
            #[trigger] more[j]).0,
    ensures
        grouped(list + more, n) == grouped(list, n),
    decreases n,
{
    if n > 0 {
        let all = list + more;
        grouped_before(list, more, (n - 1) as nat);
        assert(forall|k: int| 0 <= k < n ==> all[k] == list[k]);
        if is_first(list, n - 1) {
            assert(is_first(all, n - 1));
        } else {
            let k = choose|k: int| 0 <= k < n - 1 && (#[trigger] list[k]).0 == list[n - 1].0;
            assert(all[k].0 == all[n - 1].0);
        }
        let name = list[n - 1].0;
        assert forall|k: int| 0 <= k < more.len() implies (#[trigger] more[k]).0 != name by {
            assert(list[n - 1].0 != more[k].0);
        }
        values_before(list, more, name, all.len());
    }
}

/// Grouping a list of entries under one new name.
proof fn grouped_after(
    list: Seq<(Seq<char>, value::JsonView)>,
    more: Seq<(Seq<char>, value::JsonView)>,
    name: Seq<char>,
    n: nat,
)
    requires
        0 < n <= more.len(),
        forall|k: int| 0 <= k < list.len() ==> (#[trigger] list[k]).0 != name,
        forall|k: int| 0 <= k < more.len() ==> (#[trigger] more[k]).0 == name,
    ensures
        grouped(list + more, list.len() + n) == grouped(list, list.len()).push(
            (name, read::gathered(more.map_values(|p: (Seq<char>, value::JsonView)| p.1))),
        ),
    decreases n,
{
    let all = list + more;
    let at = list.len() + n - 1;
    assert(all[at] == more[n - 1]);
    if n == 1 {
        assert forall|k: int, j: int|
            0 <= k < list.len() && 0 <= j < more.len() implies (#[trigger] list[k]).0 != (
        #[trigger] more[j]).0 by {}
        grouped_before(list, more, list.len());
        assert forall|k: int| 0 <= k < at implies (#[trigger] all[k]).0 != all[at].0 by {
            assert(all[k] == list[k]);
        }
        assert(is_first(all, at));
        values_after(list, more, name, more.len());
        assert(more.take(more.len() as int) =~= more);
    } else {
        grouped_after(list, more, name, (n - 1) as nat);
        assert(all[at - 1] == more[n - 2]);
        assert(!is_first(all, at));
    }
}

/// Grouping the entries that grouped pairs stand for gives the pairs.
proof fn grouping_undoes_flattening(pairs: Seq<(Seq<char>, value::JsonView)>, n: nat)
    requires
        is_grouped(pairs),
        n <= pairs.len(),
    ensures
        grouped(flattened(pairs, n), flattened(pairs, n).len()) == pairs.take(n as int),
    decreases n,
{
    if n == 0 {
        assert(pairs.take(0) =~= Seq::empty());
    } else {
        let list = flattened(pairs, (n - 1) as nat);
        let pair = pairs[n - 1];
        let more = spread(pair);
        grouping_undoes_flattening(pairs, (n - 1) as nat);
        flattened_names(pairs, (n - 1) as nat);
        assert forall|k: int| 0 <= k < list.len() implies (#[trigger] list[k]).0 != pair.0 by {
            let j = choose|j: int| 0 <= j < n - 1 && (#[trigger] pairs[j]).0 == list[k].0;
            assert(pairs[j].0 != pairs[n - 1].0);
        }
        grouped_after(list, more, pair.0, more.len());
        let values = more.map_values(|p: (Seq<char>, value::JsonView)| p.1);
        match pair.1 {
            value::JsonView::Arr(items) => {
                assert(values =~= items);
            },
            _ => {
                assert(values =~= seq![pair.1]);
            },
        }
        assert(read::gathered(values) == pair.1);
        assert((list + more).len() == list.len() + more.len());
        assert(pairs.take(n as int) =~= pairs.take(n - 1).push(pair));
    }
}

/// Whether all values of a list of entries are no lists.
pub open spec fn is_flat(list: Seq<(Seq<char>, value::JsonView)>) -> bool {
    forall|k: int| 0 <= k < list.len() ==> !((#[trigger] list[k]).1 is Arr)
}

/// Whether an entry stands in a list.
pub open spec fn holds(
    list: Seq<(Seq<char>, value::JsonView)>,
    entry: (Seq<char>, value::JsonView),
) -> bool {
    exists|k: int| 0 <= k < list.len() && #[trigger] list[k] == entry
}

proof fn values_stand_in(list: Seq<(Seq<char>, value::JsonView)>, name: Seq<char>, n: nat)
    requires
        n <= list.len(),
    ensures
        forall|k: int|
            0 <= k < values_under(list, name, n).len() ==> holds(
                list,
                (name, #[trigger] values_under(list, name, n)[k]),
            ),
        forall|j: int|
            0 <= j < n && (#[trigger] list[j]).0 == name ==> values_under(list, name, n).len() > 0,
    decreases n,
{
    if n > 0 {
        values_stand_in(list, name, (n - 1) as nat);
        let before = values_under(list, name, (n - 1) as nat);
        let all = values_under(list, name, n);
        assert forall|k: int| 0 <= k < all.len() implies holds(list, (name, #[trigger] all[k])) by {
            if k < before.len() {
                assert(all[k] == before[k]);
            } else {
                assert(list[n - 1] == (name, all[k]));
            }
        }
    }
}

/// What grouping gives: each name once, lists of two or more, and nothing that was not there.
proof fn grouping_groups(list: Seq<(Seq<char>, value::JsonView)>, n: nat)
    requires
        is_flat(list),
        n <= list.len(),
    ensures
        is_grouped(grouped(list, n)),
        n > 0 ==> grouped(list, n).len() > 0,
        forall|i: int|
            0 <= i < grouped(list, n).len() ==> stands_for(list, #[trigger] grouped(list, n)[i]),
        forall|i: int|
            0 <= i < grouped(list, n).len() ==> exists|j: int|
                0 <= j < n && (#[trigger] list[j]).0 == (#[trigger] grouped(list, n)[i]).0,
    decreases n,
{
    if n > 0 {
        grouping_groups(list, (n - 1) as nat);
        let before = grouped(list, (n - 1) as nat);
        let all = grouped(list, n);
        let name = list[n - 1].0;
        if is_first(list, n - 1) {
            let values = values_under(list, name, list.len());
            let pair = (name, read::gathered(values));
            values_stand_in(list, name, list.len());
            assert(values.len() > 0);
            assert(stands_for(list, pair)) by {
                let more = spread(pair);
                assert forall|k: int| 0 <= k < more.len() implies holds(list, #[trigger] more[k])
                    && more[k].0 == pair.0 by {
                    if values.len() == 1 {
                        assert(holds(list, (name, values[0])));
                        let at = choose|at: int|
                            0 <= at < list.len() && #[trigger] list[at] == (name, values[0]);
                        assert(!(list[at].1 is Arr));
                    } else {
                        assert(holds(list, (name, values[k])));
                    }
                }
            }
            if values.len() == 1 {
                assert(holds(list, (name, values[0])));
            }
            assert forall|i: int, j: int| 0 <= i < j < all.len() implies (#[trigger] all[i]).0 != (
            #[trigger] all[j]).0 by {
                if j == before.len() {
                    let k = choose|k: int| 0 <= k < n - 1 && (#[trigger] list[k]).0 == before[i].0;
                    assert(list[k].0 != list[n - 1].0);
                } else {
                    assert(all[i] == before[i] && all[j] == before[j]);
                }
            }
            assert forall|i: int| 0 <= i < all.len() implies ((#[trigger] all[i]).1 matches
                value::JsonView::Arr(items) ==> items.len() >= 2) by {
                if i < before.len() {
                    assert(all[i] == before[i]);
                } else if values.len() == 1 {
                    let at = choose|at: int|
                        0 <= at < list.len() && #[trigger] list[at] == (name, values[0]);
                    assert(!(list[at].1 is Arr));
                }
            }
            assert forall|i: int| 0 <= i < all.len() implies stands_for(list, #[trigger] all[i]) by {
                if i < before.len() {
                    assert(all[i] == before[i]);
                }
            }
            assert forall|i: int| 0 <= i < all.len() implies exists|j: int|
                0 <= j < n && (#[trigger] list[j]).0 == (#[trigger] all[i]).0 by {
                if i < before.len() {
                    assert(all[i] == before[i]);
                    let j = choose|j: int| 0 <= j < n - 1 && (#[trigger] list[j]).0 == before[i].0;
                    assert(list[j].0 == all[i].0);
                } else {
                    assert(list[n - 1].0 == all[i].0);
                }
            }
        } else {
            let k = choose|k: int| 0 <= k < n - 1 && (#[trigger] list[k]).0 == list[n - 1].0;
            assert(n - 1 > 0);
            assert forall|i: int| 0 <= i < all.len() implies exists|j: int|
                0 <= j < n && (#[trigger] list[j]).0 == (#[trigger] all[i]).0 by {
                let j = choose|j: int| 0 <= j < n - 1 && (#[trigger] list[j]).0 == before[i].0;
                assert(list[j].0 == all[i].0);
            }
        }
    }
}

/// Whether all that a pair stands for is in a list of entries, under its name.
pub open spec fn stands_for(
    list: Seq<(Seq<char>, value::JsonView)>,
    pair: (Seq<char>, value::JsonView),
) -> bool {
    forall|k: int|
        0 <= k < spread(pair).len() ==> holds(list, #[trigger] spread(pair)[k]) && spread(pair)[k].0
            == pair.0
}

/// Each pair of a grouping has all values of its name.
proof fn grouped_values(list: Seq<(Seq<char>, value::JsonView)>, n: nat)
    requires
        n <= list.len(),
    ensures
        forall|i: int|
            0 <= i < grouped(list, n).len() ==> (#[trigger] grouped(list, n)[i]).1
                == read::gathered(values_under(list, grouped(list, n)[i].0, list.len())),
    decreases n,
{
    if n > 0 {
        grouped_values(list, (n - 1) as nat);
        let before = grouped(list, (n - 1) as nat);
        let all = grouped(list, n);
        assert forall|i: int| 0 <= i < all.len() implies (#[trigger] all[i]).1 == read::gathered(
            values_under(list, all[i].0, list.len()),
        ) by {
            if i < before.len() {
                assert(all[i] == before[i]);
            }
        }
    }
}

/// A name that one entry has is that of one value.
proof fn value_of_one(list: Seq<(Seq<char>, value::JsonView)>, at: int, n: nat)
    requires
        0 <= at < list.len(),
        n <= list.len(),
        forall|k: int| 0 <= k < list.len() && k != at ==> (#[trigger] list[k]).0 != list[at].0,
    ensures
        values_under(list, list[at].0, n) == (if n <= at {
            Seq::<value::JsonView>::empty()
        } else {
            seq![list[at].1]
        }),
    decreases n,
{
    if n > 0 {
        value_of_one(list, at, (n - 1) as nat);
    }
}

// One element.

/// Whether a pair of an object is written as child elements that have its values again.
spec fn child_comes_back(
    readings: read::FloatReadings,
    texts: value::FloatTexts,
    info: schema::XsdView,
    known: Seq<Seq<char>>,
    mine: Option<Seq<char>>,
    plain: bool,
    pair: (Seq<char>, value::JsonView),
) -> bool {
    &&& crate::json::write::is_child(known, pair)
    &&& match pair.1 {
        value::JsonView::Arr(items) => forall|k: int|
            0 <= k < items.len() ==> gives_back(
                readings,
                plain,
                crate::json::write::element_written(
                    texts,
                    info,
                    pair.0,
                    #[trigger] items[k],
                    mine,
                ),
                items[k],
            ),
        value::JsonView::Obj(_) => gives_back(
            readings,
            plain,
            crate::json::write::element_written(texts, info, pair.0, pair.1, mine),
            pair.1,
        ),
        _ => gives_back(
            readings,
            plain,
            crate::json::write::leaf(texts, pair.0, pair.1),
            pair.1,
        ),
    }
}

/// Whether all written elements of a list can be spelled out plainly.
pub open spec fn all_spellable(list: Seq<crate::json::write::XmlElView>) -> bool {
    forall|i: int| 0 <= i < list.len() ==> is_spellable(#[trigger] list[i])
}

/// The trees that written elements are read back as.
pub open spec fn trees_written(list: Seq<crate::json::write::XmlElView>) -> Seq<dom::DomView> {
    list.map_values(|e: crate::json::write::XmlElView| tree_written(e))
}

proof fn written_name(
    texts: value::FloatTexts,
    info: schema::XsdView,
    tag: Seq<char>,
    v: value::JsonView,
    parent: Option<Seq<char>>,
)
    ensures
        crate::json::write::element_written(texts, info, tag, v, parent).name == tag,
    decreases v,
{
    if let value::JsonView::Arr(items) = v {
        if items.len() > 0 {
            assert(decreases_to!(v => v->Arr_0));
            assert(decreases_to!(items => items[items.len() - 1]));
            written_name(texts, info, tag, items[items.len() - 1], parent);
        }
    }
}

proof fn items_come_back(
    readings: read::FloatReadings,
    texts: value::FloatTexts,
    info: schema::XsdView,
    known: Seq<Seq<char>>,
    mine: Option<Seq<char>>,
    plain: bool,
    pair: (Seq<char>, value::JsonView),
    items: Seq<value::JsonView>,
    n: nat,
)
    requires
        pair.1 == value::JsonView::Arr(items),
        child_comes_back(readings, texts, info, known, mine, plain, pair),
        n <= items.len(),
    ensures
        entries(
            readings,
            trees_written(
                crate::json::write::items_written(texts, info, pair.0, items, n, mine),
            ),
        ) == spread(pair).take(n as int),
        plain ==> all_spellable(
            crate::json::write::items_written(texts, info, pair.0, items, n, mine),
        ),
    decreases n,
{
    let all = crate::json::write::items_written(texts, info, pair.0, items, n, mine);
    if n == 0 {
        assert(entries(readings, trees_written(all)) =~= spread(pair).take(0));
    } else {
        items_come_back(readings, texts, info, known, mine, plain, pair, items, (n - 1) as nat);
        let before = crate::json::write::items_written(
            texts,
            info,
            pair.0,
            items,
            (n - 1) as nat,
            mine,
        );
        let last = crate::json::write::element_written(texts, info, pair.0, items[n - 1], mine);
        written_name(texts, info, pair.0, items[n - 1], mine);
        assert(tree_written(last).name == pair.0);
        assert(entries(readings, trees_written(all)) =~= entries(
            readings,
            trees_written(before),
        ).push((pair.0, items[n - 1])));
        assert(spread(pair).take(n as int) =~= spread(pair).take(n - 1).push(
            (pair.0, items[n - 1]),
        ));
    }
}

/// The children that the pairs behind the attributes and the text are written as.
proof fn children_come_back(
    readings: read::FloatReadings,
    texts: value::FloatTexts,
    info: schema::XsdView,
    known: Seq<Seq<char>>,
    mine: Option<Seq<char>>,
    plain: bool,
    head: Seq<(Seq<char>, value::JsonView)>,
    pairs: Seq<(Seq<char>, value::JsonView)>,
    n: nat,
)
    requires
        n <= pairs.len(),
        forall|i: int|
            0 <= i < head.len() ==> !crate::json::write::is_child(known, #[trigger] head[i]),
        forall|i: int|
            0 <= i < pairs.len() ==> child_comes_back(
                readings,
                texts,
                info,
                known,
                mine,
                plain,
                #[trigger] pairs[i],
            ),
    ensures
        entries(
            readings,
            trees_written(
                crate::json::write::children_written(
                    texts,
                    info,
                    known,
                    head + pairs,
                    head.len() + n,
                    mine,
                ),
            ),
        ) == flattened(pairs, n),
        plain ==> all_spellable(
            crate::json::write::children_written(
                texts,
                info,
                known,
                head + pairs,
                head.len() + n,
                mine,
            ),
        ),
    decreases n,
{
    let all = head + pairs;
    let written = crate::json::write::children_written(
        texts,
        info,
        known,
        all,
        head.len() + n,
        mine,
    );
    if n == 0 {
        no_children(texts, info, known, mine, head, pairs, head.len());
        assert(entries(readings, trees_written(written)) =~= Seq::empty());
    } else {
        children_come_back(
            readings,
            texts,
            info,
            known,
            mine,
            plain,
            head,
            pairs,
            (n - 1) as nat,
        );
        let before = crate::json::write::children_written(
            texts,
            info,
            known,
            all,
            (head.len() + n - 1) as nat,
            mine,
        );
        let pair = pairs[n - 1];
        assert(all[head.len() + n - 1] == pair);
        assert(child_comes_back(readings, texts, info, known, mine, plain, pair));
        match pair.1 {
            value::JsonView::Arr(items) => {
                let more = crate::json::write::items_written(
                    texts,
                    info,
                    pair.0,
                    items,
                    items.len(),
                    mine,
                );
                items_come_back(readings, texts, info, known, mine, plain, pair, items, items.len());
                assert(spread(pair).take(items.len() as int) =~= spread(pair));
                assert(entries(readings, trees_written(before + more)) =~= entries(
                    readings,
                    trees_written(before),
                ) + entries(readings, trees_written(more)));
            },
            value::JsonView::Obj(_) => {
                let one = crate::json::write::element_written(texts, info, pair.0, pair.1, mine);
                written_name(texts, info, pair.0, pair.1, mine);
                assert(tree_written(one).name == pair.0);
                assert(entries(readings, trees_written(before.push(one))) =~= entries(
                    readings,
                    trees_written(before),
                ) + spread(pair));
            },
            _ => {
                let one = crate::json::write::leaf(texts, pair.0, pair.1);
                assert(tree_written(one).name == pair.0);
                assert(entries(readings, trees_written(before.push(one))) =~= entries(
                    readings,
                    trees_written(before),
                ) + spread(pair));
            },
        }
    }
}

proof fn no_children(
    texts: value::FloatTexts,
    info: schema::XsdView,
    known: Seq<Seq<char>>,
    mine: Option<Seq<char>>,
    head: Seq<(Seq<char>, value::JsonView)>,
    pairs: Seq<(Seq<char>, value::JsonView)>,
    n: nat,
)
    requires
        n <= head.len(),
        forall|i: int|
            0 <= i < head.len() ==> !crate::json::write::is_child(known, #[trigger] head[i]),
    ensures
        crate::json::write::children_written(texts, info, known, head + pairs, n, mine)
            == Seq::<crate::json::write::XmlElView>::empty(),
    decreases n,
{
    if n > 0 {
        no_children(texts, info, known, mine, head, pairs, (n - 1) as nat);
        assert((head + pairs)[n - 1] == head[n - 1]);
    }
}

/// The attributes that the pairs of an object are written as, where those at its front are attributes
/// and no others are.
proof fn attributes_come_back(
    texts: value::FloatTexts,
    known: Seq<Seq<char>>,
    front: Seq<(Seq<char>, value::JsonView)>,
    rest: Seq<(Seq<char>, value::JsonView)>,
    n: nat,
)
    requires
        n <= front.len() + rest.len(),
        forall|i: int|
            0 <= i < front.len() ==> crate::json::write::is_attribute(known, #[trigger] front[i]),
        forall|i: int|
            0 <= i < rest.len() ==> !crate::json::write::is_attribute(known, #[trigger] rest[i]),
    ensures
        crate::json::write::attributes_of(texts, known, front + rest, n) == front.take(
            if n <= front.len() {
                n as int
            } else {
                front.len() as int
            },
        ).map_values(
            |p: (Seq<char>, value::JsonView)| (p.0, crate::json::write::scalar_text(texts, p.1)),
        ),
    decreases n,
{
    let each = |p: (Seq<char>, value::JsonView)|
        (p.0, crate::json::write::scalar_text(texts, p.1));
    if n == 0 {
        assert(front.take(0).map_values(each) =~= Seq::empty());
    } else {
        attributes_come_back(texts, known, front, rest, (n - 1) as nat);
        if n <= front.len() {
            assert((front + rest)[n - 1] == front[n - 1]);
            assert(front.take(n as int).map_values(each) =~= front.take(n - 1).map_values(
                each,
            ).push(each(front[n - 1])));
        } else {
            assert((front + rest)[n - 1] == rest[n - 1 - front.len()]);
        }
    }
}

/// The text that the pairs of an object are written as, where only one of them can be text.
proof fn text_comes_back(
    texts: value::FloatTexts,
    front: Seq<(Seq<char>, value::JsonView)>,
    words: Seq<(Seq<char>, value::JsonView)>,
    rest: Seq<(Seq<char>, value::JsonView)>,
    n: nat,
)
    requires
        n <= front.len() + words.len() + rest.len(),
        forall|i: int| 0 <= i < front.len() ==> (#[trigger] front[i]).0 != "$text"@,
        forall|i: int| 0 <= i < rest.len() ==> (#[trigger] rest[i]).0 != "$text"@,
        words.len() <= 1,
        words.len() == 1 ==> words[0].0 == "$text"@,
    ensures
        crate::json::write::text_of(texts, front + words + rest, n) == (if words.len() == 1 && n
            > front.len() {
            Some(crate::json::write::scalar_text(texts, words[0].1))
        } else {
            None
        }),
    decreases n,
{
    if n > 0 {
        text_comes_back(texts, front, words, rest, (n - 1) as nat);
        let all = front + words + rest;
        if n <= front.len() {
            assert(all[n - 1] == front[n - 1]);
        } else if n <= front.len() + words.len() {
            assert(all[n - 1] == words[n - 1 - front.len()]);
        } else {
            assert(all[n - 1] == rest[n - 1 - front.len() - words.len()]);
        }
    }
}

proof fn json_is_no_list(readings: read::FloatReadings, el: dom::DomView)
    ensures
        !(read::element_json(readings, el) is Arr),
        is_plain(el) == !(read::element_json(readings, el) is Obj),
{
}

/// The pairs of the children of an element: each name once, and lists of two or more.
proof fn child_pairs_are_grouped(readings: read::FloatReadings, children: Seq<dom::DomView>)
    ensures
        is_grouped(read::child_pairs(readings, children, children.len())),
        children.len() > 0 ==> read::child_pairs(readings, children, children.len()).len() > 0,
        forall|i: int|
            0 <= i < read::child_pairs(readings, children, children.len()).len() ==> stands_for(
                entries(readings, children),
                #[trigger] read::child_pairs(readings, children, children.len())[i],
            ),
{
    let list = entries(readings, children);
    pairs_are_grouped(readings, children, children.len());
    assert forall|k: int| 0 <= k < list.len() implies !((#[trigger] list[k]).1 is Arr) by {
        json_is_no_list(readings, children[k]);
    }
    grouping_groups(list, list.len());
}

/// The child that a pair without a list stands for.
proof fn pair_of_one_child(
    readings: read::FloatReadings,
    children: Seq<dom::DomView>,
    i: int,
) -> (at: int)
    requires
        0 <= i < read::child_pairs(readings, children, children.len()).len(),
        !(read::child_pairs(readings, children, children.len())[i].1 is Arr),
    ensures
        0 <= at < children.len(),
        read::child_pairs(readings, children, children.len())[i] == (
            children[at].name,
            read::element_json(readings, children[at]),
        ),
{
    let list = entries(readings, children);
    let pair = read::child_pairs(readings, children, children.len())[i];
    child_pairs_are_grouped(readings, children);
    assert(stands_for(list, pair));
    assert(spread(pair)[0] == pair);
    choose|at: int| 0 <= at < list.len() && #[trigger] list[at] == pair
}

/// The child that an item of a list stands for, which has others of its name beside it.
proof fn pair_of_children(
    readings: read::FloatReadings,
    children: Seq<dom::DomView>,
    i: int,
    k: int,
) -> (at: int)
    requires
        0 <= i < read::child_pairs(readings, children, children.len()).len(),
        read::child_pairs(readings, children, children.len())[i].1 matches value::JsonView::Arr(
            items,
        ) && 0 <= k < items.len(),
    ensures
        0 <= at < children.len(),
        !is_alone(children, at),
        children[at].name == read::child_pairs(readings, children, children.len())[i].0,
        read::element_json(readings, children[at]) == read::child_pairs(
            readings,
            children,
            children.len(),
        )[i].1->Arr_0[k],
{
    let list = entries(readings, children);
    let pair = read::child_pairs(readings, children, children.len())[i];
    child_pairs_are_grouped(readings, children);
    pairs_are_grouped(readings, children, children.len());
    grouped_values(list, list.len());
    let items = pair.1->Arr_0;
    assert(stands_for(list, pair));
    assert(spread(pair)[k] == (pair.0, items[k]));
    let at = choose|at: int| 0 <= at < list.len() && #[trigger] list[at] == (pair.0, items[k]);
    if is_alone(children, at) {
        assert forall|j: int| 0 <= j < list.len() && j != at implies (#[trigger] list[j]).0
            != list[at].0 by {
            assert(list[j].0 == children[j].name);
        }
        value_of_one(list, at, list.len());
        assert(read::gathered(values_under(list, pair.0, list.len())) == list[at].1);
        json_is_no_list(readings, children[at]);
        assert(false);
    }
    at
}

/// A pair that is written as child elements comes back, where the children of its element do.
proof fn pairs_come_back(
    readings: read::FloatReadings,
    texts: value::FloatTexts,
    info: schema::XsdView,
    el: dom::DomView,
    parent: Option<Seq<char>>,
    i: int,
)
    requires
        !is_plain(el),
        is_recoverable(readings, texts, info, el, parent),
        0 <= i < object_pairs(readings, el).len(),
        place(
            crate::json::write::known_attrs(
                info,
                crate::json::write::resolved_type(info, el.name, parent),
            ),
            object_pairs(readings, el)[i],
        ) == 2,
        forall|k: int|
            0 <= k < el.children.len() && is_recoverable(
                readings,
                texts,
                info,
                #[trigger] el.children[k],
                crate::json::write::resolved_type(info, el.name, parent),
            ) ==> comes_back(
                readings,
                texts,
                info,
                el.children[k],
                crate::json::write::resolved_type(info, el.name, parent),
            ),
    ensures
        child_comes_back(
            readings,
            texts,
            info,
            crate::json::write::known_attrs(
                info,
                crate::json::write::resolved_type(info, el.name, parent),
            ),
            crate::json::write::resolved_type(info, el.name, parent),
            is_plainly_named(el),
            object_pairs(readings, el)[i],
        ),
{
    let mine = crate::json::write::resolved_type(info, el.name, parent);
    let known = crate::json::write::known_attrs(info, mine);
    let plain = is_plainly_named(el);
    let front = read::attribute_pairs(readings, el.attrs);
    let words = read::text_pairs(readings, el.text);
    let rest = read::child_pairs(readings, el.children, el.children.len());
    let pairs = object_pairs(readings, el);
    let pair = pairs[i];
    if i < front.len() {
        assert(pair == front[i]);
        assert(el.attrs[i].0 == pair.0);
        scalar_comes_back(readings, texts, el.attrs[i].1);
        loose_attribute_comes_back(readings, texts, el.attrs[i], plain);
    } else {
        assert(i >= front.len() + words.len());
        let at_pair = i - front.len() - words.len();
        assert(pair == rest[at_pair]);
        match pair.1 {
            value::JsonView::Arr(items) => {
                assert forall|k: int| 0 <= k < items.len() implies gives_back(
                    readings,
                    plain,
                    crate::json::write::element_written(
                        texts,
                        info,
                        pair.0,
                        #[trigger] items[k],
                        mine,
                    ),
                    items[k],
                ) by {
                    let at = pair_of_children(readings, el.children, at_pair, k);
                    assert(is_recoverable(readings, texts, info, el.children[at], mine));
                    assert(comes_back(readings, texts, info, el.children[at], mine));
                }
            },
            _ => {
                let at = pair_of_one_child(readings, el.children, at_pair);
                let child = el.children[at];
                json_is_no_list(readings, child);
                if is_plain(child) {
                    assert(settles(readings, texts, text::trimmed(child.text)));
                    leaf_comes_back(readings, texts, child);
                } else {
                    assert(is_recoverable(readings, texts, info, child, mine));
                    assert(comes_back(readings, texts, info, child, mine));
                }
            },
        }
    }
}

/// The pair of an element that is written as an attribute is read back as what it was.
proof fn attribute_comes_back(
    readings: read::FloatReadings,
    texts: value::FloatTexts,
    info: schema::XsdView,
    el: dom::DomView,
    parent: Option<Seq<char>>,
    i: int,
)
    requires
        !is_plain(el),
        is_recoverable(readings, texts, info, el, parent),
        0 <= i < object_pairs(readings, el).len(),
        place(
            crate::json::write::known_attrs(
                info,
                crate::json::write::resolved_type(info, el.name, parent),
            ),
            object_pairs(readings, el)[i],
        ) == 0,
    ensures
        read::numeric(
            readings,
            crate::json::write::scalar_text(texts, object_pairs(readings, el)[i].1),
        ) == object_pairs(readings, el)[i].1,
        is_plainly_named(el) ==> xml::is_plain_name(object_pairs(readings, el)[i].0),
        i < el.attrs.len() ==> object_pairs(readings, el)[i].0 == el.attrs[i].0,
{
    let front = read::attribute_pairs(readings, el.attrs);
    let words = read::text_pairs(readings, el.text);
    let rest = read::child_pairs(readings, el.children, el.children.len());
    let pair = object_pairs(readings, el)[i];
    if i < front.len() {
        assert(pair == front[i]);
        assert(el.attrs[i].0 == pair.0);
        scalar_comes_back(readings, texts, el.attrs[i].1);
    } else {
        assert(i >= front.len() + words.len());
        let at_pair = i - front.len() - words.len();
        assert(pair == rest[at_pair]);
        let at = pair_of_one_child(readings, el.children, at_pair);
        let child = el.children[at];
        json_is_no_list(readings, child);
        if !is_alone(el.children, at) {
            assert(is_recoverable(
                readings,
                texts,
                info,
                child,
                crate::json::write::resolved_type(info, el.name, parent),
            ));
        }
        assert(settles(readings, texts, text::trimmed(child.text)));
        scalar_comes_back(readings, texts, text::trimmed(child.text));
        if is_plainly_named(el) {
            assert(is_plainly_named(child));
        }
    }
}

/// Pairs in order are first those written as attributes, then those of text, and then those written as
/// child elements.
proof fn order_splits(
    known: Seq<Seq<char>>,
    pairs: Seq<(Seq<char>, value::JsonView)>,
    n: nat,
) -> (cuts: (int, int))
    requires
        is_in_order(known, pairs),
        n <= pairs.len(),
    ensures
        0 <= cuts.0 <= cuts.1 <= n,
        forall|i: int| 0 <= i < cuts.0 ==> place(known, #[trigger] pairs[i]) == 0,
        forall|i: int| cuts.0 <= i < cuts.1 ==> place(known, #[trigger] pairs[i]) == 1,
        forall|i: int| cuts.1 <= i < n ==> place(known, #[trigger] pairs[i]) == 2,
    decreases n,
{
    if n == 0 {
        (0, 0)
    } else {
        let before = order_splits(known, pairs, (n - 1) as nat);
        let last = place(known, pairs[n - 1]);
        if last == 2 {
            before
        } else if last == 1 {
            if before.1 < n - 1 {
                assert(place(known, pairs[n - 2]) <= last);
            }
            (before.0, n as int)
        } else {
            if before.0 < n - 1 {
                assert(place(known, pairs[n - 2]) <= last);
            }
            (n as int, n as int)
        }
    }
}

proof fn flattened_is_longer(pairs: Seq<(Seq<char>, value::JsonView)>, n: nat)
    requires
        is_grouped(pairs),
        n <= pairs.len(),
    ensures
        flattened(pairs, n).len() >= n,
    decreases n,
{
    if n > 0 {
        flattened_is_longer(pairs, (n - 1) as nat);
        assert(spread(pairs[n - 1]).len() >= 1);
    }
}

/// The text of an element is the only pair of text among its pairs.
proof fn text_is_one_pair(readings: read::FloatReadings, el: dom::DomView, i: int)
    requires
        forall|k: int| 0 <= k < el.attrs.len() ==> (#[trigger] el.attrs[k]).0 != "$text"@,
        forall|k: int| 0 <= k < el.children.len() ==> (#[trigger] el.children[k]).name != "$text"@,
        0 <= i < object_pairs(readings, el).len(),
    ensures
        object_pairs(readings, el)[i].0 == "$text"@ <==> (el.attrs.len() <= i < el.attrs.len()
            + read::text_pairs(readings, el.text).len()),
        object_pairs(readings, el)[i].0 == "$text"@ ==> object_pairs(readings, el)[i]
            == read::text_pairs(readings, el.text)[0],
{
    let front = read::attribute_pairs(readings, el.attrs);
    let words = read::text_pairs(readings, el.text);
    let rest = read::child_pairs(readings, el.children, el.children.len());
    let pairs = object_pairs(readings, el);
    if i < front.len() {
        assert(pairs[i] == front[i]);
        assert(el.attrs[i].0 == front[i].0);
    } else if i < front.len() + words.len() {
        assert(pairs[i] == words[i - front.len()]);
    } else {
        let at_pair = i - front.len() - words.len();
        assert(pairs[i] == rest[at_pair]);
        match rest[at_pair].1 {
            value::JsonView::Arr(items) => {
                child_pairs_are_grouped(readings, el.children);
                let at = pair_of_children(readings, el.children, at_pair, 0);
                assert(el.children[at].name == rest[at_pair].0);
            },
            _ => {
                let at = pair_of_one_child(readings, el.children, at_pair);
                assert(el.children[at].name == rest[at_pair].0);
            },
        }
    }
}

/// Whether the pairs of an element up to the first place are written as attributes, those between are
/// its text, and those from the second on are written as child elements.
spec fn are_cuts(
    readings: read::FloatReadings,
    info: schema::XsdView,
    el: dom::DomView,
    parent: Option<Seq<char>>,
    cuts: (int, int),
) -> bool {
    let known = crate::json::write::known_attrs(
        info,
        crate::json::write::resolved_type(info, el.name, parent),
    );
    let pairs = object_pairs(readings, el);
    &&& 0 <= cuts.0 <= cuts.1 <= pairs.len()
    &&& forall|i: int| 0 <= i < cuts.0 ==> place(known, #[trigger] pairs[i]) == 0
    &&& forall|i: int| cuts.1 <= i < pairs.len() ==> place(known, #[trigger] pairs[i]) == 2
    &&& pairs.subrange(cuts.0, cuts.1) == read::text_pairs(readings, el.text)
}

/// The pairs of a recoverable element: those written as attributes, its text, and those written as
/// child elements.
proof fn pairs_split(
    readings: read::FloatReadings,
    texts: value::FloatTexts,
    info: schema::XsdView,
    el: dom::DomView,
    parent: Option<Seq<char>>,
) -> (cuts: (int, int))
    requires
        !is_plain(el),
        is_recoverable(readings, texts, info, el, parent),
    ensures
        are_cuts(readings, info, el, parent, cuts),
{
    let known = crate::json::write::known_attrs(
        info,
        crate::json::write::resolved_type(info, el.name, parent),
    );
    let pairs = object_pairs(readings, el);
    let cuts = order_splits(known, pairs, pairs.len());
    let words = read::text_pairs(readings, el.text);
    let from = el.attrs.len() as int;
    assert forall|k: int| 0 <= k < el.children.len() implies (#[trigger] el.children[k]).name
        != "$text"@ by {}
    if cuts.0 < cuts.1 {
        assert(place(known, pairs[cuts.0]) == 1);
        assert(place(known, pairs[cuts.1 - 1]) == 1);
        text_is_one_pair(readings, el, cuts.0);
        text_is_one_pair(readings, el, cuts.1 - 1);
    }
    if words.len() == 1 {
        text_is_one_pair(readings, el, from);
        assert(place(known, pairs[from]) == 1);
    }
    assert(pairs.subrange(cuts.0, cuts.1) =~= words);
    cuts
}

/// The attributes that a recoverable element is written with are read back as the pairs that they came
/// from.
proof fn written_attributes(
    readings: read::FloatReadings,
    texts: value::FloatTexts,
    info: schema::XsdView,
    el: dom::DomView,
    parent: Option<Seq<char>>,
    cuts: (int, int),
)
    requires
        !is_plain(el),
        is_recoverable(readings, texts, info, el, parent),
        are_cuts(readings, info, el, parent, cuts),
    ensures
        ({
            let known = crate::json::write::known_attrs(
                info,
                crate::json::write::resolved_type(info, el.name, parent),
            );
            let pairs = object_pairs(readings, el);
            let attrs = crate::json::write::attributes_of(texts, known, pairs, pairs.len());
            &&& read::attribute_pairs(readings, attrs) == pairs.take(cuts.0)
            &&& is_plainly_named(el) ==> xml::are_plain_attributes(attrs)
        }),
{
    let known = crate::json::write::known_attrs(
        info,
        crate::json::write::resolved_type(info, el.name, parent),
    );
    let pairs = object_pairs(readings, el);
    let front = pairs.take(cuts.0);
    let others = pairs.skip(cuts.0);
    let words = pairs.subrange(cuts.0, cuts.1);
    let attrs = crate::json::write::attributes_of(texts, known, pairs, pairs.len());
    assert(front + others =~= pairs);
    assert forall|i: int| 0 <= i < front.len() implies crate::json::write::is_attribute(
        known,
        #[trigger] front[i],
    ) by {
        assert(place(known, pairs[i]) == 0);
    }
    assert forall|i: int| 0 <= i < others.len() implies !crate::json::write::is_attribute(
        known,
        #[trigger] others[i],
    ) by {
        assert(others[i] == pairs[cuts.0 + i]);
        if cuts.0 + i < cuts.1 {
            assert(words[i] == pairs[cuts.0 + i]);
        } else {
            assert(place(known, pairs[cuts.0 + i]) == 2);
        }
    }
    attributes_come_back(texts, known, front, others, pairs.len());
    assert(front.take(front.len() as int) =~= front);
    assert forall|i: int| 0 <= i < front.len() implies (#[trigger] front[i]) == (
        attrs[i].0,
        read::numeric(readings, attrs[i].1),
    ) && (is_plainly_named(el) ==> xml::is_plain_name(attrs[i].0)) && (i < el.attrs.len()
        ==> attrs[i].0 == el.attrs[i].0) by {
        assert(place(known, pairs[i]) == 0);
        attribute_comes_back(readings, texts, info, el, parent, i);
    }
    assert(read::attribute_pairs(readings, attrs) =~= front);
    if is_plainly_named(el) {
        assert forall|i: int| 0 <= i < attrs.len() implies xml::is_plain_name(
            (#[trigger] attrs[i]).0,
        ) by {
            assert(front[i].0 == attrs[i].0);
        }
        assert forall|i: int, j: int| 0 <= i < j < attrs.len() implies (#[trigger] attrs[i]).0 != (
        #[trigger] attrs[j]).0 by {
            assert(front[i].0 == attrs[i].0 && front[j].0 == attrs[j].0);
            if j < el.attrs.len() {
                assert(el.attrs[i].0 != el.attrs[j].0);
            } else {
                assert(place(known, pairs[i]) == place(known, pairs[j]));
            }
        }
    }
}

/// The child elements that a recoverable element is written with are read back as the pairs that they
/// came from.
proof fn written_children(
    readings: read::FloatReadings,
    texts: value::FloatTexts,
    info: schema::XsdView,
    el: dom::DomView,
    parent: Option<Seq<char>>,
    cuts: (int, int),
)
    requires
        !is_plain(el),
        is_recoverable(readings, texts, info, el, parent),
        are_cuts(readings, info, el, parent, cuts),
        forall|k: int|
            0 <= k < el.children.len() && is_recoverable(
                readings,
                texts,
                info,
                #[trigger] el.children[k],
                crate::json::write::resolved_type(info, el.name, parent),
            ) ==> comes_back(
                readings,
                texts,
                info,
                el.children[k],
                crate::json::write::resolved_type(info, el.name, parent),
            ),
    ensures
        ({
            let mine = crate::json::write::resolved_type(info, el.name, parent);
            let known = crate::json::write::known_attrs(info, mine);
            let pairs = object_pairs(readings, el);
            let made = crate::json::write::children_written(
                texts,
                info,
                known,
                pairs,
                pairs.len(),
                mine,
            );
            let trees = trees_written(made);
            &&& read::child_pairs(readings, trees, trees.len()) == pairs.skip(cuts.1)
            &&& trees.len() >= pairs.len() - cuts.1
            &&& is_plainly_named(el) ==> all_spellable(made)
        }),
{
    let mine = crate::json::write::resolved_type(info, el.name, parent);
    let known = crate::json::write::known_attrs(info, mine);
    let plain = is_plainly_named(el);
    let pairs = object_pairs(readings, el);
    let head = pairs.take(cuts.1);
    let words = pairs.subrange(cuts.0, cuts.1);
    let rest = pairs.skip(cuts.1);
    assert(head + rest =~= pairs);
    assert forall|i: int| 0 <= i < head.len() implies !crate::json::write::is_child(
        known,
        #[trigger] head[i],
    ) by {
        assert(head[i] == pairs[i]);
        if i < cuts.0 {
            assert(place(known, pairs[i]) == 0);
        } else {
            assert(words[i - cuts.0] == pairs[i]);
        }
    }
    assert forall|i: int| 0 <= i < rest.len() implies child_comes_back(
        readings,
        texts,
        info,
        known,
        mine,
        plain,
        #[trigger] rest[i],
    ) by {
        assert(rest[i] == pairs[cuts.1 + i]);
        assert(place(known, pairs[cuts.1 + i]) == 2);
        pairs_come_back(readings, texts, info, el, parent, cuts.1 + i);
    }
    children_come_back(readings, texts, info, known, mine, plain, head, rest, rest.len());
    assert(head.len() + rest.len() == pairs.len());
    let made = crate::json::write::children_written(
        texts,
        info,
        known,
        pairs,
        pairs.len(),
        mine,
    );
    let trees = trees_written(made);
    pairs_are_grouped(readings, trees, trees.len());
    rest_is_grouped(readings, el, known, cuts.1);
    grouping_undoes_flattening(rest, rest.len());
    flattened_is_longer(rest, rest.len());
    assert(rest.take(rest.len() as int) =~= rest);
    assert(entries(readings, trees).len() == trees.len());
}

/// An element that is recoverable has the same JSON form once it has been written from it.
proof fn element_comes_back(
    readings: read::FloatReadings,
    texts: value::FloatTexts,
    info: schema::XsdView,
    el: dom::DomView,
    parent: Option<Seq<char>>,
)
    requires
        is_recoverable(readings, texts, info, el, parent),
    ensures
        comes_back(readings, texts, info, el, parent),
    decreases el,
{
    let mine = crate::json::write::resolved_type(info, el.name, parent);
    let v = read::element_json(readings, el);
    if is_plain(el) {
        leaf_comes_back(readings, texts, el);
        assert(!(mine is Some && info.is_attr_only(mine->0) && crate::json::write::is_scalar(v)));
    } else {
        assert forall|i: int|
            0 <= i < el.children.len() && is_recoverable(
                readings,
                texts,
                info,
                #[trigger] el.children[i],
                mine,
            ) implies comes_back(readings, texts, info, el.children[i], mine) by {
            assert(decreases_to!(el => el.children));
            assert(decreases_to!(el.children => el.children[i]));
            element_comes_back(readings, texts, info, el.children[i], mine);
        }
        let cuts = pairs_split(readings, texts, info, el, parent);
        written_attributes(readings, texts, info, el, parent, cuts);
        written_children(readings, texts, info, el, parent, cuts);
        written_text(readings, texts, info, el, parent, cuts);
        object_comes_back(readings, texts, info, el, parent, cuts);
    }
}

/// An element comes back where its attributes, its text and its children do.
proof fn object_comes_back(
    readings: read::FloatReadings,
    texts: value::FloatTexts,
    info: schema::XsdView,
    el: dom::DomView,
    parent: Option<Seq<char>>,
    cuts: (int, int),
)
    requires
        !is_plain(el),
        0 <= cuts.0 <= cuts.1 <= object_pairs(readings, el).len(),
        object_pairs(readings, el).subrange(cuts.0, cuts.1) == read::text_pairs(readings, el.text),
        ({
            let mine = crate::json::write::resolved_type(info, el.name, parent);
            let known = crate::json::write::known_attrs(info, mine);
            let pairs = object_pairs(readings, el);
            let attrs = crate::json::write::attributes_of(texts, known, pairs, pairs.len());
            let words = crate::json::write::text_of(texts, pairs, pairs.len());
            let made = crate::json::write::children_written(
                texts,
                info,
                known,
                pairs,
                pairs.len(),
                mine,
            );
            let trees = trees_written(made);
            &&& read::attribute_pairs(readings, attrs) == pairs.take(cuts.0)
            &&& is_plainly_named(el) ==> xml::are_plain_attributes(attrs)
            &&& words matches Some(t) ==> t.len() > 0
            &&& read::text_pairs(
                readings,
                match words {
                    Some(t) => t,
                    None => Seq::empty(),
                },
            ) == read::text_pairs(readings, el.text)
            &&& read::child_pairs(readings, trees, trees.len()) == pairs.skip(cuts.1)
            &&& trees.len() >= pairs.len() - cuts.1
            &&& is_plainly_named(el) ==> all_spellable(made)
        }),
    ensures
        comes_back(readings, texts, info, el, parent),
{
    let pairs = object_pairs(readings, el);
    let words = read::text_pairs(readings, el.text);
    let v = read::element_json(readings, el);
    assert(v == value::JsonView::Obj(pairs));
    let written = crate::json::write::element_written(texts, info, el.name, v, parent);
    let back = tree_written(written);
    assert(back.children =~= trees_written(written.children));
    assert(pairs.take(cuts.0) + words + pairs.skip(cuts.1) =~= pairs);
    child_pairs_are_grouped(readings, el.children);
    assert(read::attribute_pairs(readings, el.attrs).len() == el.attrs.len());
    assert(pairs.len() > words.len());
    assert(read::attribute_pairs(readings, back.attrs).len() == back.attrs.len());
    assert(!is_plain(back));
}

/// The text that a recoverable element is written with is read back as what it was.
proof fn written_text(
    readings: read::FloatReadings,
    texts: value::FloatTexts,
    info: schema::XsdView,
    el: dom::DomView,
    parent: Option<Seq<char>>,
    cuts: (int, int),
)
    requires
        !is_plain(el),
        is_recoverable(readings, texts, info, el, parent),
        are_cuts(readings, info, el, parent, cuts),
    ensures
        ({
            let pairs = object_pairs(readings, el);
            let words = crate::json::write::text_of(texts, pairs, pairs.len());
            &&& words matches Some(t) ==> t.len() > 0
            &&& read::text_pairs(
                readings,
                match words {
                    Some(t) => t,
                    None => Seq::empty(),
                },
            ) == read::text_pairs(readings, el.text)
        }),
{
    let known = crate::json::write::known_attrs(
        info,
        crate::json::write::resolved_type(info, el.name, parent),
    );
    let pairs = object_pairs(readings, el);
    let front = pairs.take(cuts.0);
    let words = pairs.subrange(cuts.0, cuts.1);
    let rest = pairs.skip(cuts.1);
    assert(front + words + rest =~= pairs);
    assert forall|i: int| 0 <= i < front.len() implies (#[trigger] front[i]).0 != "$text"@ by {
        assert(place(known, pairs[i]) == 0);
    }
    assert forall|i: int| 0 <= i < rest.len() implies (#[trigger] rest[i]).0 != "$text"@ by {
        assert(rest[i] == pairs[cuts.1 + i]);
        assert(place(known, pairs[cuts.1 + i]) == 2);
    }
    text_comes_back(texts, front, words, rest, pairs.len());
    text::trimmed_is_stable(el.text);
    if words.len() == 1 {
        scalar_comes_back(readings, texts, text::trimmed(el.text));
        let t = crate::json::write::text_of(texts, pairs, pairs.len())->0;
        assert(read::text_pairs(readings, t) =~= words);
    } else {
        let none = Seq::<char>::empty();
        assert(text::trimmed(none) == none);
        assert(read::text_pairs(readings, none) =~= words);
    }
}

/// The pairs behind a place, all of them written as child elements, are grouped.
proof fn rest_is_grouped(
    readings: read::FloatReadings,
    el: dom::DomView,
    known: Seq<Seq<char>>,
    from: int,
)
    requires
        are_told_apart(known, el.attrs, object_pairs(readings, el)),
        0 <= from <= object_pairs(readings, el).len(),
        forall|i: int|
            from <= i < object_pairs(readings, el).len() ==> place(
                known,
                #[trigger] object_pairs(readings, el)[i],
            ) == 2,
    ensures
        is_grouped(object_pairs(readings, el).skip(from)),
{
    let pairs = object_pairs(readings, el);
    let list = pairs.skip(from);
    let front = read::attribute_pairs(readings, el.attrs);
    let words = read::text_pairs(readings, el.text);
    let rest = read::child_pairs(readings, el.children, el.children.len());
    child_pairs_are_grouped(readings, el.children);
    assert forall|i: int, j: int| 0 <= i < j < list.len() implies (#[trigger] list[i]).0 != (
    #[trigger] list[j]).0 by {
        assert(list[i] == pairs[from + i] && list[j] == pairs[from + j]);
    }
    assert forall|i: int| 0 <= i < list.len() implies ((#[trigger] list[i]).1 matches
        value::JsonView::Arr(items) ==> items.len() >= 2) by {
        let at = from + i;
        assert(list[i] == pairs[at]);
        if at < front.len() {
            assert(pairs[at] == front[at]);
        } else if at < front.len() + words.len() {
            assert(pairs[at] == words[at - front.len()]);
        } else {
            assert(pairs[at] == rest[at - front.len() - words.len()]);
        }
    }
}

/// An element that keeps to the schema is recoverable.
pub proof fn keeping_to_the_schema_is_enough(
    readings: read::FloatReadings,
    texts: value::FloatTexts,
    info: schema::XsdView,
    el: dom::DomView,
    parent: Option<Seq<char>>,
)
    requires
        keeps_to_schema(readings, texts, info, el, parent),
    ensures
        is_recoverable(readings, texts, info, el, parent),
    decreases el,
{
    let mine = crate::json::write::resolved_type(info, el.name, parent);
    let known = crate::json::write::known_attrs(info, mine);
    assert forall|i: int| 0 <= i < el.children.len() implies is_recoverable(
        readings,
        texts,
        info,
        #[trigger] el.children[i],
        mine,
    ) by {
        assert(decreases_to!(el => el.children));
        assert(decreases_to!(el.children => el.children[i]));
        keeping_to_the_schema_is_enough(readings, texts, info, el.children[i], mine);
    }
    if !is_plain(el) {
        let front = read::attribute_pairs(readings, el.attrs);
        let words = read::text_pairs(readings, el.text);
        let rest = read::child_pairs(readings, el.children, el.children.len());
        let pairs = object_pairs(readings, el);
        child_pairs_are_grouped(readings, el.children);
        assert forall|i: int| 0 <= i < pairs.len() implies place(known, #[trigger] pairs[i]) == (
        if i < front.len() {
            0
        } else if i < front.len() + words.len() {
            1int
        } else {
            2
        }) && (i < front.len() ==> !(pairs[i].1 is Null)) by {
            text_is_one_pair(readings, el, i);
            if i < front.len() {
                assert(pairs[i] == front[i]);
                assert(known.contains(el.attrs[i].0));
                scalar_comes_back(readings, texts, el.attrs[i].1);
            } else if i >= front.len() + words.len() {
                let at_pair = i - front.len() - words.len();
                assert(pairs[i] == rest[at_pair]);
                if !(rest[at_pair].1 is Arr) {
                    let at = pair_of_one_child(readings, el.children, at_pair);
                    json_is_no_list(readings, el.children[at]);
                    assert(is_plain(el.children[at]) ==> !known.contains(el.children[at].name));
                }
            }
        }
        assert forall|i: int, j: int|
            0 <= i < j < pairs.len() && place(known, #[trigger] pairs[i]) == place(
                known,
                #[trigger] pairs[j],
            ) && (el.attrs.len() <= j || place(known, pairs[j]) == 2) implies pairs[i].0
            != pairs[j].0 by {
            let from = front.len() + words.len();
            if i >= from {
                assert(pairs[i] == rest[i - from] && pairs[j] == rest[j - from]);
            }
        }
    }
}

/// Whether a tree is what a written element is read back as, but for white space around texts.
pub open spec fn is_read_as(e: crate::json::write::XmlElView, el: dom::DomView) -> bool
    decreases e,
{
    &&& el.name == e.name
    &&& el.attrs == e.attrs
    &&& text::trimmed(el.text) == text::trimmed(tree_written(e).text)
    &&& el.children.len() == e.children.len()
    &&& forall|i: int|
        0 <= i < e.children.len() ==> is_read_as(#[trigger] e.children[i], el.children[i])
}

proof fn same_json(
    readings: read::FloatReadings,
    e: crate::json::write::XmlElView,
    el: dom::DomView,
)
    requires
        is_read_as(e, el),
    ensures
        read::element_json(readings, el) == read::element_json(readings, tree_written(e)),
    decreases e,
{
    let back = tree_written(e);
    assert forall|i: int| 0 <= i < e.children.len() implies (#[trigger] entries(
        readings,
        el.children,
    )[i]) == entries(readings, back.children)[i] by {
        assert(decreases_to!(e => e.children));
        assert(decreases_to!(e.children => e.children[i]));
        assert(is_read_as(e.children[i], el.children[i]));
        same_json(readings, e.children[i], el.children[i]);
        assert(back.children[i] == tree_written(e.children[i]));
        assert(el.children[i].name == back.children[i].name);
    }
    assert(entries(readings, el.children) =~= entries(readings, back.children));
    pairs_are_grouped(readings, el.children, el.children.len());
    pairs_are_grouped(readings, back.children, back.children.len());
}

/// What a recoverable document with plain names is written as can be spelled out plainly.
pub proof fn written_is_spellable(
    readings: read::FloatReadings,
    texts: value::FloatTexts,
    info: schema::XsdView,
    root: dom::DomView,
)
    requires
        is_recoverable(readings, texts, info, root, None),
        is_plainly_named(root),
    ensures
        is_spellable(
            crate::json::write::element_written(
                texts,
                info,
                root.name,
                read::element_json(readings, root),
                None,
            ),
        ),
{
    element_comes_back(readings, texts, info, root, None);
}

/// The JSON form of a recoverable document, written as XML by the schema and read again, is what it was,
/// whatever white space the reading finds around texts.
pub proof fn document_comes_back(
    readings: read::FloatReadings,
    texts: value::FloatTexts,
    info: schema::XsdView,
    root: dom::DomView,
    again: dom::DomView,
)
    requires
        is_recoverable(readings, texts, info, root, None),
        is_read_as(
            crate::json::write::element_written(
                texts,
                info,
                root.name,
                read::element_json(readings, root),
                None,
            ),
            again,
        ),
    ensures
        read::document_json(readings, again) == read::document_json(readings, root),
{
    let v = read::element_json(readings, root);
    let written = crate::json::write::element_written(texts, info, root.name, v, None);
    element_comes_back(readings, texts, info, root, None);
    written_name(texts, info, root.name, v, None);
    same_json(readings, written, again);
}

} // verus!
