//! From JSON to XML.
use vstd::prelude::*;
use crate::error::{Error, Outcome};
use crate::float::Float64;
use crate::json::dom;
use crate::json::schema;
use crate::json::schema::XsdInfo;
use crate::json::value;
use crate::json::value::{JVal, fmt_float};
use crate::text;
use crate::xml;

verus! {

/// An XML element to be written.
#[derive(Debug)]
pub struct XmlEl {
    pub name: String,
    pub attrs: Vec<(String, String)>,
    pub text: Option<String>,
    pub children: Vec<XmlEl>,
}

/// What an element to be written holds.
pub struct XmlElView {
    pub name: Seq<char>,
    pub attrs: Seq<dom::Pair>,
    pub text: Option<Seq<char>>,
    pub children: Seq<XmlElView>,
}

/// What an optional text holds.
pub open spec fn text_view(text: Option<String>) -> Option<Seq<char>> {
    match text {
        Some(s) => Some(s@),
        None => None,
    }
}

impl View for XmlEl {
    type V = XmlElView;

    open spec fn view(&self) -> XmlElView
        decreases self,
    {
        XmlElView {
            name: self.name@,
            attrs: dom::pair_views(self.attrs@),
            text: text_view(self.text),
            children: Seq::new(
                self.children@.len(),
                |i: int|
                    if 0 <= i < self.children@.len() {
                        self.children@[i].view()
                    } else {
                        arbitrary()
                    },
            ),
        }
    }
}

/// What a list of elements holds.
pub open spec fn el_views(list: Seq<XmlEl>) -> Seq<XmlElView> {
    list.map_values(|e: XmlEl| e@)
}

/// What an element holds, part by part.
pub proof fn el_view(e: XmlEl)
    ensures
        e@ == (XmlElView {
            name: e.name@,
            attrs: dom::pair_views(e.attrs@),
            text: text_view(e.text),
            children: el_views(e.children@),
        }),
{
    reveal_with_fuel(<XmlEl as View>::view, 2);
    assert(e@.children =~= el_views(e.children@));
}

/// The content that a scalar value is in XML; nothing for null, a list or an object.
pub open spec fn scalar_text(texts: value::FloatTexts, v: value::JsonView) -> Seq<char> {
    match v {
        value::JsonView::Bool(b) => if b {
            "true"@
        } else {
            "false"@
        },
        value::JsonView::Int(i) => text::integer(i),
        value::JsonView::Float(f) => value::float_text(texts, f),
        value::JsonView::Str(s) => s,
        _ => ""@,
    }
}

/// Whether a value is a boolean, a number or a string.
pub open spec fn is_scalar(v: value::JsonView) -> bool {
    v is Bool || v is Int || v is Float || v is Str
}

/// Whether a value is a list or an object.
pub open spec fn is_nested(v: value::JsonView) -> bool {
    v is Arr || v is Obj
}

/// The content that a value is in XML.
pub fn to_str<W: Fn(Float64) -> String>(show: &W, v: &JVal) -> (r: String)
    requires
        value::writes_floats(*show),
    ensures
        r@ == scalar_text(value::texts_of(*show), v@),
{
    match v {
        JVal::Bool(b) => if *b {
            "true".to_owned()
        } else {
            "false".to_owned()
        },
        JVal::Int(i) => text::integer_text(*i),
        JVal::Float(f) => fmt_float(show, *f),
        JVal::Str(s) => s.clone(),
        JVal::Null => "".to_owned(),
        JVal::Arr(_) => "".to_owned(),
        JVal::Obj(_) => "".to_owned(),
    }
}

/// The content that a scalar value is in XML.
pub fn scalar_str<W: Fn(Float64) -> String>(show: &W, v: &JVal) -> (r: Option<String>)
    requires
        value::writes_floats(*show),
    ensures
        text_view(r) == (if is_scalar(v@) {
            Some(scalar_text(value::texts_of(*show), v@))
        } else {
            None
        }),
{
    match v {
        JVal::Bool(_) => Some(to_str(show, v)),
        JVal::Int(_) => Some(to_str(show, v)),
        JVal::Float(_) => Some(to_str(show, v)),
        JVal::Str(_) => Some(to_str(show, v)),
        JVal::Null => None,
        JVal::Arr(_) => None,
        JVal::Obj(_) => None,
    }
}

/// The type of an element: what the type around it says, or else what the schema says of global
/// elements.
pub open spec fn resolved_type(
    info: schema::XsdView,
    tag: Seq<char>,
    parent: Option<Seq<char>>,
) -> Option<Seq<char>> {
    let inner = match parent {
        Some(p) => info.child_type(p, tag),
        None => None,
    };
    match inner {
        Some(t) => Some(t),
        None => schema::last_value(info.elems, tag),
    }
}

/// What an optional text slice holds.
pub open spec fn slice_view(text: Option<&str>) -> Option<Seq<char>> {
    match text {
        Some(s) => Some(s@),
        None => None,
    }
}

/// The type of an element.
pub fn resolve_type(xsd: &XsdInfo, tag: &str, parent_type: Option<&str>) -> (r: Option<String>)
    ensures
        text_view(r) == resolved_type(xsd@, tag@, slice_view(parent_type)),
{
    if let Some(parent) = parent_type {
        if let Some(t) = xsd.child_type(parent, tag) {
            return Some(t);
        }
    }
    xsd.global_type(tag)
}

/// The attributes that an element may have.
pub open spec fn known_attrs(info: schema::XsdView, mine: Option<Seq<char>>) -> Seq<Seq<char>> {
    match mine {
        Some(t) => info.attrs_for_type(t),
        None => Seq::empty(),
    }
}

/// Whether a pair of an object is written as an attribute: a plain value under the name of an
/// attribute.
pub open spec fn is_attribute(known: Seq<Seq<char>>, pair: (Seq<char>, value::JsonView)) -> bool {
    pair.0 != "$text"@ && !is_nested(pair.1) && known.contains(pair.0)
}

/// Whether a pair of an object is written as child elements.
pub open spec fn is_child(known: Seq<Seq<char>>, pair: (Seq<char>, value::JsonView)) -> bool {
    pair.0 != "$text"@ && !is_attribute(known, pair)
}

/// The attributes among the first `n` pairs of an object.
pub open spec fn attributes_of(
    texts: value::FloatTexts,
    known: Seq<Seq<char>>,
    pairs: Seq<(Seq<char>, value::JsonView)>,
    n: nat,
) -> Seq<dom::Pair>
    decreases n,
{
    if n == 0 || n > pairs.len() {
        Seq::empty()
    } else {
        let before = attributes_of(texts, known, pairs, (n - 1) as nat);
        if is_attribute(known, pairs[n - 1]) {
            before.push((pairs[n - 1].0, scalar_text(texts, pairs[n - 1].1)))
        } else {
            before
        }
    }
}

/// The text among the first `n` pairs of an object: that of the last one for it.
pub open spec fn text_of(
    texts: value::FloatTexts,
    pairs: Seq<(Seq<char>, value::JsonView)>,
    n: nat,
) -> Option<Seq<char>>
    decreases n,
{
    if n == 0 || n > pairs.len() {
        None
    } else if pairs[n - 1].0 == "$text"@ {
        Some(scalar_text(texts, pairs[n - 1].1))
    } else {
        text_of(texts, pairs, (n - 1) as nat)
    }
}

/// An element with nothing but text.
pub open spec fn leaf(
    texts: value::FloatTexts,
    tag: Seq<char>,
    v: value::JsonView,
) -> XmlElView {
    XmlElView {
        name: tag,
        attrs: Seq::empty(),
        text: if v is Null || v is Arr {
            None
        } else {
            Some(scalar_text(texts, v))
        },
        children: Seq::empty(),
    }
}

/// The element that a value is in XML. A plain value of a type that has attributes only becomes its
/// first attribute. An object becomes attributes, text and child elements. A bare list stands for its
/// last item.
pub open spec fn element_written(
    texts: value::FloatTexts,
    info: schema::XsdView,
    tag: Seq<char>,
    v: value::JsonView,
    parent: Option<Seq<char>>,
) -> XmlElView
    decreases v, 0nat, 0nat,
{
    let mine = resolved_type(info, tag, parent);
    if mine is Some && info.is_attr_only(mine->0) && is_scalar(v) {
        XmlElView {
            name: tag,
            attrs: seq![(info.attrs_for_type(mine->0)[0], scalar_text(texts, v))],
            text: None,
            children: Seq::empty(),
        }
    } else {
        match v {
            value::JsonView::Obj(pairs) => XmlElView {
                name: tag,
                attrs: attributes_of(texts, known_attrs(info, mine), pairs, pairs.len()),
                text: text_of(texts, pairs, pairs.len()),
                children: children_written(
                    texts,
                    info,
                    known_attrs(info, mine),
                    pairs,
                    pairs.len(),
                    mine,
                ),
            },
            value::JsonView::Arr(items) => if items.len() == 0 {
                leaf(texts, tag, v)
            } else {
                element_written(texts, info, tag, items[items.len() - 1], parent)
            },
            _ => leaf(texts, tag, v),
        }
    }
}

/// The child elements that the first `n` pairs of an object are in XML.
pub open spec fn children_written(
    texts: value::FloatTexts,
    info: schema::XsdView,
    known: Seq<Seq<char>>,
    pairs: Seq<(Seq<char>, value::JsonView)>,
    n: nat,
    mine: Option<Seq<char>>,
) -> Seq<XmlElView>
    decreases pairs, 1nat, n,
{
    if n == 0 || n > pairs.len() {
        Seq::empty()
    } else {
        let before = children_written(texts, info, known, pairs, (n - 1) as nat, mine);
        if is_child(known, pairs[n - 1]) {
            match pairs[n - 1].1 {
                value::JsonView::Arr(items) => before + items_written(
                    texts,
                    info,
                    pairs[n - 1].0,
                    items,
                    items.len(),
                    mine,
                ),
                value::JsonView::Obj(_) => before.push(
                    element_written(texts, info, pairs[n - 1].0, pairs[n - 1].1, mine),
                ),
                _ => before.push(leaf(texts, pairs[n - 1].0, pairs[n - 1].1)),
            }
        } else {
            before
        }
    }
}

/// The elements that the first `n` items of a list are in XML.
pub open spec fn items_written(
    texts: value::FloatTexts,
    info: schema::XsdView,
    tag: Seq<char>,
    items: Seq<value::JsonView>,
    n: nat,
    mine: Option<Seq<char>>,
) -> Seq<XmlElView>
    decreases items, 0nat, n,
{
    if n == 0 || n > items.len() {
        Seq::empty()
    } else {
        items_written(texts, info, tag, items, (n - 1) as nat, mine).push(
            element_written(texts, info, tag, items[n - 1], mine),
        )
    }
}

fn leaf_element<W: Fn(Float64) -> String>(show: &W, tag: &str, v: &JVal) -> (r: XmlEl)
    requires
        value::writes_floats(*show),
        !(v@ is Obj),
    ensures
        r@ == leaf(value::texts_of(*show), tag@, v@),
{
    let words: Option<String> = match v {
        JVal::Null => None,
        JVal::Arr(_) => None,
        _ => Some(to_str(show, v)),
    };
    let r = XmlEl { name: tag.to_owned(), attrs: Vec::new(), text: words, children: Vec::new() };
    proof {
        el_view(r);
        assert(dom::pair_views(r.attrs@) =~= Seq::empty());
        assert(el_views(r.children@) =~= Seq::empty());
    }
    r
}

/// Whether a name is in a list.
fn listed(list: &Vec<String>, name: &str) -> (r: bool)
    ensures
        r == schema::name_views(list@).contains(name@),
{
    let ghost all = schema::name_views(list@);
    let mut i: usize = 0;
    while i < list.len()
        invariant
            i <= list@.len(),
            all == schema::name_views(list@),
            forall|k: int| 0 <= k < i ==> all[k] != name@,
        decreases list@.len() - i,
    {
        assert(all[i as int] == list@[i as int]@);
        if text::same(list[i].as_str(), name) {
            return true;
        }
        i += 1;
    }
    false
}

/// What an optional text holds, as a slice.
fn as_slice(text: &Option<String>) -> (r: Option<&str>)
    ensures
        slice_view(r) == text_view(*text),
{
    match text {
        Some(s) => Some(s.as_str()),
        None => None,
    }
}

/// The element that a value is in XML.
pub fn write_element<W: Fn(Float64) -> String>(
    show: &W,
    xsd: &XsdInfo,
    tag: &str,
    v: &JVal,
    parent_type: Option<&str>,
) -> (r: XmlEl)
    requires
        value::writes_floats(*show),
    ensures
        r@ == element_written(
            value::texts_of(*show),
            xsd@,
            tag@,
            v@,
            slice_view(parent_type),
        ),
    decreases v,
{
    let ghost texts = value::texts_of(*show);
    let my_type = resolve_type(xsd, tag, parent_type);
    let ghost mine = text_view(my_type);
    if let Some(mt) = &my_type {
        if xsd.is_attr_only(mt.as_str()) {
            if let Some(words) = scalar_str(show, v) {
                let mut attrs = xsd.attrs_for_type(mt.as_str());
                assert(schema::name_views(attrs@)[0] == attrs@[0]@);
                assert(schema::name_views(attrs@).len() == attrs@.len());
                let first = attrs.remove(0);
                let mut pairs: Vec<(String, String)> = Vec::new();
                pairs.push((first, words));
                let r = XmlEl {
                    name: tag.to_owned(),
                    attrs: pairs,
                    text: None,
                    children: Vec::new(),
                };
                proof {
                    el_view(r);
                    assert(r@.attrs =~= seq![(first@, words@)]);
                    assert(el_views(r.children@) =~= Seq::empty());
                }
                return r;
            }
        }
    }
    match v {
        JVal::Obj(pairs) => {
            let ghost views = value::pair_views(pairs@);
            proof {
                value::object_view(*pairs);
            }
            let known_names: Vec<String> = match &my_type {
                Some(mt) => xsd.attrs_for_type(mt.as_str()),
                None => Vec::new(),
            };
            let ghost known = known_attrs(xsd@, mine);
            assert(schema::name_views(known_names@) =~= known);
            let mut attrs: Vec<(String, String)> = Vec::new();
            let mut words: Option<String> = None;
            let mut children: Vec<XmlEl> = Vec::new();
            let mut i: usize = 0;
            assert(dom::pair_views(attrs@) =~= attributes_of(texts, known, views, 0));
            assert(el_views(children@) =~= children_written(texts, xsd@, known, views, 0, mine));
            while i < pairs.len()
                invariant
                    i <= pairs@.len(),
                    value::writes_floats(*show),
                    texts == value::texts_of(*show),
                    mine == text_view(my_type),
                    *v == JVal::Obj(*pairs),
                    views == value::pair_views(pairs@),
                    known == schema::name_views(known_names@),
                    dom::pair_views(attrs@) == attributes_of(texts, known, views, i as nat),
                    text_view(words) == text_of(texts, views, i as nat),
                    el_views(children@) == children_written(
                        texts,
                        xsd@,
                        known,
                        views,
                        i as nat,
                        mine,
                    ),
                decreases pairs@.len() - i,
            {
                assert(decreases_to!(v => v->Obj_0));
                assert(decreases_to!(pairs@ => pairs@[i as int]));
                assert(decreases_to!(v => pairs@[i as int].1));
                let key = pairs[i].0.as_str();
                let val = &pairs[i].1;
                let ghost pair = views[i as int];
                assert(pair == (key@, val@));
                let nested = match val {
                    JVal::Arr(items) => {
                        proof {
                            value::list_view(*items);
                        }
                        true
                    },
                    JVal::Obj(inner) => {
                        proof {
                            value::object_view(*inner);
                        }
                        true
                    },
                    _ => false,
                };
                if text::same(key, "$text") {
                    words = Some(to_str(show, val));
                } else if !nested && listed(&known_names, key) {
                    let ghost before = attrs@;
                    let content = to_str(show, val);
                    attrs.push((key.to_owned(), content));
                    assert(dom::pair_views(attrs@) =~= dom::pair_views(before).push(
                        (key@, content@),
                    ));
                } else {
                    let ghost before = el_views(children@);
                    match val {
                        JVal::Arr(items) => {
                            let ghost item_views = value::value_views(items@);
                            let mut k: usize = 0;
                            assert(el_views(children@) =~= before + items_written(
                                texts,
                                xsd@,
                                key@,
                                item_views,
                                0,
                                mine,
                            ));
                            while k < items.len()
                                invariant
                                    k <= items@.len(),
                                    value::writes_floats(*show),
                                    texts == value::texts_of(*show),
                                    mine == text_view(my_type),
                                    *val == JVal::Arr(*items),
                                    decreases_to!(v => val),
                                    item_views == value::value_views(items@),
                                    el_views(children@) == before + items_written(
                                        texts,
                                        xsd@,
                                        key@,
                                        item_views,
                                        k as nat,
                                        mine,
                                    ),
                                decreases items@.len() - k,
                            {
                                assert(decreases_to!(val => val->Arr_0));
                                assert(decreases_to!(items@ => items@[k as int]));
                                assert(decreases_to!(v => items@[k as int]));
                                assert(item_views[k as int] == items@[k as int]@);
                                let ghost had = children@;
                                let child = write_element(
                                    show,
                                    xsd,
                                    key,
                                    &items[k],
                                    as_slice(&my_type),
                                );
                                children.push(child);
                                assert(el_views(children@) =~= el_views(had).push(child@));
                                k += 1;
                                assert(el_views(children@) =~= before + items_written(
                                    texts,
                                    xsd@,
                                    key@,
                                    item_views,
                                    k as nat,
                                    mine,
                                ));
                            }
                        },
                        JVal::Obj(_) => {
                            let ghost had = children@;
                            let child = write_element(show, xsd, key, val, as_slice(&my_type));
                            children.push(child);
                            assert(el_views(children@) =~= el_views(had).push(child@));
                        },
                        _ => {
                            let ghost had = children@;
                            let child = leaf_element(show, key, val);
                            children.push(child);
                            assert(el_views(children@) =~= el_views(had).push(child@));
                        },
                    }
                }
                i += 1;
            }
            let r = XmlEl { name: tag.to_owned(), attrs, text: words, children };
            proof {
                el_view(r);
            }
            r
        },
        JVal::Arr(items) => {
            proof {
                value::list_view(*items);
            }
            let n: usize = items.len();
            if n == 0 {
                leaf_element(show, tag, v)
            } else {
                assert(decreases_to!(v => v->Arr_0));
                assert(decreases_to!(v => items@[n - 1]));
                assert(value::value_views(items@)[n - 1] == items@[n - 1]@);
                write_element(show, xsd, tag, &items[n - 1], parent_type)
            }
        },
        _ => leaf_element(show, tag, v),
    }
}

/// Writes content with the characters of markup replaced.
fn push_content(words: &str, in_attribute: bool, out: &mut String)
    ensures
        final(out)@ == old(out)@ + xml::content(words@, in_attribute),
{
    let ghost start = out@;
    let ghost each = |c: char| xml::content_char(c, in_attribute);
    let cs = text::chars(words);
    let mut i: usize = 0;
    assert(out@ =~= start + text::rewritten(words@.take(0), each));
    while i < cs.len()
        invariant
            i <= cs@.len(),
            cs@ == words@,
            each == (|c: char| xml::content_char(c, in_attribute)),
            out@ == start + text::rewritten(words@.take(i as int), each),
        decreases cs@.len() - i,
    {
        let c = cs[i];
        let ghost before = out@;
        let ghost upto = words@.take(i + 1);
        assert(upto.drop_last() =~= words@.take(i as int));
        if c == '&' {
            out.append("&amp;");
        } else if c == '<' {
            out.append("&lt;");
        } else if c == '>' {
            out.append("&gt;");
        } else if in_attribute && c == '"' {
            out.append("&quot;");
        } else {
            out.push(c);
        }
        assert(out@ =~= before + xml::content_char(c, in_attribute));
        assert(out@ =~= start + text::rewritten(upto, each));
        i += 1;
    }
    assert(words@.take(words@.len() as int) =~= words@);
}

/// The lines of an element, each of which starts with `pad`; child elements are set two spaces
/// further in.
pub open spec fn element_text(el: XmlElView, pad: Seq<char>) -> Seq<char>
    decreases el, 0nat,
{
    let opening = pad + "<"@ + el.name + xml::attributes_text(el.attrs, el.attrs.len());
    let words = match el.text {
        Some(t) => xml::content(t, false),
        None => Seq::empty(),
    };
    if el.children.len() > 0 {
        opening + ">"@ + words + "\n"@ + elements_text(el.children, pad + "  "@, el.children.len())
            + pad + "</"@ + el.name + ">\n"@
    } else if el.text is Some {
        opening + ">"@ + words + "</"@ + el.name + ">\n"@
    } else {
        opening + "/>\n"@
    }
}

/// The lines of the first `n` elements of a list.
pub open spec fn elements_text(list: Seq<XmlElView>, pad: Seq<char>, n: nat) -> Seq<char>
    decreases list, n,
{
    if n == 0 || n > list.len() {
        Seq::empty()
    } else {
        elements_text(list, pad, (n - 1) as nat) + element_text(list[n - 1], pad)
    }
}

/// Writes the lines of an element.
pub fn write_el(el: &XmlEl, pad: &str, out: &mut String)
    ensures
        final(out)@ == old(out)@ + element_text(el@, pad@),
    decreases el,
{
    let ghost before = out@;
    let ghost attrs = dom::pair_views(el.attrs@);
    let ghost list = el_views(el.children@);
    proof {
        el_view(*el);
    }
    out.append(pad);
    out.append("<");
    out.append(el.name.as_str());
    let ghost start = out@;
    let mut i: usize = 0;
    assert(out@ =~= start + xml::attributes_text(attrs, 0));
    while i < el.attrs.len()
        invariant
            i <= el.attrs@.len(),
            attrs == dom::pair_views(el.attrs@),
            out@ == start + xml::attributes_text(attrs, i as nat),
        decreases el.attrs@.len() - i,
    {
        out.append(" ");
        out.append(el.attrs[i].0.as_str());
        out.append("=\"");
        push_content(el.attrs[i].1.as_str(), true, out);
        out.append("\"");
        i += 1;
        assert(attrs[i - 1] == (el.attrs@[i - 1].0@, el.attrs@[i - 1].1@));
        assert(out@ =~= start + xml::attributes_text(attrs, i as nat));
    }
    let ghost opening = pad@ + "<"@ + el@.name + xml::attributes_text(attrs, attrs.len());
    assert(out@ =~= before + opening);
    if el.children.len() == 0 && el.text.is_none() {
        out.append("/>\n");
        assert(out@ =~= before + element_text(el@, pad@));
        return;
    }
    out.append(">");
    if let Some(words) = &el.text {
        push_content(words.as_str(), false, out);
    }
    let ghost words = match el@.text {
        Some(t) => xml::content(t, false),
        None => Seq::empty(),
    };
    assert(out@ =~= before + (opening + ">"@ + words));
    if el.children.len() > 0 {
        out.append("\n");
        let mut inner: String = pad.to_owned();
        inner.append("  ");
        let ghost head = out@;
        let mut k: usize = 0;
        assert(out@ =~= head + elements_text(list, inner@, 0));
        while k < el.children.len()
            invariant
                k <= el.children@.len(),
                list == el_views(el.children@),
                out@ == head + elements_text(list, inner@, k as nat),
            decreases el.children@.len() - k,
        {
            assert(decreases_to!(el => el.children));
            assert(decreases_to!(el => el.children@[k as int]));
            assert(list[k as int] == el.children@[k as int]@);
            write_el(&el.children[k], inner.as_str(), out);
            k += 1;
            assert(out@ =~= head + elements_text(list, inner@, k as nat));
        }
        out.append(pad);
    }
    out.append("</");
    out.append(el.name.as_str());
    out.append(">\n");
    assert(out@ =~= before + element_text(el@, pad@));
}

/// The XML text of a document: a declaration, then the root element.
pub open spec fn document_text(root: XmlElView) -> Seq<char> {
    "<?xml version='1.0' encoding='UTF-8'?>\n"@ + element_text(root, ""@)
}

/// The words of the error for a JSON document that is no object with one key.
pub open spec fn not_a_document() -> Seq<char> {
    "JSON root must be an object with exactly one key (the root element tag)"@
}

/// Whether a JSON value is a document: an object with one key, the name of the root element.
pub open spec fn is_document(v: value::JsonView) -> bool {
    v matches value::JsonView::Obj(pairs) && pairs.len() == 1
}

/// The XML text of a JSON document. The schema says which keys are attributes, and `show` writes
/// floating-point numbers.
pub fn json_to_hcdf_xml<W: Fn(Float64) -> String>(xsd: &XsdInfo, root: &JVal, show: &W) -> (r:
    Outcome<String>)
    requires
        value::writes_floats(*show),
    ensures
        match r {
            Ok(xml) => is_document(root@) && xml@ == document_text(
                element_written(
                    value::texts_of(*show),
                    xsd@,
                    root@->Obj_0[0].0,
                    root@->Obj_0[0].1,
                    None,
                ),
            ),
            Err(e) => !is_document(root@) && e.is_json(not_a_document()),
        },
{
    match root {
        JVal::Obj(pairs) => {
            proof {
                value::object_view(*pairs);
            }
            if pairs.len() == 1 {
                assert(value::pair_views(pairs@)[0] == (pairs@[0].0@, pairs@[0].1@));
                let el = write_element(show, xsd, pairs[0].0.as_str(), &pairs[0].1, None);
                let mut out: String = "<?xml version='1.0' encoding='UTF-8'?>\n".to_owned();
                write_el(&el, "", &mut out);
                return Ok(out);
            }
        },
        _ => {},
    }
    Err(
        Error::Json(
            "JSON root must be an object with exactly one key (the root element tag)".to_owned(),
        ),
    )
}

} // verus!
