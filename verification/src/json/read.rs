//! From XML to JSON.
use vstd::prelude::*;
use crate::error::Outcome;
use crate::float::Float64;
use crate::json::dom;
use crate::json::dom::{Dom, parse_dom};
use crate::json::roundtrip;
use crate::json::schema;
use crate::json::spelling;
use crate::json::value;
use crate::json::value::{JVal, to_json_string};
use crate::text;

verus! {

/// What a way to read floating-point numbers gives for a text.
pub open spec fn reading<P: Fn(&str) -> Option<Float64>>(parse: P, text: Seq<char>) -> Option<
    Float64,
> {
    (choose|p: (&'static str, Option<Float64>)|
        p.0@ == text && #[trigger] call_ensures(parse, (p.0,), p.1)).1
}

/// Whether a way to read floating-point numbers always gives the same number for the same text.
pub open spec fn reads_floats<P: Fn(&str) -> Option<Float64>>(parse: P) -> bool {
    &&& forall|s: &'static str| call_requires(parse, (s,))
    &&& forall|s: &'static str, t: &'static str, a: Option<Float64>, b: Option<Float64>|
        #![trigger call_ensures(parse, (s,), a), call_ensures(parse, (t,), b)]
        s@ == t@ && call_ensures(parse, (s,), a) && call_ensures(parse, (t,), b) ==> a == b
}

/// The numbers that texts stand for.
pub type FloatReadings = spec_fn(Seq<char>) -> Option<Float64>;

/// The numbers that a way to read floating-point numbers gives.
pub open spec fn readings_of<P: Fn(&str) -> Option<Float64>>(parse: P) -> FloatReadings {
    |text: Seq<char>| reading(parse, text)
}

/// Reads a floating-point number.
pub fn read_float<P: Fn(&str) -> Option<Float64>>(parse: &P, value: &str) -> (r: Option<Float64>)
    requires
        reads_floats(*parse),
    ensures
        r == readings_of(*parse)(value@),
{
    let number: Option<Float64> = parse(value);
    proof {
        let given = (value, number);
        assert(given.0@ == value@ && call_ensures(*parse, (given.0,), given.1));
        assert(reading(*parse, value@) == number);
    }
    number
}

/// Whether a text is the decimal text of a 64-bit integer.
pub open spec fn is_integer(value: Seq<char>) -> bool {
    exists|i: i64| value == #[trigger] text::integer(i as int)
}

/// The 64-bit integer whose decimal text this is.
pub open spec fn integer_of(value: Seq<char>) -> i64 {
    choose|i: i64| value == #[trigger] text::integer(i as int)
}

/// What a leaf text stands for: a boolean, an integer in its canonical form, a decimal number, or the
/// text itself. Texts with inner spaces, hexadecimal numbers, dotted versions, numbers that start
/// with a point and numbers with an exponent stay texts.
pub open spec fn numeric(readings: FloatReadings, value: Seq<char>) -> value::JsonView {
    if text::trimmed(value).contains(' ') || text::starts_with(value, "0x"@) || text::starts_with(
        value,
        "0X"@,
    ) || text::count(value, '.') > 1 {
        value::JsonView::Str(value)
    } else if value == "true"@ {
        value::JsonView::Bool(true)
    } else if value == "false"@ {
        value::JsonView::Bool(false)
    } else if is_integer(value) {
        value::JsonView::Int(integer_of(value) as int)
    } else {
        match readings(value) {
            Some(f) => if f.is_finite() && !text::starts_with(value, "."@) && !value.contains('e')
                && !value.contains('E') {
                value::JsonView::Float(f)
            } else {
                value::JsonView::Str(value)
            },
            None => value::JsonView::Str(value),
        }
    }
}

/// What a leaf text stands for.
pub fn try_numeric<P: Fn(&str) -> Option<Float64>>(parse: &P, value: &str) -> (r: JVal)
    requires
        reads_floats(*parse),
    ensures
        r@ == numeric(readings_of(*parse), value@),
{
    if text::contains(text::trim(value).as_str(), ' ') {
        return JVal::Str(value.to_owned());
    }
    if text::has_prefix(value, "0x") || text::has_prefix(value, "0X") {
        return JVal::Str(value.to_owned());
    }
    if text::repeats(value, '.') {
        return JVal::Str(value.to_owned());
    }
    if text::same(value, "true") {
        return JVal::Bool(true);
    }
    if text::same(value, "false") {
        return JVal::Bool(false);
    }
    if let Some(i) = text::canonical_integer(value) {
        proof {
            assert(value@ == text::integer(i as int));
            text::integer_is_injective(i as int, integer_of(value@) as int);
        }
        return JVal::Int(i);
    }
    if let Some(f) = read_float(parse, value) {
        if f.finite() && !text::has_prefix(value, ".") && !text::contains(value, 'e')
            && !text::contains(value, 'E') {
            return JVal::Float(f);
        }
    }
    JVal::Str(value.to_owned())
}

/// The text of an element without the white space at its ends; nothing where that is empty.
pub open spec fn text_value(text: Seq<char>) -> Option<Seq<char>> {
    let t = text::trimmed(text);
    if t.len() == 0 {
        None
    } else {
        Some(t)
    }
}

/// The pairs that the attributes of an element give.
pub open spec fn attribute_pairs(readings: FloatReadings, attrs: Seq<dom::Pair>) -> Seq<
    (Seq<char>, value::JsonView),
> {
    attrs.map_values(|p: dom::Pair| (p.0, numeric(readings, p.1)))
}

/// The pair that the text of an element gives.
pub open spec fn text_pairs(readings: FloatReadings, text: Seq<char>) -> Seq<
    (Seq<char>, value::JsonView),
> {
    match text_value(text) {
        Some(t) => seq![("$text"@, numeric(readings, t))],
        None => Seq::empty(),
    }
}

/// Whether no earlier child has the name of the child at a place.
pub open spec fn first_of_its_name(children: Seq<dom::DomView>, at: int) -> bool {
    forall|k: int| 0 <= k < at ==> (#[trigger] children[k]).name != children[at].name
}

/// One value stands for itself; several make a list.
pub open spec fn gathered(values: Seq<value::JsonView>) -> value::JsonView {
    if values.len() == 1 {
        values[0]
    } else {
        value::JsonView::Arr(values)
    }
}

/// What an element is in JSON. A leaf without attributes is its scalar value, or null where it is
/// empty. Any other element is an object: attributes first, text next, and child elements last, all
/// children of one name gathered where the first of them stands.
pub open spec fn element_json(readings: FloatReadings, el: dom::DomView) -> value::JsonView
    decreases el, 0nat, 0nat,
{
    if el.attrs.len() == 0 && el.children.len() == 0 {
        match text_value(el.text) {
            Some(t) => numeric(readings, t),
            None => value::JsonView::Null,
        }
    } else {
        value::JsonView::Obj(
            attribute_pairs(readings, el.attrs) + text_pairs(readings, el.text) + child_pairs(
                readings,
                el.children,
                el.children.len(),
            ),
        )
    }
}

/// The pairs that the names of the first `n` children give.
pub open spec fn child_pairs(
    readings: FloatReadings,
    children: Seq<dom::DomView>,
    n: nat,
) -> Seq<(Seq<char>, value::JsonView)>
    decreases children, 1nat, n,
{
    if n == 0 || n > children.len() {
        Seq::empty()
    } else {
        let before = child_pairs(readings, children, (n - 1) as nat);
        let name = children[n - 1].name;
        if first_of_its_name(children, n - 1) {
            before.push((name, gathered(values_named(readings, children, name, children.len()))))
        } else {
            before
        }
    }
}

/// The values of those of the first `n` children that have a name.
pub open spec fn values_named(
    readings: FloatReadings,
    children: Seq<dom::DomView>,
    name: Seq<char>,
    n: nat,
) -> Seq<value::JsonView>
    decreases children, 0nat, n,
{
    if n == 0 || n > children.len() {
        Seq::empty()
    } else {
        let before = values_named(readings, children, name, (n - 1) as nat);
        if children[n - 1].name == name {
            before.push(element_json(readings, children[n - 1]))
        } else {
            before
        }
    }
}

/// What an element is in JSON.
pub fn element_to_json<P: Fn(&str) -> Option<Float64>>(parse: &P, el: &Dom) -> (r: JVal)
    requires
        reads_floats(*parse),
    ensures
        r@ == element_json(readings_of(*parse), el@),
    decreases el,
{
    let ghost readings = readings_of(*parse);
    let ghost children = el@.children;
    proof {
        dom::dom_view(*el);
    }
    let words = text::trim(el.text.as_str());
    if el.children.len() == 0 && el.attrs.len() == 0 {
        return if words.as_str().is_empty() {
            JVal::Null
        } else {
            try_numeric(parse, words.as_str())
        };
    }
    let mut obj: Vec<(String, JVal)> = Vec::new();
    let mut i: usize = 0;
    let ghost attrs = dom::pair_views(el.attrs@);
    assert(value::pair_views(obj@) =~= attribute_pairs(readings, attrs.take(0)));
    while i < el.attrs.len()
        invariant
            i <= el.attrs@.len(),
            reads_floats(*parse),
            readings == readings_of(*parse),
            attrs == dom::pair_views(el.attrs@),
            value::pair_views(obj@) == attribute_pairs(readings, attrs.take(i as int)),
        decreases el.attrs@.len() - i,
    {
        let ghost before = obj@;
        let ghost pair = el.attrs@[i as int];
        let v = try_numeric(parse, el.attrs[i].1.as_str());
        obj.push((el.attrs[i].0.clone(), v));
        assert(value::pair_views(obj@) =~= value::pair_views(before).push((pair.0@, v@)));
        assert(attrs.take(i + 1) =~= attrs.take(i as int).push((pair.0@, pair.1@)));
        assert(attribute_pairs(readings, attrs.take(i + 1)) =~= attribute_pairs(
            readings,
            attrs.take(i as int),
        ).push((pair.0@, v@)));
        i += 1;
    }
    assert(attrs.take(attrs.len() as int) =~= attrs);
    if !words.as_str().is_empty() {
        let ghost before = obj@;
        let v = try_numeric(parse, words.as_str());
        obj.push(("$text".to_owned(), v));
        assert(value::pair_views(obj@) =~= value::pair_views(before).push(("$text"@, v@)));
    }
    let ghost head = attribute_pairs(readings, attrs) + text_pairs(readings, el@.text);
    assert(value::pair_views(obj@) =~= head + child_pairs(readings, children, 0));
    let mut c: usize = 0;
    while c < el.children.len()
        invariant
            c <= el.children@.len(),
            reads_floats(*parse),
            readings == readings_of(*parse),
            children == dom::dom_views(el.children@),
            value::pair_views(obj@) == head + child_pairs(readings, children, c as nat),
        decreases el.children@.len() - c,
    {
        let name = &el.children[c].name;
        proof {
            dom::dom_view(el.children@[c as int]);
            assert(children[c as int].name == name@);
        }
        if !named_earlier(&el.children, c) {
            let mut values: Vec<JVal> = Vec::new();
            let mut k: usize = 0;
            assert(value::value_views(values@) =~= values_named(readings, children, name@, 0));
            while k < el.children.len()
                invariant
                    k <= el.children@.len(),
                    reads_floats(*parse),
                    readings == readings_of(*parse),
                    children == dom::dom_views(el.children@),
                    value::value_views(values@) == values_named(
                        readings,
                        children,
                        name@,
                        k as nat,
                    ),
                    c < k ==> values@.len() > 0,
                    c < el.children@.len(),
                    children[c as int].name == name@,
                decreases el.children@.len() - k,
            {
                proof {
                    dom::dom_view(el.children@[k as int]);
                    assert(decreases_to!(el => el.children@[k as int]));
                }
                if text::same(el.children[k].name.as_str(), name.as_str()) {
                    let ghost before = values@;
                    let v = element_to_json(parse, &el.children[k]);
                    values.push(v);
                    assert(value::value_views(values@) =~= value::value_views(before).push(v@));
                }
                k += 1;
            }
            let ghost before = obj@;
            let ghost all = value::value_views(values@);
            let v: JVal = if values.len() == 1 {
                values.remove(0)
            } else {
                proof {
                    value::list_view(values);
                }
                JVal::Arr(values)
            };
            assert(v@ == gathered(all));
            obj.push((name.clone(), v));
            assert(value::pair_views(obj@) =~= value::pair_views(before).push((name@, v@)));
        }
        c += 1;
        assert(value::pair_views(obj@) =~= head + child_pairs(readings, children, c as nat));
    }
    proof {
        value::object_view(obj);
    }
    JVal::Obj(obj)
}

/// Whether an earlier child has the name of the child at a place.
fn named_earlier(list: &Vec<Dom>, at: usize) -> (r: bool)
    requires
        at < list@.len(),
    ensures
        r == !first_of_its_name(dom::dom_views(list@), at as int),
{
    let ghost all = dom::dom_views(list@);
    proof {
        dom::dom_view(list@[at as int]);
    }
    let mut k: usize = 0;
    while k < at
        invariant
            k <= at < list@.len(),
            all == dom::dom_views(list@),
            all[at as int].name == list@[at as int].name@,
            forall|j: int| 0 <= j < k ==> (#[trigger] all[j]).name != all[at as int].name,
        decreases at - k,
    {
        proof {
            dom::dom_view(list@[k as int]);
            assert(all[k as int] == list@[k as int]@);
        }
        if text::same(list[k].name.as_str(), list[at].name.as_str()) {
            return true;
        }
        k += 1;
    }
    false
}

/// The JSON form of a document tree: an object with the name of the root as its only key.
pub open spec fn document_json(readings: FloatReadings, root: dom::DomView) -> value::JsonView {
    value::JsonView::Obj(seq![(root.name, element_json(readings, root))])
}

/// The JSON text of an XML document. `parse` reads the floating-point numbers of the document and
/// `show` writes them. The JSON form of a document that is recoverable by a schema, written as XML by
/// that schema, comes back.
pub fn hcdf_xml_to_json<P: Fn(&str) -> Option<Float64>, W: Fn(Float64) -> String>(
    xml: &str,
    parse: &P,
    show: &W,
) -> (r: Outcome<String>)
    requires
        reads_floats(*parse),
        value::writes_floats(*show),
    ensures
        match dom::tree_of(xml@) {
            Ok(root) => r matches Ok(json) && json@ == value::json_text(
                value::texts_of(*show),
                document_json(readings_of(*parse), root),
                ""@,
            ) + "\n"@,
            Err(message) => r matches Err(e) && e.is_xml(message),
        },
        forall|info: schema::XsdView, root: dom::DomView| #[trigger]
            spelling::is_written_for(
                readings_of(*parse),
                value::texts_of(*show),
                info,
                root,
                xml@,
            ) && roundtrip::is_recoverable(
                readings_of(*parse),
                value::texts_of(*show),
                info,
                root,
                None,
            ) && roundtrip::is_plainly_named(root) ==> (r matches Ok(json) && json@ == value::json_text(
                value::texts_of(*show),
                document_json(readings_of(*parse), root),
                ""@,
            ) + "\n"@),
{
    let root = parse_dom(xml);
    proof {
        let readings = readings_of(*parse);
        let texts = value::texts_of(*show);
        assert forall|info: schema::XsdView, root: dom::DomView| #[trigger]
            spelling::is_written_for(readings, texts, info, root, xml@)
                && roundtrip::is_recoverable(readings, texts, info, root, None)
                && roundtrip::is_plainly_named(root) implies (dom::tree_of(xml@) matches Ok(tree)
            && document_json(readings, tree) == document_json(readings, root)) by {
            spelling::json_comes_back(readings, texts, info, root, xml@);
        }
    }
    Ok(tree_to_json(&root?, parse, show))
}

/// The JSON text of a document tree.
pub fn tree_to_json<P: Fn(&str) -> Option<Float64>, W: Fn(Float64) -> String>(
    root: &Dom,
    parse: &P,
    show: &W,
) -> (r: String)
    requires
        reads_floats(*parse),
        value::writes_floats(*show),
    ensures
        r@ == value::json_text(
            value::texts_of(*show),
            document_json(readings_of(*parse), root@),
            ""@,
        ) + "\n"@,
{
    let v = element_to_json(parse, root);
    let mut pairs: Vec<(String, JVal)> = Vec::new();
    pairs.push((root.name.clone(), v));
    proof {
        dom::dom_view(*root);
        value::object_view(pairs);
        assert(value::pair_views(pairs@) =~= seq![(root@.name, v@)]);
    }
    to_json_string(show, &JVal::Obj(pairs))
}

} // verus!
