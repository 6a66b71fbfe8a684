//! Ordered JSON values and their text.
use vstd::prelude::*;
use crate::float::Float64;
use crate::quote;
use crate::text;

verus! {

/// A JSON value. An object keeps its keys in the order in which they were written, and integers
/// stay apart from floating-point numbers.
#[derive(Debug, PartialEq)]
pub enum JVal {
    Null,
    Bool(bool),
    Int(i64),
    Float(Float64),
    Str(String),
    Arr(Vec<JVal>),
    Obj(Vec<(String, JVal)>),
}

/// What a JSON value holds.
pub enum JsonView {
    Null,
    Bool(bool),
    Int(int),
    Float(Float64),
    Str(Seq<char>),
    Arr(Seq<JsonView>),
    Obj(Seq<(Seq<char>, JsonView)>),
}

impl View for JVal {
    type V = JsonView;

    open spec fn view(&self) -> JsonView
        decreases self,
    {
        match self {
            JVal::Null => JsonView::Null,
            JVal::Bool(b) => JsonView::Bool(*b),
            JVal::Int(i) => JsonView::Int(*i as int),
            JVal::Float(f) => JsonView::Float(*f),
            JVal::Str(s) => JsonView::Str(s@),
            JVal::Arr(items) => JsonView::Arr(
                Seq::new(
                    items@.len(),
                    |i: int|
                        if 0 <= i < items@.len() {
                            items@[i].view()
                        } else {
                            JsonView::Null
                        },
                ),
            ),
            JVal::Obj(pairs) => JsonView::Obj(
                Seq::new(
                    pairs@.len(),
                    |i: int|
                        if 0 <= i < pairs@.len() {
                            (pairs@[i].0@, pairs@[i].1.view())
                        } else {
                            (Seq::empty(), JsonView::Null)
                        },
                ),
            ),
        }
    }
}

/// What a list of values holds.
pub open spec fn value_views(items: Seq<JVal>) -> Seq<JsonView> {
    items.map_values(|v: JVal| v@)
}

/// What a list of keys and values holds.
pub open spec fn pair_views(pairs: Seq<(String, JVal)>) -> Seq<(Seq<char>, JsonView)> {
    pairs.map_values(|p: (String, JVal)| (p.0@, p.1@))
}

/// What a list holds, item by item.
pub proof fn list_view(items: Vec<JVal>)
    ensures
        JVal::Arr(items)@ == JsonView::Arr(value_views(items@)),
{
    reveal_with_fuel(<JVal as View>::view, 2);
    assert(JVal::Arr(items)@->Arr_0 =~= value_views(items@));
}

/// What an object holds, pair by pair.
pub proof fn object_view(pairs: Vec<(String, JVal)>)
    ensures
        JVal::Obj(pairs)@ == JsonView::Obj(pair_views(pairs@)),
{
    reveal_with_fuel(<JVal as View>::view, 2);
    assert(JVal::Obj(pairs)@->Obj_0 =~= pair_views(pairs@));
}

/// What a way to write floating-point numbers gives for a number.
pub open spec fn writing<W: Fn(Float64) -> String>(show: W, f: Float64) -> Seq<char> {
    (choose|s: String| call_ensures(show, (f,), s))@
}

/// Whether a way to write floating-point numbers always gives the same text for the same number.
pub open spec fn writes_floats<W: Fn(Float64) -> String>(show: W) -> bool {
    &&& forall|f: Float64| call_requires(show, (f,))
    &&& forall|f: Float64, a: String, b: String|
        #![trigger call_ensures(show, (f,), a), call_ensures(show, (f,), b)]
        call_ensures(show, (f,), a) && call_ensures(show, (f,), b) ==> a@ == b@
}

/// The texts of floating-point numbers.
pub type FloatTexts = spec_fn(Float64) -> Seq<char>;

/// The texts that a way to write floating-point numbers gives.
pub open spec fn texts_of<W: Fn(Float64) -> String>(show: W) -> FloatTexts {
    |f: Float64| writing(show, f)
}

/// A floating-point number as JSON and XML hold it: with a decimal point or an exponent.
pub open spec fn float_text(texts: FloatTexts, f: Float64) -> Seq<char> {
    let plain = texts(f);
    if plain.contains('.') || plain.contains('e') || plain.contains('E') {
        plain
    } else {
        plain + ".0"@
    }
}

/// The text of a floating-point number: what `show` gives, marked as fractional where it does not
/// look so.
pub fn fmt_float<W: Fn(Float64) -> String>(show: &W, f: Float64) -> (r: String)
    requires
        writes_floats(*show),
    ensures
        r@ == float_text(texts_of(*show), f),
{
    let mut s: String = show(f);
    assert(writing(*show, f) == s@);
    if !text::contains(s.as_str(), '.') && !text::contains(s.as_str(), 'e') && !text::contains(
        s.as_str(),
        'E',
    ) {
        s.append(".0");
    }
    s
}

/// The text of a JSON value whose lines after the first start with `pad`: two more spaces at each
/// level, one item or pair to a line, and nothing between the brackets of an empty list or object.
pub open spec fn json_text(texts: FloatTexts, v: JsonView, pad: Seq<char>) -> Seq<char>
    decreases v, 0nat,
{
    match v {
        JsonView::Null => "null"@,
        JsonView::Bool(b) => if b {
            "true"@
        } else {
            "false"@
        },
        JsonView::Int(i) => text::integer(i),
        JsonView::Float(f) => float_text(texts, f),
        JsonView::Str(s) => quote::json_string(s, false),
        JsonView::Arr(items) => if items.len() == 0 {
            "[]"@
        } else {
            "[\n"@ + item_lines(texts, items, pad + "  "@, items.len()) + pad + "]"@
        },
        JsonView::Obj(pairs) => if pairs.len() == 0 {
            "{}"@
        } else {
            "{\n"@ + pair_lines(texts, pairs, pad + "  "@, pairs.len()) + pad + "}"@
        },
    }
}

/// The comma after an item that is not the last, and the end of its line.
pub open spec fn line_end(last: bool) -> Seq<char> {
    if last {
        "\n"@
    } else {
        ","@ + "\n"@
    }
}

/// The lines of the first `n` items of a list.
pub open spec fn item_lines(
    texts: FloatTexts,
    items: Seq<JsonView>,
    pad: Seq<char>,
    n: nat,
) -> Seq<char>
    decreases items, n,
{
    if n == 0 || n > items.len() {
        Seq::empty()
    } else {
        item_lines(texts, items, pad, (n - 1) as nat) + pad + json_text(texts, items[n - 1], pad)
            + line_end(n == items.len())
    }
}

/// The lines of the first `n` pairs of an object.
pub open spec fn pair_lines(
    texts: FloatTexts,
    pairs: Seq<(Seq<char>, JsonView)>,
    pad: Seq<char>,
    n: nat,
) -> Seq<char>
    decreases pairs, n,
{
    if n == 0 || n > pairs.len() {
        Seq::empty()
    } else {
        pair_lines(texts, pairs, pad, (n - 1) as nat) + pad + quote::json_string(
            pairs[n - 1].0,
            false,
        ) + ": "@ + json_text(texts, pairs[n - 1].1, pad) + line_end(n == pairs.len())
    }
}

/// Writes a JSON value whose lines after the first start with `pad`.
fn write_json<W: Fn(Float64) -> String>(show: &W, v: &JVal, pad: &str, out: &mut String)
    requires
        writes_floats(*show),
    ensures
        final(out)@ == old(out)@ + json_text(texts_of(*show), v@, pad@),
    decreases v,
{
    let ghost texts = texts_of(*show);
    let ghost before = out@;
    match v {
        JVal::Null => {
            out.append("null");
        },
        JVal::Bool(b) => {
            out.append(
                if *b {
                    "true"
                } else {
                    "false"
                },
            );
        },
        JVal::Int(i) => {
            out.append(text::integer_text(*i).as_str());
        },
        JVal::Float(f) => {
            out.append(fmt_float(show, *f).as_str());
        },
        JVal::Str(s) => {
            quote::push_json_string(s.as_str(), false, out);
        },
        JVal::Arr(items) => {
            let ghost views = value_views(items@);
            proof {
                list_view(*items);
            }
            if items.len() == 0 {
                out.append("[]");
                return;
            }
            out.append("[\n");
            let mut inner: String = pad.to_owned();
            inner.append("  ");
            let mut i: usize = 0;
            assert(out@ =~= before + "[\n"@ + item_lines(texts, views, inner@, 0));
            while i < items.len()
                invariant
                    i <= items@.len(),
                    writes_floats(*show),
                    texts == texts_of(*show),
                    v@ == JsonView::Arr(views),
                    *v == JVal::Arr(*items),
                    views == value_views(items@),
                    out@ == before + "[\n"@ + item_lines(texts, views, inner@, i as nat),
                decreases items@.len() - i,
            {
                assert(decreases_to!(v => items@[i as int]));
                assert(views[i as int] == items@[i as int]@);
                out.append(inner.as_str());
                write_json(show, &items[i], inner.as_str(), out);
                if i + 1 < items.len() {
                    out.append(",");
                }
                out.append("\n");
                i += 1;
                assert(out@ =~= before + "[\n"@ + item_lines(texts, views, inner@, i as nat));
            }
            out.append(pad);
            out.append("]");
            assert(out@ =~= before + json_text(texts, v@, pad@));
        },
        JVal::Obj(pairs) => {
            let ghost views = pair_views(pairs@);
            proof {
                object_view(*pairs);
            }
            if pairs.len() == 0 {
                out.append("{}");
                return;
            }
            out.append("{\n");
            let mut inner: String = pad.to_owned();
            inner.append("  ");
            let mut i: usize = 0;
            assert(out@ =~= before + "{\n"@ + pair_lines(texts, views, inner@, 0));
            while i < pairs.len()
                invariant
                    i <= pairs@.len(),
                    writes_floats(*show),
                    texts == texts_of(*show),
                    v@ == JsonView::Obj(views),
                    *v == JVal::Obj(*pairs),
                    views == pair_views(pairs@),
                    out@ == before + "{\n"@ + pair_lines(texts, views, inner@, i as nat),
                decreases pairs@.len() - i,
            {
                assert(decreases_to!(v => pairs@[i as int].1));
                assert(views[i as int] == (pairs@[i as int].0@, pairs@[i as int].1@));
                out.append(inner.as_str());
                quote::push_json_string(pairs[i].0.as_str(), false, out);
                out.append(": ");
                write_json(show, &pairs[i].1, inner.as_str(), out);
                if i + 1 < pairs.len() {
                    out.append(",");
                }
                out.append("\n");
                i += 1;
                assert(out@ =~= before + "{\n"@ + pair_lines(texts, views, inner@, i as nat));
            }
            out.append(pad);
            out.append("}");
            assert(out@ =~= before + json_text(texts, v@, pad@));
        },
    }
}

/// The text of a JSON value, with a newline at its end.
pub fn to_json_string<W: Fn(Float64) -> String>(show: &W, v: &JVal) -> (r: String)
    requires
        writes_floats(*show),
    ensures
        r@ == json_text(texts_of(*show), v@, ""@) + "\n"@,
{
    let mut out: String = String::new();
    write_json(show, v, "", &mut out);
    out.append("\n");
    assert(out@ =~= json_text(texts_of(*show), v@, ""@) + "\n"@);
    out
}

} // verus!
