//! The JSON text of reports.
use vstd::prelude::*;
use crate::quote;
use crate::text;

verus! {

/// A value of a report. Objects keep their keys in the order in which they were given.
#[derive(Debug)]
pub enum Json {
    Str(String),
    Bool(bool),
    Uint(usize),
    Arr(Vec<Json>),
    Obj(Vec<(String, Json)>),
}

/// What a value of a report holds.
pub enum ReportView {
    Str(Seq<char>),
    Bool(bool),
    Uint(nat),
    Arr(Seq<ReportView>),
    Obj(Seq<(Seq<char>, ReportView)>),
}

impl View for Json {
    type V = ReportView;

    open spec fn view(&self) -> ReportView
        decreases self,
    {
        match self {
            Json::Str(s) => ReportView::Str(s@),
            Json::Bool(b) => ReportView::Bool(*b),
            Json::Uint(n) => ReportView::Uint(*n as nat),
            Json::Arr(items) => ReportView::Arr(
                Seq::new(
                    items@.len(),
                    |i: int|
                        if 0 <= i < items@.len() {
                            items@[i].view()
                        } else {
                            arbitrary()
                        },
                ),
            ),
            Json::Obj(pairs) => ReportView::Obj(
                Seq::new(
                    pairs@.len(),
                    |i: int|
                        if 0 <= i < pairs@.len() {
                            (pairs@[i].0@, pairs@[i].1.view())
                        } else {
                            arbitrary()
                        },
                ),
            ),
        }
    }
}

/// What a list of values holds.
pub open spec fn value_views(items: Seq<Json>) -> Seq<ReportView> {
    items.map_values(|v: Json| v@)
}

/// What a list of keys and values holds.
pub open spec fn pair_views(pairs: Seq<(String, Json)>) -> Seq<(Seq<char>, ReportView)> {
    pairs.map_values(|p: (String, Json)| (p.0@, p.1@))
}

/// What a list holds, item by item.
pub proof fn list_view(items: Vec<Json>)
    ensures
        Json::Arr(items)@ == ReportView::Arr(value_views(items@)),
{
    reveal_with_fuel(<Json as View>::view, 2);
    assert(Json::Arr(items)@->Arr_0 =~= value_views(items@));
}

/// What an object holds, pair by pair.
pub proof fn object_view(pairs: Vec<(String, Json)>)
    ensures
        Json::Obj(pairs)@ == ReportView::Obj(pair_views(pairs@)),
{
    reveal_with_fuel(<Json as View>::view, 2);
    assert(Json::Obj(pairs)@->Obj_0 =~= pair_views(pairs@));
}

/// The text of a value whose lines after the first start with `pad`: two more spaces at each level,
/// one item or pair to a line, all other characters than ASCII escaped, and nothing between the
/// brackets of an empty list or object.
pub open spec fn report_text(v: ReportView, pad: Seq<char>) -> Seq<char>
    decreases v, 0nat,
{
    match v {
        ReportView::Str(s) => quote::json_string(s, true),
        ReportView::Bool(b) => if b {
            "true"@
        } else {
            "false"@
        },
        ReportView::Uint(n) => text::decimal(n),
        ReportView::Arr(items) => if items.len() == 0 {
            "[]"@
        } else {
            "["@ + item_lines(items, pad + "  "@, items.len()) + "\n"@ + pad + "]"@
        },
        ReportView::Obj(pairs) => if pairs.len() == 0 {
            "{}"@
        } else {
            "{"@ + pair_lines(pairs, pad + "  "@, pairs.len()) + "\n"@ + pad + "}"@
        },
    }
}

/// What stands before an item: a comma where there is an earlier one, and the start of a line.
pub open spec fn line_start(first: bool) -> Seq<char> {
    if first {
        "\n"@
    } else {
        ",\n"@
    }
}

/// The lines of the first `n` items of a list.
pub open spec fn item_lines(items: Seq<ReportView>, pad: Seq<char>, n: nat) -> Seq<char>
    decreases items, n,
{
    if n == 0 || n > items.len() {
        Seq::empty()
    } else {
        item_lines(items, pad, (n - 1) as nat) + line_start(n == 1) + pad + report_text(
            items[n - 1],
            pad,
        )
    }
}

/// The lines of the first `n` pairs of an object.
pub open spec fn pair_lines(pairs: Seq<(Seq<char>, ReportView)>, pad: Seq<char>, n: nat) -> Seq<
    char,
>
    decreases pairs, n,
{
    if n == 0 || n > pairs.len() {
        Seq::empty()
    } else {
        pair_lines(pairs, pad, (n - 1) as nat) + line_start(n == 1) + pad + quote::json_string(
            pairs[n - 1].0,
            true,
        ) + ": "@ + report_text(pairs[n - 1].1, pad)
    }
}

/// Writes a value whose lines after the first start with `pad`.
fn write_value(v: &Json, pad: &str, out: &mut String)
    ensures
        final(out)@ == old(out)@ + report_text(v@, pad@),
    decreases v,
{
    let ghost before = out@;
    match v {
        Json::Str(s) => {
            quote::push_json_string(s.as_str(), true, out);
        },
        Json::Bool(b) => {
            out.append(
                if *b {
                    "true"
                } else {
                    "false"
                },
            );
        },
        Json::Uint(n) => {
            out.append(text::decimal_text(*n as u64).as_str());
        },
        Json::Arr(items) => {
            let ghost views = value_views(items@);
            proof {
                list_view(*items);
            }
            if items.len() == 0 {
                out.append("[]");
                return;
            }
            out.append("[");
            let mut inner: String = pad.to_owned();
            inner.append("  ");
            let mut i: usize = 0;
            assert(out@ =~= before + "["@ + item_lines(views, inner@, 0));
            while i < items.len()
                invariant
                    i <= items@.len(),
                    v@ == ReportView::Arr(views),
                    *v == Json::Arr(*items),
                    views == value_views(items@),
                    out@ == before + "["@ + item_lines(views, inner@, i as nat),
                decreases items@.len() - i,
            {
                assert(decreases_to!(v => v->Arr_0));
                assert(decreases_to!(v => items@[i as int]));
                assert(views[i as int] == items@[i as int]@);
                out.append(
                    if i == 0 {
                        "\n"
                    } else {
                        ",\n"
                    },
                );
                out.append(inner.as_str());
                write_value(&items[i], inner.as_str(), out);
                i += 1;
                assert(out@ =~= before + "["@ + item_lines(views, inner@, i as nat));
            }
            out.append("\n");
            out.append(pad);
            out.append("]");
            assert(out@ =~= before + report_text(v@, pad@));
        },
        Json::Obj(pairs) => {
            let ghost views = pair_views(pairs@);
            proof {
                object_view(*pairs);
            }
            if pairs.len() == 0 {
                out.append("{}");
                return;
            }
            out.append("{");
            let mut inner: String = pad.to_owned();
            inner.append("  ");
            let mut i: usize = 0;
            assert(out@ =~= before + "{"@ + pair_lines(views, inner@, 0));
            while i < pairs.len()
                invariant
                    i <= pairs@.len(),
                    v@ == ReportView::Obj(views),
                    *v == Json::Obj(*pairs),
                    views == pair_views(pairs@),
                    out@ == before + "{"@ + pair_lines(views, inner@, i as nat),
                decreases pairs@.len() - i,
            {
                assert(decreases_to!(v => v->Obj_0));
                assert(decreases_to!(pairs@ => pairs@[i as int]));
                assert(decreases_to!(v => pairs@[i as int].1));
                assert(views[i as int] == (pairs@[i as int].0@, pairs@[i as int].1@));
                out.append(
                    if i == 0 {
                        "\n"
                    } else {
                        ",\n"
                    },
                );
                out.append(inner.as_str());
                quote::push_json_string(pairs[i].0.as_str(), true, out);
                out.append(": ");
                write_value(&pairs[i].1, inner.as_str(), out);
                i += 1;
                assert(out@ =~= before + "{"@ + pair_lines(views, inner@, i as nat));
            }
            out.append("\n");
            out.append(pad);
            out.append("}");
            assert(out@ =~= before + report_text(v@, pad@));
        },
    }
}

/// The text of a value, without a newline at its end.
pub fn dump(v: &Json) -> (r: String)
    ensures
        r@ == report_text(v@, ""@),
{
    let mut out: String = String::new();
    write_value(v, "", &mut out);
    assert(out@ =~= report_text(v@, ""@));
    out
}

/// Whether every character of a text is ASCII.
pub open spec fn is_ascii(text: Seq<char>) -> bool {
    forall|i: int| 0 <= i < text.len() ==> (#[trigger] text[i] as int) < 0x80
}

proof fn digits_are_ascii(n: nat)
    ensures
        is_ascii(text::decimal(n)),
{
    text::decimal_stands_for_number(n);
    assert forall|i: int| 0 <= i < text::decimal(n).len() implies (#[trigger] text::decimal(
        n,
    )[i] as int) < 0x80 by {
        assert(text::is_digit(text::decimal(n)[i]));
    }
}

proof fn value_is_ascii(v: ReportView, pad: Seq<char>)
    requires
        is_ascii(pad),
    ensures
        is_ascii(report_text(v, pad)),
    decreases v, 0nat,
{
    reveal_strlit("true");
    reveal_strlit("false");
    reveal_strlit("[]");
    reveal_strlit("[");
    reveal_strlit("]");
    reveal_strlit("{}");
    reveal_strlit("{");
    reveal_strlit("}");
    reveal_strlit("\n");
    reveal_strlit("  ");
    match v {
        ReportView::Str(s) => {
            quote::ascii_string_is_plain(s);
        },
        ReportView::Bool(_) => {},
        ReportView::Uint(n) => {
            digits_are_ascii(n);
        },
        ReportView::Arr(items) => {
            items_are_ascii(items, pad + "  "@, items.len());
        },
        ReportView::Obj(pairs) => {
            pairs_are_ascii(pairs, pad + "  "@, pairs.len());
        },
    }
}

proof fn items_are_ascii(items: Seq<ReportView>, pad: Seq<char>, n: nat)
    requires
        is_ascii(pad),
    ensures
        is_ascii(item_lines(items, pad, n)),
    decreases items, n,
{
    reveal_strlit("\n");
    reveal_strlit(",\n");
    if 0 < n <= items.len() {
        items_are_ascii(items, pad, (n - 1) as nat);
        assert(decreases_to!(items => items[n - 1]));
        value_is_ascii(items[n - 1], pad);
    }
}

proof fn pairs_are_ascii(pairs: Seq<(Seq<char>, ReportView)>, pad: Seq<char>, n: nat)
    requires
        is_ascii(pad),
    ensures
        is_ascii(pair_lines(pairs, pad, n)),
    decreases pairs, n,
{
    reveal_strlit("\n");
    reveal_strlit(",\n");
    reveal_strlit(": ");
    if 0 < n <= pairs.len() {
        pairs_are_ascii(pairs, pad, (n - 1) as nat);
        quote::ascii_string_is_plain(pairs[n - 1].0);
        assert(decreases_to!(pairs => pairs[n - 1]));
        assert(decreases_to!(pairs => pairs[n - 1].1));
        value_is_ascii(pairs[n - 1].1, pad);
    }
}

/// The text of a report is ASCII, whatever the report says.
pub proof fn reports_are_ascii(v: ReportView)
    ensures
        is_ascii(report_text(v, ""@)),
{
    reveal_strlit("");
    value_is_ascii(v, ""@);
}

} // verus!
