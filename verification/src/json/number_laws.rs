//! Which texts are numbers in JSON, and which stay texts.
use vstd::prelude::*;
use crate::float::Float64;
use crate::json::dom;
use crate::json::read;
use crate::json::read::FloatReadings;
use crate::json::value;
use crate::text;

verus! {

/// Whether a JSON value is a number.
pub open spec fn is_number(v: value::JsonView) -> bool {
    v is Int || v is Float
}

/// Whether a text is read as a finite number.
pub open spec fn reads_finite(readings: FloatReadings, text: Seq<char>) -> bool {
    readings(text) matches Some(f) && f.is_finite()
}

/// A text with a minus sign in front, or without one.
pub open spec fn signed(negative: bool, text: Seq<char>) -> Seq<char> {
    if negative {
        seq!['-'] + text
    } else {
        text
    }
}

/// Whether a space stands between two characters that are no white space.
pub open spec fn has_inner_space(text: Seq<char>) -> bool {
    exists|i: int, j: int, k: int|
        0 <= i < j < k < text.len() && !text::is_whitespace(#[trigger] text[i]) && #[trigger] text[j]
            == ' ' && !text::is_whitespace(#[trigger] text[k])
}

/// Whether a character stands at two places of a text.
pub open spec fn stands_twice(text: Seq<char>, c: char) -> bool {
    exists|i: int, j: int|
        0 <= i < j < text.len() && #[trigger] text[i] == c && #[trigger] text[j] == c
}

/// Whether a text begins as a hexadecimal number does.
pub open spec fn looks_hexadecimal(text: Seq<char>) -> bool {
    text.len() >= 2 && text[0] == '0' && (text[1] == 'x' || text[1] == 'X')
}

proof fn trimmed_is_the_middle(text: Seq<char>) -> (r: (int, int))
    ensures
        0 <= r.0 <= r.1 <= text.len(),
        text::trimmed(text) == text.subrange(r.0, r.1),
        forall|i: int| 0 <= i < r.0 ==> text::is_whitespace(#[trigger] text[i]),
        forall|i: int| r.1 <= i < text.len() ==> text::is_whitespace(#[trigger] text[i]),
        r.0 < r.1 ==> !text::is_whitespace(text[r.0]) && !text::is_whitespace(text[r.1 - 1]),
    decreases text.len(),
{
    if text.len() == 0 {
        assert(text.subrange(0, 0) =~= text);
        (0, 0)
    } else if text::is_whitespace(text[0]) {
        let rest = text.drop_first();
        let at = trimmed_is_the_middle(rest);
        assert(text.subrange(at.0 + 1, at.1 + 1) =~= rest.subrange(at.0, at.1));
        assert forall|i: int| 0 <= i < at.0 + 1 implies text::is_whitespace(#[trigger] text[i]) by {
            if i > 0 {
                assert(rest[i - 1] == text[i]);
            }
        }
        assert forall|i: int| at.1 + 1 <= i < text.len() implies text::is_whitespace(
            #[trigger] text[i],
        ) by {
            assert(rest[i - 1] == text[i]);
        }
        (at.0 + 1, at.1 + 1)
    } else if text::is_whitespace(text.last()) {
        let rest = text.drop_last();
        let at = trimmed_is_the_middle(rest);
        assert(text.subrange(at.0, at.1) =~= rest.subrange(at.0, at.1));
        assert forall|i: int| 0 <= i < at.0 implies text::is_whitespace(#[trigger] text[i]) by {
            assert(rest[i] == text[i]);
        }
        assert forall|i: int| at.1 <= i < text.len() implies text::is_whitespace(
            #[trigger] text[i],
        ) by {
            if i < rest.len() {
                assert(rest[i] == text[i]);
            }
        }
        at
    } else {
        assert(text.subrange(0, text.len() as int) =~= text);
        (0, text.len() as int)
    }
}

/// White space at the ends of a text is what goes when it is trimmed, and nothing else does.
pub proof fn trimming_takes_the_ends(before: Seq<char>, text: Seq<char>, after: Seq<char>)
    requires
        text::is_blank(before),
        text::is_blank(after),
        text.len() > 0 ==> !text::is_whitespace(text[0]) && !text::is_whitespace(text.last()),
    ensures
        text::trimmed(before + text + after) == text,
{
    let whole = before + text + after;
    let at = trimmed_is_the_middle(whole);
    if text.len() > 0 {
        let first = before.len() as int;
        let last = before.len() + text.len() - 1;
        assert(whole[first] == text[0]);
        assert(whole[last] == text.last());
        assert(at.0 <= first && last < at.1);
        if at.0 < first {
            assert(whole[at.0] == before[at.0]);
            assert(text::is_whitespace(before[at.0]));
        }
        if at.1 - 1 > last {
            assert(whole[at.1 - 1] == after[at.1 - 1 - before.len() - text.len()]);
            assert(text::is_whitespace(after[at.1 - 1 - before.len() - text.len()]));
        }
        assert(whole.subrange(at.0, at.1) =~= text);
    } else {
        if at.0 < at.1 {
            if at.0 < before.len() {
                assert(whole[at.0] == before[at.0]);
                assert(text::is_whitespace(before[at.0]));
            } else {
                assert(whole[at.0] == after[at.0 - before.len()]);
                assert(text::is_whitespace(after[at.0 - before.len()]));
            }
        }
        assert(whole.subrange(at.0, at.1) =~= text);
    }
}

proof fn inner_space_is_kept(text: Seq<char>)
    ensures
        text::trimmed(text).contains(' ') == has_inner_space(text),
{
    let at = trimmed_is_the_middle(text);
    let middle = text.subrange(at.0, at.1);
    assert(text::is_whitespace(' '));
    if middle.contains(' ') {
        let m = middle.index_of(' ');
        assert(text[at.0 + m] == ' ');
        assert(!text::is_whitespace(text[at.0]));
        assert(!text::is_whitespace(text[at.1 - 1]));
        assert(at.0 < at.0 + m < at.1 - 1);
        assert(has_inner_space(text));
    }
    if has_inner_space(text) {
        let (i, j, k) = choose|i: int, j: int, k: int|
            0 <= i < j < k < text.len() && !text::is_whitespace(#[trigger] text[i])
                && #[trigger] text[j] == ' ' && !text::is_whitespace(#[trigger] text[k]);
        assert(at.0 <= i && k < at.1);
        assert(middle[j - at.0] == ' ');
    }
}

proof fn counts_places(text: Seq<char>, c: char)
    ensures
        text::count(text, c) > 0 <==> text.contains(c),
        text::count(text, c) > 1 <==> stands_twice(text, c),
    decreases text.len(),
{
    if text.len() > 0 {
        let rest = text.drop_last();
        let last = text.len() - 1;
        counts_places(rest, c);
        if rest.contains(c) {
            let i = rest.index_of(c);
            assert(text[i] == c);
            if text.last() == c {
                assert(text[last] == c);
                assert(stands_twice(text, c));
            }
        }
        if stands_twice(rest, c) {
            let (i, j) = choose|i: int, j: int|
                0 <= i < j < rest.len() && #[trigger] rest[i] == c && #[trigger] rest[j] == c;
            assert(text[i] == c && text[j] == c);
            assert(stands_twice(text, c));
        }
        if text.contains(c) {
            let i = text.index_of(c);
            if i < last {
                assert(rest[i] == c);
            }
        }
        if text.last() == c {
            assert(text[last] == c);
        }
        if stands_twice(text, c) {
            let (i, j) = choose|i: int, j: int|
                0 <= i < j < text.len() && #[trigger] text[i] == c && #[trigger] text[j] == c;
            assert(rest[i] == c);
            if j < last {
                assert(rest[j] == c);
                assert(stands_twice(rest, c));
            }
        }
    }
}

proof fn prefixes(text: Seq<char>)
    ensures
        (text::starts_with(text, "0x"@) || text::starts_with(text, "0X"@)) == looks_hexadecimal(text),
        text::starts_with(text, "."@) == (text.len() > 0 && text[0] == '.'),
{
    reveal_strlit("0x");
    reveal_strlit("0X");
    reveal_strlit(".");
    assert(text::starts_with(text, "."@) ==> text.take(1)[0] == text[0]);
    assert(text.len() > 0 && text[0] == '.' ==> text.take(1) =~= "."@);
    if text.len() >= 2 {
        assert(text.take(2)[0] == text[0] && text.take(2)[1] == text[1]);
        assert(text[0] == '0' && text[1] == 'x' ==> text.take(2) =~= "0x"@);
        assert(text[0] == '0' && text[1] == 'X' ==> text.take(2) =~= "0X"@);
    }
}

/// The text of an integer has digits only, but for a minus sign in front.
proof fn integers_are_digits(i: int)
    ensures
        text::integer(i).len() > 0,
        text::is_digit(text::integer(i)[0]) || text::integer(i)[0] == '-',
        forall|k: int| 0 < k < text::integer(i).len() ==> text::is_digit(#[trigger] text::integer(i)[k]),
{
    let n = if i < 0 { (-i) as nat } else { i as nat };
    text::decimal_stands_for_number(n);
    let t = text::integer(i);
    let d = text::decimal(n);
    assert(text::is_digit(d[0]));
    assert forall|k: int| 0 < k < t.len() implies text::is_digit(#[trigger] t[k]) by {
        if i < 0 {
            assert(t[k] == d[k - 1]);
        } else {
            assert(t[k] == d[k]);
        }
    }
}

proof fn integers_are_plain(i: int)
    ensures
        !has_inner_space(text::integer(i)),
        !looks_hexadecimal(text::integer(i)),
        !stands_twice(text::integer(i), '.'),
        !text::integer(i).contains('.'),
        text::integer(i) != "true"@,
        text::integer(i) != "false"@,
{
    let t = text::integer(i);
    integers_are_digits(i);
    reveal_strlit("true");
    reveal_strlit("false");
    assert("true"@[0] == 't' && "false"@[0] == 'f');
    assert(!text::is_digit('t') && !text::is_digit('f') && !text::is_digit('.'));
    assert(!text::is_digit('x') && !text::is_digit('X') && !text::is_digit(' '));
}

/// A text is a boolean in JSON exactly where it is one of the two words.
pub proof fn booleans_are_two_words(readings: FloatReadings, text: Seq<char>)
    ensures
        read::numeric(readings, "true"@) == value::JsonView::Bool(true),
        read::numeric(readings, "false"@) == value::JsonView::Bool(false),
        read::numeric(readings, text) is Bool <==> text == "true"@ || text == "false"@,
{
    reveal_strlit("true");
    reveal_strlit("false");
    inner_space_is_kept("true"@);
    inner_space_is_kept("false"@);
    counts_places("true"@, '.');
    counts_places("false"@, '.');
    prefixes("true"@);
    prefixes("false"@);
    assert(!"true"@.contains('.'));
    assert(!"false"@.contains('.'));
    assert("true"@[0] == 't' && "false"@[0] == 'f');
    assert(!has_inner_space("true"@));
    assert(!has_inner_space("false"@));
    assert("true"@.len() == 4 && "false"@.len() == 5);
    assert("true"@ != "false"@);
}

/// The text of a 64-bit integer is that integer in JSON.
pub proof fn integers_stay_integers(readings: FloatReadings, i: i64)
    ensures
        read::numeric(readings, text::integer(i as int)) == value::JsonView::Int(i as int),
{
    let t = text::integer(i as int);
    integers_are_plain(i as int);
    inner_space_is_kept(t);
    counts_places(t, '.');
    prefixes(t);
    assert(read::is_integer(t));
    text::integer_is_injective(i as int, read::integer_of(t) as int);
}

/// A text that is no boolean in JSON is a text, an integer whose decimal text it is, or the finite
/// number that it is read as.
pub proof fn a_value_comes_from_its_text(readings: FloatReadings, text: Seq<char>)
    ensures
        match read::numeric(readings, text) {
            value::JsonView::Bool(b) => text == (if b {
                "true"@
            } else {
                "false"@
            }),
            value::JsonView::Int(i) => i64::MIN <= i <= i64::MAX && text == text::integer(i),
            value::JsonView::Float(f) => readings(text) == Some(f) && f.is_finite(),
            value::JsonView::Str(s) => s == text,
            _ => false,
        },
{
}

/// A text is a number in JSON exactly where it is the text of a 64-bit integer, or is read as a finite
/// number and has no inner space, no prefix of a hexadecimal number, no second point, no point in
/// front and no letter of an exponent.
pub proof fn which_texts_are_numbers(readings: FloatReadings, text: Seq<char>)
    ensures
        is_number(read::numeric(readings, text)) <==> (exists|i: i64|
            text == #[trigger] text::integer(i as int)) || (reads_finite(readings, text)
            && !has_inner_space(text) && !looks_hexadecimal(text) && !stands_twice(text, '.') && !(
        text.len() > 0 && text[0] == '.') && !text.contains('e') && !text.contains('E')),
{
    inner_space_is_kept(text);
    counts_places(text, '.');
    prefixes(text);
    reveal_strlit("true");
    reveal_strlit("false");
    assert("true"@[3] == 'e' && "false"@[4] == 'e');
    if text == "true"@ || text == "false"@ {
        assert(text.contains('e'));
        if exists|i: i64| text == #[trigger] text::integer(i as int) {
            let i = choose|i: i64| text == #[trigger] text::integer(i as int);
            integers_are_plain(i as int);
        }
    }
    if exists|i: i64| text == #[trigger] text::integer(i as int) {
        let i = choose|i: i64| text == #[trigger] text::integer(i as int);
        integers_stay_integers(readings, i);
    }
}

proof fn digits_around_a_point(negative: bool, a: Seq<char>, b: Seq<char>)
    requires
        a.len() > 0,
        text::all_digits(a),
        b.len() > 0,
        text::all_digits(b),
    ensures
        ({
            let t = signed(negative, a + seq!['.'] + b);
            &&& !has_inner_space(t)
            &&& !looks_hexadecimal(t)
            &&& !stands_twice(t, '.')
            &&& t[0] != '.'
            &&& t.contains('.')
            &&& !t.contains('e')
            &&& !t.contains('E')
        }),
{
    let t = signed(negative, a + seq!['.'] + b);
    let shift: int = if negative { 1 } else { 0 };
    let point = shift + a.len();
    assert(t[point] == '.');
    assert(!text::is_digit('.') && !text::is_digit('e') && !text::is_digit('E'));
    assert(!text::is_digit('x') && !text::is_digit('X') && !text::is_digit(' '));
    assert forall|i: int| 0 <= i < t.len() && i != point implies text::is_digit(#[trigger] t[i]) || (
    negative && i == 0 && t[i] == '-') by {
        if i >= shift && i < point {
            assert(t[i] == a[i - shift]);
            assert(text::is_digit(a[i - shift]));
        } else if i > point {
            assert(t[i] == b[i - point - 1]);
            assert(text::is_digit(b[i - point - 1]));
        }
    }
}

/// A text of digits, a point and digits, with or without a minus sign in front, that is read as a finite
/// number is that number in JSON.
pub proof fn a_decimal_number_is_a_number(
    readings: FloatReadings,
    negative: bool,
    a: Seq<char>,
    b: Seq<char>,
    f: Float64,
)
    requires
        a.len() > 0,
        text::all_digits(a),
        b.len() > 0,
        text::all_digits(b),
        readings(signed(negative, a + seq!['.'] + b)) == Some(f),
        f.is_finite(),
    ensures
        read::numeric(readings, signed(negative, a + seq!['.'] + b)) == value::JsonView::Float(f),
{
    let t = signed(negative, a + seq!['.'] + b);
    digits_around_a_point(negative, a, b);
    which_texts_are_numbers(readings, t);
    a_value_comes_from_its_text(readings, t);
    if exists|i: i64| t == #[trigger] text::integer(i as int) {
        let i = choose|i: i64| t == #[trigger] text::integer(i as int);
        integers_are_plain(i as int);
    }
}

/// A minus sign in front of digits, a point and digits does not change whether the text is a number in
/// JSON, where both are read as finite numbers or neither is.
pub proof fn a_minus_sign_makes_no_text(readings: FloatReadings, a: Seq<char>, b: Seq<char>)
    requires
        a.len() > 0,
        text::all_digits(a),
        b.len() > 0,
        text::all_digits(b),
        reads_finite(readings, a + seq!['.'] + b) == reads_finite(
            readings,
            seq!['-'] + (a + seq!['.'] + b),
        ),
    ensures
        is_number(read::numeric(readings, a + seq!['.'] + b)) == is_number(
            read::numeric(readings, seq!['-'] + (a + seq!['.'] + b)),
        ),
{
    let t = a + seq!['.'] + b;
    let u = seq!['-'] + t;
    digits_around_a_point(false, a, b);
    digits_around_a_point(true, a, b);
    which_texts_are_numbers(readings, t);
    which_texts_are_numbers(readings, u);
    if exists|i: i64| t == #[trigger] text::integer(i as int) {
        let i = choose|i: i64| t == #[trigger] text::integer(i as int);
        integers_are_plain(i as int);
    }
    if exists|i: i64| u == #[trigger] text::integer(i as int) {
        let i = choose|i: i64| u == #[trigger] text::integer(i as int);
        integers_are_plain(i as int);
    }
}

/// Digits alone, with or without a minus sign in front, that are read as a finite number are a number in
/// JSON, however many they are.
pub proof fn digits_are_a_number(readings: FloatReadings, negative: bool, a: Seq<char>)
    requires
        a.len() > 0,
        text::all_digits(a),
        reads_finite(readings, signed(negative, a)),
    ensures
        is_number(read::numeric(readings, signed(negative, a))),
{
    let t = signed(negative, a);
    let shift: int = if negative { 1 } else { 0 };
    assert(!text::is_digit('.') && !text::is_digit('e') && !text::is_digit('E'));
    assert(!text::is_digit('x') && !text::is_digit('X') && !text::is_digit(' '));
    assert forall|i: int| 0 <= i < t.len() implies text::is_digit(#[trigger] t[i]) || (negative && i
        == 0 && t[i] == '-') by {
        if i >= shift {
            assert(t[i] == a[i - shift]);
            assert(text::is_digit(a[i - shift]));
        }
    }
    which_texts_are_numbers(readings, t);
}

// Elements.

/// A leaf element without attributes is the value of its text in JSON, whatever white space stands
/// around the text, and null where it has nothing but white space.
pub proof fn a_leaf_is_its_text(
    readings: FloatReadings,
    leaf: dom::DomView,
    before: Seq<char>,
    text: Seq<char>,
    after: Seq<char>,
)
    requires
        leaf.attrs.len() == 0,
        leaf.children.len() == 0,
        leaf.text == before + text + after,
        text::is_blank(before),
        text::is_blank(after),
        text.len() > 0 ==> !text::is_whitespace(text[0]) && !text::is_whitespace(text.last()),
    ensures
        text.len() > 0 ==> read::element_json(readings, leaf) == read::numeric(readings, text),
        text.len() == 0 ==> read::element_json(readings, leaf) is Null,
{
    trimming_takes_the_ends(before, text, after);
}

/// The values in JSON of the children of a name, in the order of the children.
pub open spec fn values_of_children(
    readings: FloatReadings,
    children: Seq<dom::DomView>,
    name: Seq<char>,
) -> Seq<value::JsonView> {
    children.filter(|c: dom::DomView| c.name == name).map_values(
        |c: dom::DomView| read::element_json(readings, c),
    )
}

proof fn named_values_are_filtered(
    readings: FloatReadings,
    children: Seq<dom::DomView>,
    name: Seq<char>,
    n: nat,
)
    requires
        n <= children.len(),
    ensures
        read::values_named(readings, children, name, n) == values_of_children(
            readings,
            children.take(n as int),
            name,
        ),
    decreases n,
{
    let of_name = |c: dom::DomView| c.name == name;
    let json = |c: dom::DomView| read::element_json(readings, c);
    reveal(Seq::filter);
    if n == 0 {
        assert(children.take(0).filter(of_name).map_values(json) =~= Seq::empty());
    } else {
        named_values_are_filtered(readings, children, name, (n - 1) as nat);
        let upto = children.take(n as int);
        assert(upto.drop_last() =~= children.take(n - 1));
        assert(upto.last() == children[n - 1]);
        assert(upto.filter(of_name).map_values(json) =~= (if of_name(children[n - 1]) {
            children.take(n - 1).filter(of_name).map_values(json).push(json(children[n - 1]))
        } else {
            children.take(n - 1).filter(of_name).map_values(json)
        }));
    }
}

/// Whether a pair gathers the children of its name: the value of the only one, or the list of the values
/// of all.
pub open spec fn gathers(
    readings: FloatReadings,
    children: Seq<dom::DomView>,
    pair: (Seq<char>, value::JsonView),
) -> bool {
    let values = values_of_children(readings, children, pair.0);
    if values.len() == 1 {
        pair.1 == values[0]
    } else {
        pair.1 == value::JsonView::Arr(values)
    }
}

/// Whether a name is that of one of the first `n` children.
pub open spec fn is_child_name(children: Seq<dom::DomView>, n: nat, name: Seq<char>) -> bool {
    exists|k: int| 0 <= k < n && (#[trigger] children[k]).name == name
}

/// Whether a pair has a name.
pub open spec fn is_key(pairs: Seq<(Seq<char>, value::JsonView)>, name: Seq<char>) -> bool {
    exists|p: int| 0 <= p < pairs.len() && (#[trigger] pairs[p]).0 == name
}

/// Whether pairs gather the first `n` children: each pair the children of its name, no name twice, and
/// the names those of the children.
#[verifier::opaque]
pub open spec fn gathers_all(
    readings: FloatReadings,
    children: Seq<dom::DomView>,
    pairs: Seq<(Seq<char>, value::JsonView)>,
    n: nat,
) -> bool {
    &&& forall|p: int| 0 <= p < pairs.len() ==> gathers(readings, children, #[trigger] pairs[p])
    &&& forall|p: int, q: int|
        0 <= p < q < pairs.len() ==> (#[trigger] pairs[p]).0 != (#[trigger] pairs[q]).0
    &&& forall|name: Seq<char>| #[trigger]
        is_key(pairs, name) <==> is_child_name(children, n, name)
}

proof fn pairs_gather(readings: FloatReadings, children: Seq<dom::DomView>, n: nat, p: int)
    requires
        n <= children.len(),
        0 <= p < read::child_pairs(readings, children, n).len(),
    ensures
        gathers(readings, children, read::child_pairs(readings, children, n)[p]),
    decreases n,
{
    let before = read::child_pairs(readings, children, (n - 1) as nat);
    if p < before.len() {
        pairs_gather(readings, children, (n - 1) as nat, p);
    } else {
        let name = children[n - 1].name;
        named_values_are_filtered(readings, children, name, children.len());
        assert(children.take(children.len() as int) =~= children);
    }
}

proof fn keys_are_child_names(
    readings: FloatReadings,
    children: Seq<dom::DomView>,
    n: nat,
    name: Seq<char>,
)
    requires
        n <= children.len(),
    ensures
        is_key(read::child_pairs(readings, children, n), name) <==> is_child_name(children, n, name),
    decreases n,
{
    let pairs = read::child_pairs(readings, children, n);
    if n > 0 {
        let m = (n - 1) as nat;
        let before = read::child_pairs(readings, children, m);
        let own = children[n - 1].name;
        keys_are_child_names(readings, children, m, name);
        assert(is_child_name(children, n, name) <==> is_child_name(children, m, name) || own == name) by {
            if is_child_name(children, n, name) {
                let k = choose|k: int| 0 <= k < n && (#[trigger] children[k]).name == name;
                assert(k < m || k == n - 1);
            }
        }
        if read::first_of_its_name(children, n - 1) {
            assert(pairs.last().0 == own);
            assert(is_key(pairs, name) <==> is_key(before, name) || own == name) by {
                if is_key(before, name) {
                    let p = choose|p: int| 0 <= p < before.len() && (#[trigger] before[p]).0 == name;
                    assert(pairs[p] == before[p]);
                }
                if is_key(pairs, name) {
                    let p = choose|p: int| 0 <= p < pairs.len() && (#[trigger] pairs[p]).0 == name;
                    if p < before.len() {
                        assert(pairs[p] == before[p]);
                    }
                }
                assert(pairs[pairs.len() - 1].0 == own);
            }
        } else {
            assert(is_child_name(children, m, own));
        }
    }
}

proof fn keys_are_distinct(
    readings: FloatReadings,
    children: Seq<dom::DomView>,
    n: nat,
    p: int,
    q: int,
)
    requires
        n <= children.len(),
        0 <= p < q < read::child_pairs(readings, children, n).len(),
    ensures
        read::child_pairs(readings, children, n)[p].0 != read::child_pairs(readings, children, n)[q].0,
    decreases n,
{
    let m = (n - 1) as nat;
    let before = read::child_pairs(readings, children, m);
    if q < before.len() {
        keys_are_distinct(readings, children, m, p, q);
    } else {
        let name = before[p].0;
        keys_are_child_names(readings, children, m, name);
        assert(is_key(before, name));
        let k = choose|k: int| 0 <= k < m && (#[trigger] children[k]).name == name;
        assert(children[k].name != children[n - 1].name);
    }
}

proof fn children_are_gathered(readings: FloatReadings, children: Seq<dom::DomView>)
    ensures
        gathers_all(
            readings,
            children,
            read::child_pairs(readings, children, children.len()),
            children.len(),
        ),
{
    reveal(gathers_all);
    let n = children.len();
    let pairs = read::child_pairs(readings, children, n);
    assert forall|p: int| 0 <= p < pairs.len() implies gathers(
        readings,
        children,
        #[trigger] pairs[p],
    ) by {
        pairs_gather(readings, children, n, p);
    }
    assert forall|p: int, q: int| 0 <= p < q < pairs.len() implies (#[trigger] pairs[p]).0 != (
    #[trigger] pairs[q]).0 by {
        keys_are_distinct(readings, children, n, p, q);
    }
    assert forall|name: Seq<char>| #[trigger]
        is_key(pairs, name) <==> is_child_name(children, n, name) by {
        keys_are_child_names(readings, children, n, name);
    }
}

/// An element with attributes or children is an object: its attributes in order, each with the value of
/// its text, then its text under `$text` where it has any, then one pair for each name that its children
/// have, with all the children of the name.
pub proof fn an_element_is_an_object(readings: FloatReadings, el: dom::DomView)
    requires
        el.attrs.len() > 0 || el.children.len() > 0,
    ensures
        ({
            let n = el.attrs.len() as int;
            let words = text::trimmed(el.text);
            &&& read::element_json(readings, el) matches value::JsonView::Obj(pairs)
            &&& pairs.len() >= n
            &&& forall|i: int|
                0 <= i < n ==> #[trigger] pairs[i] == (
                    el.attrs[i].0,
                    read::numeric(readings, el.attrs[i].1),
                )
            &&& words.len() > 0 ==> pairs.len() > n && pairs[n] == (
                "$text"@,
                read::numeric(readings, words),
            ) && gathers_all(readings, el.children, pairs.skip(n + 1), el.children.len())
            &&& words.len() == 0 ==> gathers_all(
                readings,
                el.children,
                pairs.skip(n),
                el.children.len(),
            )
        }),
{
    let attrs = read::attribute_pairs(readings, el.attrs);
    let texts = read::text_pairs(readings, el.text);
    let children = read::child_pairs(readings, el.children, el.children.len());
    let pairs = attrs + texts + children;
    let n = el.attrs.len() as int;
    assert(gathers_all(readings, el.children, children, el.children.len())) by {
        children_are_gathered(readings, el.children);
    }
    assert(read::element_json(readings, el) == value::JsonView::Obj(pairs));
    if text::trimmed(el.text).len() > 0 {
        assert(pairs.skip(n + 1) =~= children);
    } else {
        assert(pairs.skip(n) =~= children);
    }
}

} // verus!
