//! Quoted texts can be read back.
use vstd::prelude::*;
use crate::quote;
use crate::text;

verus! {

proof fn rewritten_from_the_front(text: Seq<char>, each: spec_fn(char) -> Seq<char>)
    requires
        text.len() > 0,
    ensures
        text::rewritten(text, each) == each(text[0]) + text::rewritten(text.drop_first(), each),
    decreases text.len(),
{
    let rest = text.drop_first();
    if text.len() == 1 {
        assert(text.drop_last() =~= Seq::empty());
        assert(rest =~= Seq::empty());
        assert(text::rewritten(text.drop_last(), each) =~= Seq::empty());
        assert(text::rewritten(rest, each) =~= Seq::empty());
        assert(text.last() == text[0]);
        assert(text::rewritten(text, each) =~= each(text[0]) + text::rewritten(rest, each));
    } else {
        rewritten_from_the_front(text.drop_last(), each);
        assert(text.drop_last().drop_first() =~= rest.drop_last());
        assert(text.drop_last()[0] == text[0]);
        assert(rest.last() == text.last());
        assert(text::rewritten(text, each) =~= each(text[0]) + text::rewritten(rest, each));
    }
}

// Diagnostics.

/// What a character behind a backslash stands for.
pub open spec fn behind_backslash(c: char) -> char {
    if c == 'n' {
        '\n'
    } else if c == 'r' {
        '\r'
    } else if c == 't' {
        '\t'
    } else {
        c
    }
}

/// The text that stands between quotes: what follows a backslash is taken by what it stands for, and all
/// else as it is.
pub open spec fn read_back(s: Seq<char>) -> Seq<char>
    decreases s.len(),
{
    if s.len() == 0 {
        Seq::empty()
    } else if s[0] == '\\' && s.len() >= 2 {
        seq![behind_backslash(s[1])] + read_back(s.skip(2))
    } else {
        seq![s[0]] + read_back(s.skip(1))
    }
}

proof fn one_read_back(c: char, quote: char, rest: Seq<char>)
    requires
        quote == '\'' || quote == '"',
    ensures
        read_back(quote::quoted_char(c, quote) + rest) == seq![c] + read_back(rest),
{
    reveal_strlit("\\\\");
    reveal_strlit("\\n");
    reveal_strlit("\\r");
    reveal_strlit("\\t");
    let q = quote::quoted_char(c, quote);
    let whole = q + rest;
    assert(whole[0] == q[0]);
    if q.len() == 2 {
        assert(whole[1] == q[1]);
        assert(whole.skip(2) =~= rest);
    } else {
        assert(whole.skip(1) =~= rest);
    }
}

proof fn all_read_back(text: Seq<char>, quote: char)
    requires
        quote == '\'' || quote == '"',
    ensures
        read_back(text::rewritten(text, |c: char| quote::quoted_char(c, quote))) == text,
    decreases text.len(),
{
    let each = |c: char| quote::quoted_char(c, quote);
    if text.len() == 0 {
        assert(text::rewritten(text, each) =~= Seq::empty());
        assert(text =~= Seq::empty());
    } else {
        rewritten_from_the_front(text, each);
        all_read_back(text.drop_first(), quote);
        one_read_back(text[0], quote, text::rewritten(text.drop_first(), each));
        assert(seq![text[0]] + text.drop_first() =~= text);
    }
}

/// A quoted text stands between two quotes of one kind, and what stands between them reads back as the
/// text. So different texts are quoted differently.
pub proof fn quoted_texts_read_back(text: Seq<char>)
    ensures
        quote::quoted(text).len() >= 2,
        quote::quoted(text)[0] == quote::quoted(text).last(),
        quote::quoted(text)[0] == '\'' || quote::quoted(text)[0] == '"',
        quote::quoted(text)[0] == '"' <==> text.contains('\'') && !text.contains('"'),
        read_back(quote::quoted(text).subrange(1, quote::quoted(text).len() - 1)) == text,
{
    let mark = quote::quote_for(text);
    let inner = text::rewritten(text, |c: char| quote::quoted_char(c, mark));
    let whole = quote::quoted(text);
    assert(whole.subrange(1, whole.len() - 1) =~= inner);
    all_read_back(text, mark);
}

// JSON.

/// The value of a hexadecimal digit in lower case.
pub open spec fn hex_value(c: char) -> int {
    if '0' <= c <= '9' {
        c as int - 48
    } else {
        c as int - 87
    }
}

/// The unit that four hexadecimal digits from a place on stand for.
pub open spec fn unit_at(s: Seq<char>, at: int) -> int {
    4096 * hex_value(s[at]) + 256 * hex_value(s[at + 1]) + 16 * hex_value(s[at + 2]) + hex_value(
        s[at + 3],
    )
}

/// What a character behind a backslash stands for in JSON.
pub open spec fn behind_json_backslash(c: char) -> int {
    if c == 'n' {
        10
    } else if c == 'r' {
        13
    } else if c == 't' {
        9
    } else if c == 'b' {
        8
    } else if c == 'f' {
        12
    } else {
        c as int
    }
}

/// The code points that stand between the quotes of a JSON string: a backslash and a letter, one unit of four
/// digits or two where the first asks for a second, and all else as it is.
pub open spec fn json_read_back(s: Seq<char>) -> Seq<int>
    decreases s.len(),
{
    if s.len() == 0 {
        Seq::empty()
    } else if s[0] != '\\' || s.len() < 2 {
        seq![s[0] as int] + json_read_back(s.skip(1))
    } else if s[1] != 'u' || s.len() < 6 {
        seq![behind_json_backslash(s[1])] + json_read_back(s.skip(2))
    } else if 0xd800 <= unit_at(s, 2) < 0xdc00 && s.len() >= 12 {
        seq![0x10000 + 1024 * (unit_at(s, 2) - 0xd800) + (unit_at(s, 8) - 0xdc00)] + json_read_back(
            s.skip(12),
        )
    } else {
        seq![unit_at(s, 2)] + json_read_back(s.skip(6))
    }
}

proof fn unit_reads_back(code: int, before: Seq<char>, rest: Seq<char>)
    requires
        0 <= code <= 0xffff,
    ensures
        quote::unit_escape(code).len() == 6,
        quote::unit_escape(code)[0] == '\\',
        quote::unit_escape(code)[1] == 'u',
        unit_at(before + quote::unit_escape(code) + rest, before.len() as int + 2) == code,
{
    reveal_strlit("\\u");
    let e = quote::unit_escape(code);
    let whole = before + e + rest;
    let n = before.len() as int;
    let a = code / 4096;
    let b = code / 256 % 16;
    let c = code / 16 % 16;
    let d = code % 16;
    assert(e[2] == quote::hex_char(a) && e[3] == quote::hex_char(b) && e[4] == quote::hex_char(c) && e[5]
        == quote::hex_char(d));
    assert(whole[n + 2] == e[2] && whole[n + 3] == e[3] && whole[n + 4] == e[4] && whole[n + 5] == e[5]);
    digits_make_the_number(code);
    digit_reads_back(a);
    digit_reads_back(b);
    digit_reads_back(c);
    digit_reads_back(d);
}

proof fn digit_reads_back(d: int)
    requires
        0 <= d < 16,
    ensures
        hex_value(quote::hex_char(d)) == d,
{
}

proof fn digits_make_the_number(code: int)
    requires
        0 <= code <= 0xffff,
    ensures
        0 <= code / 4096 < 16,
        4096 * (code / 4096) + 256 * (code / 256 % 16) + 16 * (code / 16 % 16) + code % 16 == code,
{
    let one = code / 16;
    let two = one / 16;
    let three = two / 16;
    assert(two == code / 256);
    assert(three == code / 4096);
    assert(one == 16 * two + one % 16);
    assert(two == 16 * three + two % 16);
    assert(code == 16 * one + code % 16);
}

proof fn one_json_read_back(c: char, ascii: bool, rest: Seq<char>)
    ensures
        json_read_back(quote::json_char(c, ascii) + rest) == seq![c as int] + json_read_back(rest),
{
    text::code_is_natural(c);
    reveal_strlit("\\\"");
    reveal_strlit("\\\\");
    reveal_strlit("\\n");
    reveal_strlit("\\r");
    reveal_strlit("\\t");
    reveal_strlit("\\b");
    reveal_strlit("\\f");
    let q = quote::json_char(c, ascii);
    let whole = q + rest;
    let code = c as int;
    let plain = code >= 0x20 && (!ascii || code < 0x80);
    if c == '"' || c == '\\' || c == '\n' || c == '\r' || c == '\t' || code == 8 || code == 12 {
        assert(q.len() == 2);
        assert(whole[0] == q[0] && whole[1] == q[1]);
        assert(whole.skip(2) =~= rest);
    } else if plain {
        assert(q =~= seq![c]);
        assert(whole[0] == c);
        assert(whole.skip(1) =~= rest);
    } else if code <= 0xffff {
        unit_reads_back(code, Seq::empty(), rest);
        assert(Seq::<char>::empty() + quote::unit_escape(code) + rest =~= whole);
        assert(whole[0] == q[0] && whole[1] == q[1]);
        assert(whole.skip(6) =~= rest);
        assert(!(0xd800 <= code < 0xdc00));
    } else {
        let high = 0xd800 + (code - 0x10000) / 1024;
        let low = 0xdc00 + (code - 0x10000) % 1024;
        let first = quote::unit_escape(high);
        let second = quote::unit_escape(low);
        assert(code <= 0x10ffff);
        unit_reads_back(high, Seq::empty(), second + rest);
        unit_reads_back(low, first, rest);
        assert(Seq::<char>::empty() + first + (second + rest) =~= whole);
        assert(first + second + rest =~= whole);
        assert(whole[0] == first[0] && whole[1] == first[1]);
        assert(whole.skip(12) =~= rest);
        assert(1024 * ((code - 0x10000) / 1024) + (code - 0x10000) % 1024 == code - 0x10000);
    }
}

proof fn all_json_read_back(text: Seq<char>, ascii: bool)
    ensures
        json_read_back(text::rewritten(text, |c: char| quote::json_char(c, ascii))) == text.map_values(
            |c: char| c as int,
        ),
    decreases text.len(),
{
    let each = |c: char| quote::json_char(c, ascii);
    let codes = |c: char| c as int;
    if text.len() == 0 {
        assert(text::rewritten(text, each) =~= Seq::empty());
        assert(text.map_values(codes) =~= Seq::<int>::empty());
    } else {
        rewritten_from_the_front(text, each);
        all_json_read_back(text.drop_first(), ascii);
        one_json_read_back(text[0], ascii, text::rewritten(text.drop_first(), each));
        assert(seq![text[0] as int] + text.drop_first().map_values(codes) =~= text.map_values(codes));
    }
}

/// A JSON string stands between double quotes, and what stands between them reads back as the text, whether
/// or not only ASCII is wanted.
pub proof fn json_strings_read_back(text: Seq<char>, ascii: bool)
    ensures
        quote::json_string(text, ascii).len() >= 2,
        quote::json_string(text, ascii)[0] == '"',
        quote::json_string(text, ascii).last() == '"',
        json_read_back(
            quote::json_string(text, ascii).subrange(1, quote::json_string(text, ascii).len() - 1),
        ) == text.map_values(|c: char| c as int),
{
    let inner = text::rewritten(text, |c: char| quote::json_char(c, ascii));
    let whole = quote::json_string(text, ascii);
    assert(whole.subrange(1, whole.len() - 1) =~= inner);
    all_json_read_back(text, ascii);
}

} // verus!
