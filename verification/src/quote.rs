//! Quoted strings in JSON, and in the single-quoted style of diagnostics.
use vstd::prelude::*;
use crate::text;

verus! {

/// The lower-case hexadecimal digit for a value below sixteen.
pub open spec fn hex_char(d: int) -> char {
    if d < 10 {
        (48 + d) as char
    } else {
        (87 + d) as char
    }
}

fn hex_digit(d: u32) -> (r: char)
    requires
        d < 16,
    ensures
        r == hex_char(d as int),
{
    let b: u8 = if d < 10 { 48 + d as u8 } else { 87 + d as u8 };
    b as char
}

/// The escape of one sixteen-bit unit: a backslash, `u` and four hexadecimal digits.
pub open spec fn unit_escape(code: int) -> Seq<char> {
    "\\u"@ + seq![
        hex_char(code / 4096),
        hex_char(code / 256 % 16),
        hex_char(code / 16 % 16),
        hex_char(code % 16),
    ]
}

fn push_unit(code: u32, out: &mut String)
    requires
        code <= 0xffff,
    ensures
        final(out)@ == old(out)@ + unit_escape(code as int),
{
    let ghost before = out@;
    out.append("\\u");
    out.push(hex_digit(code / 4096));
    out.push(hex_digit(code / 256 % 16));
    out.push(hex_digit(code / 16 % 16));
    out.push(hex_digit(code % 16));
    assert(out@ =~= before + unit_escape(code as int));
}

/// What a JSON string holds for one character. Where only ASCII is wanted, every other character is
/// written as one unit, or as two where it lies beyond the first sixteen bits.
pub open spec fn json_char(c: char, ascii: bool) -> Seq<char> {
    if c == '"' {
        "\\\""@
    } else if c == '\\' {
        "\\\\"@
    } else if c == '\n' {
        "\\n"@
    } else if c == '\r' {
        "\\r"@
    } else if c == '\t' {
        "\\t"@
    } else if c as int == 8 {
        "\\b"@
    } else if c as int == 12 {
        "\\f"@
    } else if (c as int) < 0x20 {
        unit_escape(c as int)
    } else if !ascii || (c as int) < 0x80 {
        seq![c]
    } else if c as int <= 0xffff {
        unit_escape(c as int)
    } else {
        unit_escape(0xd800 + (c as int - 0x10000) / 1024) + unit_escape(
            0xdc00 + (c as int - 0x10000) % 1024,
        )
    }
}

/// A JSON string literal.
pub open spec fn json_string(text: Seq<char>, ascii: bool) -> Seq<char> {
    seq!['"'] + text::rewritten(text, |c: char| json_char(c, ascii)) + seq!['"']
}

fn push_json_char(c: char, ascii: bool, out: &mut String)
    ensures
        final(out)@ == old(out)@ + json_char(c, ascii),
{
    let code: u32 = text::code(c);
    let ghost before = out@;
    if c == '"' {
        out.append("\\\"");
    } else if c == '\\' {
        out.append("\\\\");
    } else if c == '\n' {
        out.append("\\n");
    } else if c == '\r' {
        out.append("\\r");
    } else if c == '\t' {
        out.append("\\t");
    } else if code == 8 {
        out.append("\\b");
    } else if code == 12 {
        out.append("\\f");
    } else if code < 0x20 {
        push_unit(code, out);
    } else if !ascii || code < 0x80 {
        out.push(c);
        assert(out@ =~= before + json_char(c, ascii));
    } else if code <= 0xffff {
        push_unit(code, out);
    } else {
        push_unit(0xd800 + (code - 0x10000) / 1024, out);
        push_unit(0xdc00 + (code - 0x10000) % 1024, out);
        assert(out@ =~= before + json_char(c, ascii));
    }
}

/// Writes a JSON string literal.
pub fn push_json_string(text: &str, ascii: bool, out: &mut String)
    ensures
        final(out)@ == old(out)@ + json_string(text@, ascii),
{
    let ghost before = out@;
    let ghost each = |c: char| json_char(c, ascii);
    let cs = text::chars(text);
    out.push('"');
    let mut i: usize = 0;
    assert(out@ =~= before + seq!['"'] + text::rewritten(text@.take(0), each));
    while i < cs.len()
        invariant
            i <= cs@.len(),
            cs@ == text@,
            each == (|c: char| json_char(c, ascii)),
            out@ == before + seq!['"'] + text::rewritten(text@.take(i as int), each),
        decreases cs@.len() - i,
    {
        let ghost upto = text@.take(i + 1);
        assert(upto.drop_last() =~= text@.take(i as int));
        push_json_char(cs[i], ascii, out);
        assert(out@ =~= before + seq!['"'] + text::rewritten(upto, each));
        i += 1;
    }
    assert(text@.take(text@.len() as int) =~= text@);
    out.push('"');
    assert(out@ =~= before + json_string(text@, ascii));
}

/// Whether every character of a text is ASCII and no control character below the space.
pub open spec fn is_plain_ascii(text: Seq<char>) -> bool {
    forall|i: int| 0 <= i < text.len() ==> 0x20 <= (#[trigger] text[i]) as int && (text[i] as int)
        < 0x80
}

proof fn hex_is_plain(d: int)
    requires
        0 <= d < 16,
    ensures
        0x20 <= hex_char(d) as int,
        (hex_char(d) as int) < 0x80,
{
}

proof fn unit_escape_is_plain(code: int)
    requires
        0 <= code <= 0xffff,
    ensures
        is_plain_ascii(unit_escape(code)),
{
    reveal_strlit("\\u");
    hex_is_plain(code / 4096);
    hex_is_plain(code / 256 % 16);
    hex_is_plain(code / 16 % 16);
    hex_is_plain(code % 16);
}

proof fn ascii_char_is_plain(c: char)
    ensures
        is_plain_ascii(json_char(c, true)),
{
    text::code_is_natural(c);
    reveal_strlit("\\\"");
    reveal_strlit("\\\\");
    reveal_strlit("\\n");
    reveal_strlit("\\r");
    reveal_strlit("\\t");
    reveal_strlit("\\b");
    reveal_strlit("\\f");
    if (c as int) <= 0xffff {
        unit_escape_is_plain(c as int);
    } else {
        unit_escape_is_plain(0xd800 + (c as int - 0x10000) / 1024);
        unit_escape_is_plain(0xdc00 + (c as int - 0x10000) % 1024);
    }
}

/// A JSON string literal that asks for ASCII holds nothing else, whatever the text holds, and no
/// control characters.
pub proof fn ascii_string_is_plain(text: Seq<char>)
    ensures
        is_plain_ascii(json_string(text, true)),
{
    rewritten_is_plain(text);
}

proof fn rewritten_is_plain(text: Seq<char>)
    ensures
        is_plain_ascii(text::rewritten(text, |c: char| json_char(c, true))),
    decreases text.len(),
{
    if text.len() > 0 {
        rewritten_is_plain(text.drop_last());
        ascii_char_is_plain(text.last());
    }
}

// Diagnostics.

/// The quote for a text: the single quote, or the double quote where the text holds the single one
/// and not the double one.
pub open spec fn quote_for(text: Seq<char>) -> char {
    if text.contains('\'') && !text.contains('"') {
        '"'
    } else {
        '\''
    }
}

/// What a quoted text holds for one character.
pub open spec fn quoted_char(c: char, quote: char) -> Seq<char> {
    if c == '\\' {
        "\\\\"@
    } else if c == '\n' {
        "\\n"@
    } else if c == '\r' {
        "\\r"@
    } else if c == '\t' {
        "\\t"@
    } else if c == quote {
        seq!['\\', c]
    } else {
        seq![c]
    }
}

/// A text in quotes, with backslashes, the quote itself and line and tab characters escaped.
pub open spec fn quoted(text: Seq<char>) -> Seq<char> {
    let quote = quote_for(text);
    seq![quote] + text::rewritten(text, |c: char| quoted_char(c, quote)) + seq![quote]
}

/// A text in quotes: single ones, unless the text holds a single quote and no double quote.
pub fn repr_str(s: &str) -> (r: String)
    ensures
        r@ == quoted(s@),
{
    let quote: char = if text::contains(s, '\'') && !text::contains(s, '"') {
        '"'
    } else {
        '\''
    };
    let ghost each = |c: char| quoted_char(c, quote);
    let cs = text::chars(s);
    let mut out: String = String::new();
    out.push(quote);
    let mut i: usize = 0;
    assert(out@ =~= seq![quote] + text::rewritten(s@.take(0), each));
    while i < cs.len()
        invariant
            i <= cs@.len(),
            cs@ == s@,
            each == (|c: char| quoted_char(c, quote)),
            out@ == seq![quote] + text::rewritten(s@.take(i as int), each),
        decreases cs@.len() - i,
    {
        let c = cs[i];
        let ghost before = out@;
        let ghost upto = s@.take(i + 1);
        assert(upto.drop_last() =~= s@.take(i as int));
        if c == '\\' {
            out.append("\\\\");
        } else if c == '\n' {
            out.append("\\n");
        } else if c == '\r' {
            out.append("\\r");
        } else if c == '\t' {
            out.append("\\t");
        } else if c == quote {
            out.push('\\');
            out.push(c);
        } else {
            out.push(c);
        }
        assert(out@ =~= before + quoted_char(c, quote));
        assert(out@ =~= seq![quote] + text::rewritten(upto, each));
        i += 1;
    }
    assert(s@.take(s@.len() as int) =~= s@);
    out.push(quote);
    out
}

/// An optional text in quotes, or `None`.
pub open spec fn quoted_option(value: Option<Seq<char>>) -> Seq<char> {
    match value {
        Some(text) => quoted(text),
        None => "None"@,
    }
}

/// An optional text in quotes, or `None`.
pub fn repr_opt(v: Option<&str>) -> (r: String)
    ensures
        r@ == quoted_option(
            match v {
                Some(s) => Some(s@),
                None => None,
            },
        ),
{
    match v {
        Some(s) => repr_str(s),
        None => "None".to_owned(),
    }
}

/// A value of an enumeration: the name of the type, the value, and the value in quotes.
pub open spec fn quoted_enum(name: Seq<char>, value: Seq<char>) -> Seq<char> {
    "<"@ + name + "."@ + value + ": "@ + quoted(value) + ">"@
}

/// A value of an enumeration: the name of the type, the value, and the value in quotes.
pub fn repr_enum(enum_name: &str, value: &str) -> (r: String)
    ensures
        r@ == quoted_enum(enum_name@, value@),
{
    let mut out: String = "<".to_owned();
    out.append(enum_name);
    out.append(".");
    out.append(value);
    out.append(": ");
    out.append(repr_str(value).as_str());
    out.append(">");
    out
}

} // verus!
