//! Text helpers over `str` and `String`, specified by the sequence of characters they hold.
use vstd::prelude::*;
use vstd::string::*;

verus! {

/// `String::push` appends one character.
pub assume_specification[ String::push ](string: &mut String, ch: char)
    ensures
        final(string)@ == old(string)@.push(ch),
;

/// What `{:?}` of `std::fmt` writes for a string: the text in double quotes with the characters
/// that Rust escapes written as escapes.
pub uninterp spec fn debug_chars(text: Seq<char>) -> Seq<char>;

/// Calls `<str as std::fmt::Debug>::fmt` through `format!`. The contract only names the outcome,
/// which depends on the characters of the text alone.
#[verifier::external_body]
pub(crate) fn debug_text(text: &str) -> (r: String)
    ensures
        r@ == debug_chars(text@),
{
    format!("{text:?}")
}

/// Whether a text is white space and nothing else.
pub open spec fn is_blank(text: Seq<char>) -> bool {
    forall|i: int| 0 <= i < text.len() ==> is_whitespace(#[trigger] text[i])
}

/// The characters with the Unicode property `White_Space`.
pub open spec fn is_whitespace(c: char) -> bool {
    let v = c as u32;
    ||| 0x09 <= v <= 0x0d
    ||| v == 0x20
    ||| v == 0x85
    ||| v == 0xa0
    ||| v == 0x1680
    ||| 0x2000 <= v <= 0x200a
    ||| v == 0x2028
    ||| v == 0x2029
    ||| v == 0x202f
    ||| v == 0x205f
    ||| v == 0x3000
}

/// Whether `c` has the Unicode property `White_Space`.
pub fn whitespace(c: char) -> (r: bool)
    ensures
        r == is_whitespace(c),
{
    let v: u32 = c as u32;
    (0x09 <= v && v <= 0x0d) || v == 0x20 || v == 0x85 || v == 0xa0 || v == 0x1680 || (0x2000 <= v
        && v <= 0x200a) || v == 0x2028 || v == 0x2029 || v == 0x202f || v == 0x205f || v == 0x3000
}

/// A code point is a natural number of at most 21 bits.
pub proof fn code_is_natural(c: char)
    ensures
        0 <= c as int <= 0x10ffff,
        (c as u32) as int == c as int,
{
    vstd::utf8::char_is_scalar(c);
}

/// The code point of a character.
pub fn code(c: char) -> (r: u32)
    ensures
        r as int == c as int,
        r <= 0x10ffff,
{
    proof {
        code_is_natural(c);
    }
    c as u32
}

/// The number of bytes that a character takes in UTF-8.
pub open spec fn utf8_width(c: char) -> nat {
    vstd::utf8::encode_scalar(c as u32).len()
}

/// The number of characters from the front of a text that fit whole in `room` bytes of UTF-8.
pub open spec fn chars_within(text: Seq<char>, room: int) -> nat
    decreases text.len(),
{
    if text.len() == 0 || utf8_width(text[0]) > room {
        0
    } else {
        1 + chars_within(text.drop_first(), room - utf8_width(text[0]))
    }
}

/// The characters that fit are the longest run from the front of a text whose UTF-8 form takes no
/// more than `room` bytes.
pub proof fn chars_within_is_longest(text: Seq<char>, room: int)
    requires
        room >= 0,
    ensures
        chars_within(text, room) <= text.len(),
        vstd::utf8::encode_utf8(text.take(chars_within(text, room) as int)).len() <= room,
        forall|n: int|
            chars_within(text, room) < n <= text.len() ==> vstd::utf8::encode_utf8(
                #[trigger] text.take(n),
            ).len() > room,
    decreases text.len(),
{
    let fit = chars_within(text, room);
    if text.len() > 0 {
        let width = utf8_width(text[0]);
        let rest = text.drop_first();
        assert forall|n: int| 1 <= n <= text.len() implies vstd::utf8::encode_utf8(
            #[trigger] text.take(n),
        ).len() == width + vstd::utf8::encode_utf8(rest.take(n - 1)).len() by {
            assert(text.take(n).drop_first() =~= rest.take(n - 1));
            assert(text.take(n)[0] == text[0]);
        }
        if width <= room {
            chars_within_is_longest(rest, room - width);
        }
    }
}

/// Of a text of ASCII characters as many fit as there are bytes.
pub proof fn ascii_chars_within(text: Seq<char>, room: int)
    requires
        room >= 0,
        vstd::utf8::is_ascii_chars(text),
    ensures
        chars_within(text, room) == (if text.len() <= room {
            text.len() as int
        } else {
            room
        }),
    decreases text.len(),
{
    if text.len() > 0 {
        let rest = text.drop_first();
        vstd::utf8::is_ascii_chars_nat_bound(text);
        assert(utf8_width(text[0]) == 1);
        assert(vstd::utf8::is_ascii_chars(rest)) by {
            assert forall|i: int| 0 <= i < rest.len() implies '\0' <= #[trigger] rest[i] <= '\u{7f}' by {
                assert(rest[i] == text[i + 1]);
            }
        }
        if room > 0 {
            ascii_chars_within(rest, room - 1);
        }
    }
}

/// The number of bytes that a character takes in UTF-8.
fn byte_width(c: char) -> (r: usize)
    ensures
        r == utf8_width(c),
        1 <= r <= 4,
{
    proof {
        vstd::utf8::char_is_scalar(c);
    }
    let v: u32 = c as u32;
    if v <= 0x7f {
        1
    } else if v <= 0x7ff {
        2
    } else if v <= 0xffff {
        3
    } else {
        4
    }
}

/// The number of characters from `from` on that fit whole in `room` bytes of UTF-8.
pub fn count_within(chars: &[char], from: usize, room: usize) -> (r: usize)
    requires
        from <= chars@.len(),
    ensures
        r <= chars@.len() - from,
        r == chars_within(chars@.skip(from as int), room as int),
{
    let n: usize = chars.len();
    let mut i: usize = from;
    let mut left: usize = room;
    while i < n
        invariant
            from <= i <= n,
            n == chars@.len(),
            i - from + chars_within(chars@.skip(i as int), left as int) == chars_within(
                chars@.skip(from as int),
                room as int,
            ),
        decreases n - i,
    {
        let width: usize = byte_width(chars[i]);
        assert(chars@.skip(i as int).drop_first() =~= chars@.skip(i + 1));
        if width > left {
            return i - from;
        }
        left -= width;
        i += 1;
    }
    i - from
}

/// Whether two texts hold the same characters.
pub fn same(a: &str, b: &str) -> (r: bool)
    ensures
        r == (a@ == b@),
{
    let x: &[u8] = a.as_bytes();
    let y: &[u8] = b.as_bytes();
    if x.len() != y.len() {
        return false;
    }
    let mut i: usize = 0;
    while i < x.len()
        invariant
            i <= x@.len(),
            x@.len() == y@.len(),
            x@ == a.spec_bytes(),
            y@ == b.spec_bytes(),
            forall|k: int| 0 <= k < i ==> x@[k] == y@[k],
        decreases x@.len() - i,
    {
        if x[i] != y[i] {
            return false;
        }
        i += 1;
    }
    proof {
        assert(x@ =~= y@);
        vstd::utf8::encode_utf8_decode_utf8(a@);
        vstd::utf8::encode_utf8_decode_utf8(b@);
    }
    true
}

/// The characters of a text.
pub fn chars(text: &str) -> (r: Vec<char>)
    ensures
        r@ == text@,
{
    let mut out: Vec<char> = Vec::new();
    for c in it: text.chars()
        invariant
            it.seq() == text@,
            out@ == text@.take(it.index() as int),
    {
        out.push(c);
    }
    proof {
        assert(text@.take(text@.len() as int) =~= text@);
    }
    out
}

/// The text made of the given characters.
pub fn text_of(chars: &[char]) -> (r: String)
    ensures
        r@ == chars@,
{
    let mut out: String = String::new();
    let mut i: usize = 0;
    while i < chars.len()
        invariant
            i <= chars@.len(),
            out@ == chars@.take(i as int),
        decreases chars@.len() - i,
    {
        out.push(chars[i]);
        i += 1;
        assert(chars@.take(i as int) =~= chars@.take(i - 1).push(chars@[i - 1]));
    }
    assert(chars@.take(chars@.len() as int) =~= chars@);
    out
}

/// The text made of the characters `from..to`.
pub fn text_of_range(chars: &[char], from: usize, to: usize) -> (r: String)
    requires
        from <= to <= chars@.len(),
    ensures
        r@ == chars@.subrange(from as int, to as int),
{
    let mut out: String = String::new();
    let mut i: usize = from;
    while i < to
        invariant
            from <= i <= to <= chars@.len(),
            out@ == chars@.subrange(from as int, i as int),
        decreases to - i,
    {
        out.push(chars[i]);
        i += 1;
        assert(chars@.subrange(from as int, i as int) =~= chars@.subrange(
            from as int,
            i - 1,
        ).push(chars@[i - 1]));
    }
    out
}

/// A copy of an optional text.
pub fn clone_option(value: &Option<String>) -> (r: Option<String>)
    ensures
        r == *value,
{
    match value {
        Some(text) => Some(text.clone()),
        None => None,
    }
}

/// Whether the text is empty once white space is trimmed from both ends.
pub fn blank(text: &str) -> (r: bool)
    ensures
        r == is_blank(text@),
{
    let cs = chars(text);
    let mut i: usize = 0;
    while i < cs.len()
        invariant
            i <= cs@.len(),
            cs@ == text@,
            forall|k: int| 0 <= k < i ==> is_whitespace(#[trigger] cs@[k]),
        decreases cs@.len() - i,
    {
        if !whitespace(cs[i]) {
            assert(!is_whitespace(text@[i as int]));
            return false;
        }
        i += 1;
    }
    true
}

/// Whether `at` is the first place where `c` stands in the text.
pub open spec fn is_first(text: Seq<char>, c: char, at: int) -> bool {
    0 <= at < text.len() && text[at] == c && forall|k: int| 0 <= k < at ==> text[k] != c
}

/// A character has at most one first place.
pub proof fn first_is_unique(text: Seq<char>, c: char)
    ensures
        forall|i: int, j: int|
            #![trigger is_first(text, c, i), is_first(text, c, j)]
            is_first(text, c, i) && is_first(text, c, j) ==> i == j,
{
    assert forall|i: int, j: int|
        #![trigger is_first(text, c, i), is_first(text, c, j)]
        is_first(text, c, i) && is_first(text, c, j) implies i == j by {
        if i < j {
            assert(text[i] != c);
        } else if j < i {
            assert(text[j] != c);
        }
    }
}

/// The first place at or after `from` where `c` stands.
pub fn find(chars: &[char], c: char, from: usize) -> (r: Option<usize>)
    requires
        from <= chars@.len(),
    ensures
        match r {
            Some(at) => from <= at < chars@.len() && chars@[at as int] == c && forall|k: int|
                from <= k < at ==> chars@[k] != c,
            None => forall|k: int| from <= k < chars@.len() ==> chars@[k] != c,
        },
{
    let mut i: usize = from;
    while i < chars.len()
        invariant
            from <= i <= chars@.len(),
            forall|k: int| from <= k < i ==> chars@[k] != c,
        decreases chars@.len() - i,
    {
        if chars[i] == c {
            return Some(i);
        }
        i += 1;
    }
    None
}

/// Whether a character stands in the text.
pub fn contains(text: &str, c: char) -> (r: bool)
    ensures
        r == text@.contains(c),
{
    let cs = chars(text);
    match find(cs.as_slice(), c, 0) {
        Some(at) => {
            assert(text@[at as int] == c);
            true
        },
        None => {
            assert forall|k: int| 0 <= k < text@.len() implies text@[k] != c by {
                assert(cs@[k] != c);
            }
            false
        },
    }
}

/// Whether the characters from `at` on start with those of `prefix`.
pub open spec fn stands_at(text: Seq<char>, prefix: Seq<char>, at: int) -> bool {
    0 <= at && at + prefix.len() <= text.len() && text.subrange(at, at + prefix.len()) == prefix
}

/// Whether the characters from `at` on start with those of `prefix`.
pub fn has_at(cs: &[char], prefix: &str, at: usize) -> (r: bool)
    requires
        at <= cs@.len(),
    ensures
        r == stands_at(cs@, prefix@, at as int),
{
    let ps = chars(prefix);
    let n: usize = cs.len();
    if ps.len() > n - at {
        return false;
    }
    let ghost part = cs@.subrange(at as int, at + prefix@.len());
    let mut i: usize = 0;
    while i < ps.len()
        invariant
            i <= ps@.len(),
            at + ps@.len() <= n,
            n == cs@.len(),
            ps@ == prefix@,
            part == cs@.subrange(at as int, at + prefix@.len()),
            forall|k: int| 0 <= k < i ==> part[k] == ps@[k],
        decreases ps@.len() - i,
    {
        assert(part[i as int] == cs@[at + i]);
        if cs[at + i] != ps[i] {
            return false;
        }
        i += 1;
    }
    assert(part =~= prefix@);
    true
}

/// Whether the text starts with `prefix`.
pub fn has_prefix(text: &str, prefix: &str) -> (r: bool)
    ensures
        r == starts_with(text@, prefix@),
{
    let cs = chars(text);
    proof {
        if text@.len() >= prefix@.len() {
            assert(text@.take(prefix@.len() as int) =~= text@.subrange(0, prefix@.len() as int));
        }
    }
    has_at(cs.as_slice(), prefix, 0)
}

/// The text without the white space at its ends.
pub open spec fn trimmed(text: Seq<char>) -> Seq<char>
    decreases text.len(),
{
    if text.len() == 0 {
        text
    } else if is_whitespace(text[0]) {
        trimmed(text.drop_first())
    } else if is_whitespace(text.last()) {
        trimmed(text.drop_last())
    } else {
        text
    }
}

/// The text without the white space at its ends.
pub fn trim(text: &str) -> (r: String)
    ensures
        r@ == trimmed(text@),
{
    let cs = chars(text);
    let ghost all = text@;
    let mut from: usize = 0;
    assert(all.skip(0) =~= all);
    while from < cs.len() && whitespace(cs[from])
        invariant
            from <= cs@.len(),
            cs@ == all,
            trimmed(all.skip(from as int)) == trimmed(all),
        decreases cs@.len() - from,
    {
        let ghost rest = all.skip(from as int);
        assert(rest[0] == cs@[from as int]);
        assert(rest.drop_first() =~= all.skip(from + 1));
        from += 1;
    }
    let mut to: usize = cs.len();
    assert(all.subrange(from as int, to as int) =~= all.skip(from as int));
    while from < to && whitespace(cs[to - 1])
        invariant
            from <= to <= cs@.len(),
            cs@ == all,
            from < cs@.len() ==> !is_whitespace(cs@[from as int]),
            trimmed(all.subrange(from as int, to as int)) == trimmed(all),
        decreases to,
    {
        let ghost rest = all.subrange(from as int, to as int);
        assert(rest.last() == cs@[to - 1]);
        assert(rest[0] == cs@[from as int]);
        assert(rest.drop_last() =~= all.subrange(from as int, to - 1));
        to -= 1;
    }
    proof {
        let rest = all.subrange(from as int, to as int);
        if rest.len() > 0 {
            assert(rest[0] == cs@[from as int]);
            assert(rest.last() == cs@[to - 1]);
        }
    }
    text_of_range(cs.as_slice(), from, to)
}

/// The text without the white space at its end.
pub open spec fn trimmed_end(text: Seq<char>) -> Seq<char>
    decreases text.len(),
{
    if text.len() > 0 && is_whitespace(text.last()) {
        trimmed_end(text.drop_last())
    } else {
        text
    }
}

/// The text without the white space at its end.
pub fn trim_end(text: &str) -> (r: String)
    ensures
        r@ == trimmed_end(text@),
{
    let cs = chars(text);
    let mut to: usize = cs.len();
    assert(text@.subrange(0, to as int) =~= text@);
    while to > 0 && whitespace(cs[to - 1])
        invariant
            to <= cs@.len(),
            cs@ == text@,
            trimmed_end(text@.subrange(0, to as int)) == trimmed_end(text@),
        decreases to,
    {
        let ghost rest = text@.subrange(0, to as int);
        assert(rest.last() == cs@[to - 1]);
        assert(rest.drop_last() =~= text@.subrange(0, to - 1));
        to -= 1;
    }
    proof {
        let rest = text@.subrange(0, to as int);
        if to > 0 {
            assert(rest.last() == cs@[to - 1]);
        }
    }
    text_of_range(cs.as_slice(), 0, to)
}

/// The text without the white space at its front.
pub open spec fn trimmed_start(text: Seq<char>) -> Seq<char>
    decreases text.len(),
{
    if text.len() > 0 && is_whitespace(text[0]) {
        trimmed_start(text.drop_first())
    } else {
        text
    }
}

/// The text without the white space at its front.
pub fn trim_start(text: &str) -> (r: String)
    ensures
        r@ == trimmed_start(text@),
{
    let cs = chars(text);
    let n: usize = cs.len();
    let mut from: usize = 0;
    assert(text@.subrange(0, n as int) =~= text@);
    while from < n && whitespace(cs[from])
        invariant
            from <= n == cs@.len(),
            cs@ == text@,
            trimmed_start(text@.subrange(from as int, n as int)) == trimmed_start(text@),
        decreases n - from,
    {
        let ghost rest = text@.subrange(from as int, n as int);
        assert(rest[0] == cs@[from as int]);
        assert(rest.drop_first() =~= text@.subrange(from + 1, n as int));
        from += 1;
    }
    proof {
        let rest = text@.subrange(from as int, n as int);
        if from < n {
            assert(rest[0] == cs@[from as int]);
        }
    }
    text_of_range(cs.as_slice(), from, n)
}

/// Whether one text stands somewhere in another.
pub open spec fn holds(text: Seq<char>, part: Seq<char>) -> bool {
    exists|at: int| stands_at(text, part, at)
}

/// Whether one text stands somewhere in another.
pub fn has_part(text: &str, part: &str) -> (r: bool)
    ensures
        r == holds(text@, part@),
{
    let cs = chars(text);
    let n: usize = cs.len();
    let mut at: usize = 0;
    while at < n
        invariant
            at <= n == cs@.len(),
            cs@ == text@,
            forall|k: int| 0 <= k < at ==> !stands_at(text@, part@, k),
        decreases n - at,
    {
        if has_at(cs.as_slice(), part, at) {
            return true;
        }
        at += 1;
    }
    let last = has_at(cs.as_slice(), part, n);
    proof {
        if !last && holds(text@, part@) {
            let k = choose|k: int| stands_at(text@, part@, k);
            assert(0 <= k <= n);
        }
    }
    last
}

/// What trimming leaves has no white space at its ends, so trimming again changes nothing.
pub proof fn trimmed_is_stable(text: Seq<char>)
    ensures
        trimmed(trimmed(text)) == trimmed(text),
        trimmed(text).len() > 0 ==> !is_whitespace(trimmed(text)[0]) && !is_whitespace(
            trimmed(text).last(),
        ),
    decreases text.len(),
{
    if text.len() == 0 {
    } else if is_whitespace(text[0]) {
        trimmed_is_stable(text.drop_first());
    } else if is_whitespace(text.last()) {
        trimmed_is_stable(text.drop_last());
    }
}

/// How often a character stands in a text.
pub open spec fn count(text: Seq<char>, c: char) -> nat
    decreases text.len(),
{
    if text.len() == 0 {
        0
    } else {
        count(text.drop_last(), c) + (if text.last() == c {
            1nat
        } else {
            0nat
        })
    }
}

/// Whether a character stands in the text more than once.
pub fn repeats(text: &str, c: char) -> (r: bool)
    ensures
        r == (count(text@, c) > 1),
{
    let cs = chars(text);
    let mut seen: bool = false;
    let mut i: usize = 0;
    assert(text@.take(0) =~= Seq::empty());
    while i < cs.len()
        invariant
            i <= cs@.len(),
            cs@ == text@,
            count(text@.take(i as int), c) == (if seen {
                1nat
            } else {
                0nat
            }),
        decreases cs@.len() - i,
    {
        let ghost upto = text@.take(i + 1);
        assert(upto.drop_last() =~= text@.take(i as int));
        if cs[i] == c {
            if seen {
                proof {
                    count_grows(text@, i + 1, c);
                }
                return true;
            }
            seen = true;
        }
        i += 1;
    }
    assert(text@.take(text@.len() as int) =~= text@);
    false
}

proof fn count_grows(text: Seq<char>, m: int, c: char)
    requires
        0 <= m <= text.len(),
    ensures
        count(text.take(m), c) <= count(text, c),
    decreases text.len(),
{
    if m < text.len() {
        assert(text.drop_last().take(m) =~= text.take(m));
        count_grows(text.drop_last(), m, c);
    } else {
        assert(text.take(m) =~= text);
    }
}

/// Whether one text starts with another.
pub open spec fn starts_with(text: Seq<char>, prefix: Seq<char>) -> bool {
    text.len() >= prefix.len() && text.take(prefix.len() as int) == prefix
}

/// Each character of a text replaced by what `each` gives for it.
pub open spec fn rewritten(text: Seq<char>, each: spec_fn(char) -> Seq<char>) -> Seq<char>
    decreases text.len(),
{
    if text.len() == 0 {
        Seq::empty()
    } else {
        rewritten(text.drop_last(), each) + each(text.last())
    }
}

/// The decimal digit for a value below ten.
pub open spec fn digit_char(d: int) -> char {
    (48 + d) as char
}

/// The decimal text of a number, without leading zeros.
pub open spec fn decimal(n: nat) -> Seq<char>
    decreases n,
{
    if n < 10 {
        seq![digit_char(n as int)]
    } else {
        decimal(n / 10).push(digit_char((n % 10) as int))
    }
}

/// Writes a digit.
fn digit(d: u64) -> (r: char)
    requires
        d < 10,
    ensures
        r == digit_char(d as int),
{
    let b: u8 = 48 + d as u8;
    b as char
}

/// The decimal text of a number.
pub fn decimal_text(n: u64) -> (r: String)
    ensures
        r@ == decimal(n as nat),
    decreases n,
{
    if n < 10 {
        let mut out: String = String::new();
        out.push(digit(n));
        assert(out@ =~= decimal(n as nat));
        out
    } else {
        let mut out: String = decimal_text(n / 10);
        out.push(digit(n % 10));
        out
    }
}

/// The decimal text of a number of up to 128 bits.
pub fn decimal_wide(n: u128) -> (r: String)
    ensures
        r@ == decimal(n as nat),
    decreases n,
{
    if n < 10 {
        decimal_text(n as u64)
    } else {
        let mut out: String = decimal_wide(n / 10);
        out.push(digit((n % 10) as u64));
        out
    }
}

/// The decimal text of an integer: a minus sign for negative numbers, then the digits.
pub open spec fn integer(i: int) -> Seq<char> {
    if i < 0 {
        seq!['-'] + decimal((-i) as nat)
    } else {
        decimal(i as nat)
    }
}

/// The decimal text of an integer.
pub fn integer_text(i: i64) -> (r: String)
    ensures
        r@ == integer(i as int),
{
    let mut out: String = String::new();
    let magnitude: u64 = if i < 0 {
        out.push('-');
        (-(i as i128)) as u64
    } else {
        i as u64
    };
    out.append(decimal_text(magnitude).as_str());
    assert(out@ =~= integer(i as int));
    out
}

/// Whether a character is a decimal digit.
pub open spec fn is_digit(c: char) -> bool {
    '0' <= c <= '9'
}

/// The number that a run of digits stands for.
pub open spec fn digits_value(text: Seq<char>) -> int
    decreases text.len(),
{
    if text.len() == 0 {
        0
    } else {
        10 * digits_value(text.drop_last()) + (text.last() as int - 48)
    }
}

/// Whether every character of a text is a decimal digit.
pub open spec fn all_digits(text: Seq<char>) -> bool {
    forall|i: int| 0 <= i < text.len() ==> is_digit(#[trigger] text[i])
}

/// The decimal text of a number is made of digits and stands for the number.
pub proof fn decimal_stands_for_number(n: nat)
    ensures
        decimal(n).len() > 0,
        all_digits(decimal(n)),
        digits_value(decimal(n)) == n,
    decreases n,
{
    if n < 10 {
        let one = decimal(n);
        assert(one.drop_last() =~= Seq::empty());
        assert(digits_value(one.drop_last()) == 0);
        assert(digit_char(n as int) as int == 48 + n);
    } else {
        decimal_stands_for_number(n / 10);
        let d = digit_char((n % 10) as int);
        assert(d as int == 48 + n % 10);
        assert(decimal(n).drop_last() =~= decimal(n / 10));
    }
}

proof fn prefix_value_is_no_greater(text: Seq<char>, m: int)
    requires
        all_digits(text),
        0 <= m <= text.len(),
    ensures
        0 <= digits_value(text.take(m)) <= digits_value(text),
    decreases text.len(),
{
    if m < text.len() {
        assert(text.drop_last().take(m) =~= text.take(m));
        prefix_value_is_no_greater(text.drop_last(), m);
        assert(is_digit(text[text.len() - 1]));
    } else {
        assert(text.take(m) =~= text);
        if text.len() > 0 {
            prefix_value_is_no_greater(text.drop_last(), text.len() - 1);
            assert(text.drop_last().take(text.len() - 1) =~= text.drop_last());
            assert(is_digit(text[text.len() - 1]));
        }
    }
}

/// Different integers have different decimal texts.
pub proof fn integer_is_injective(i: int, j: int)
    requires
        integer(i) == integer(j),
    ensures
        i == j,
{
    let a = if i < 0 { (-i) as nat } else { i as nat };
    let b = if j < 0 { (-j) as nat } else { j as nat };
    decimal_stands_for_number(a);
    decimal_stands_for_number(b);
    assert(is_digit(decimal(a)[0]));
    assert(is_digit(decimal(b)[0]));
    if i < 0 {
        assert(integer(i)[0] == '-');
        assert(integer(i).drop_first() =~= decimal(a));
    }
    if j < 0 {
        assert(integer(j)[0] == '-');
        assert(integer(j).drop_first() =~= decimal(b));
    }
}

/// The number that `cs[from..]` stands for, where those characters are digits and it fits in
/// 64 bits.
pub(crate) fn digits_number(cs: &[char], from: usize) -> (r: Option<u64>)
    requires
        from <= cs@.len(),
    ensures
        match r {
            Some(n) => all_digits(cs@.skip(from as int)) && digits_value(cs@.skip(from as int))
                == n,
            None => all_digits(cs@.skip(from as int)) ==> digits_value(cs@.skip(from as int))
                > u64::MAX,
        },
{
    let ghost part = cs@.skip(from as int);
    let mut n: u64 = 0;
    let mut i: usize = from;
    assert(part.take(0) =~= Seq::empty());
    while i < cs.len()
        invariant
            from <= i <= cs@.len(),
            part == cs@.skip(from as int),
            forall|k: int| 0 <= k < i - from ==> is_digit(#[trigger] part[k]),
            digits_value(part.take(i - from)) == n,
        decreases cs@.len() - i,
    {
        let c = cs[i];
        assert(part[i - from] == c);
        if !('0' <= c && c <= '9') {
            return None;
        }
        let ghost upto = part.take(i - from + 1);
        assert(upto.drop_last() =~= part.take(i - from));
        assert(upto.last() == c);
        let d: u64 = (code(c) - 48) as u64;
        if n > (u64::MAX - d) / 10 {
            proof {
                assert(10 * n + d > u64::MAX);
                if all_digits(part) {
                    prefix_value_is_no_greater(part, i - from + 1);
                }
            }
            return None;
        }
        n = 10 * n + d;
        i += 1;
    }
    assert(part.take(part.len() as int) =~= part);
    Some(n)
}

/// The 64-bit integer whose decimal text this is.
pub fn canonical_integer(text: &str) -> (r: Option<i64>)
    ensures
        match r {
            Some(i) => text@ == integer(i as int),
            None => forall|i: i64| text@ != #[trigger] integer(i as int),
        },
{
    let cs = chars(text);
    let negative: bool = cs.len() > 0 && cs[0] == '-';
    let from: usize = if negative { 1 } else { 0 };
    let number = digits_number(cs.as_slice(), from);
    proof {
        assert forall|i: i64| text@ == #[trigger] integer(i as int) implies number is Some && i == (
        if negative {
            -(number->0 as int)
        } else {
            number->0 as int
        }) by {
            let m = if i < 0 { (-(i as int)) as nat } else { i as nat };
            decimal_stands_for_number(m);
            assert(is_digit(decimal(m)[0]));
            if i < 0 {
                assert(text@[0] == '-');
                assert(text@.skip(1) =~= decimal(m));
            } else {
                assert(text@.skip(0) =~= decimal(m));
            }
        }
    }
    match number {
        None => None,
        Some(n) => {
            if negative && n > 0x8000_0000_0000_0000 {
                return None;
            }
            if !negative && n > 0x7fff_ffff_ffff_ffff {
                return None;
            }
            let i: i64 = if negative { (-(n as i128)) as i64 } else { n as i64 };
            if same(integer_text(i).as_str(), text) {
                Some(i)
            } else {
                None
            }
        },
    }
}

} // verus!
