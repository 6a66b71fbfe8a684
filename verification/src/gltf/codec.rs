//! The encodings inside glTF documents: base64, data addresses, percent escapes and image formats.
use vstd::prelude::*;
use vstd::string::*;
use crate::resource_path;
use crate::text;

verus! {

/// What `{:?}` of `std::fmt` writes for a character: the character in single quotes, escaped where
/// Rust escapes it.
pub uninterp spec fn debug_of_char(c: char) -> Seq<char>;

/// Calls `<char as std::fmt::Debug>::fmt` through `format!`. The contract only names the outcome,
/// which depends on the character alone.
#[verifier::external_body]
fn debug_char(c: char) -> (r: String)
    ensures
        r@ == debug_of_char(c),
{
    format!("{c:?}")
}

/// Calls `String::from_utf8`: the text that the bytes encode, where they are valid UTF-8.
#[verifier::external_body]
fn text_from_utf8(bytes: Vec<u8>) -> (r: Option<String>)
    ensures
        match r {
            Some(s) => vstd::utf8::valid_utf8(bytes@) && s@ == vstd::utf8::decode_utf8(bytes@),
            None => !vstd::utf8::valid_utf8(bytes@),
        },
{
    String::from_utf8(bytes).ok()
}

/// The bytes of a text.
pub open spec fn bytes_of(text: Seq<char>) -> Seq<u8> {
    vstd::utf8::encode_utf8(text)
}

// Base64.

/// The value of a byte of the standard base64 alphabet.
pub open spec fn sextet(c: u8) -> Option<int> {
    if 65 <= c <= 90 {
        Some(c - 65)
    } else if 97 <= c <= 122 {
        Some(c - 97 + 26)
    } else if 48 <= c <= 57 {
        Some(c - 48 + 52)
    } else if c == 43 {
        Some(62)
    } else if c == 47 {
        Some(63)
    } else {
        None
    }
}

/// Whether a byte stands for nothing in base64: white space and padding.
pub open spec fn is_filler(c: u8) -> bool {
    c == 32 || c == 9 || c == 10 || c == 12 || c == 13 || c == 61
}

/// The values of base64 text, or its first byte that belongs to no alphabet.
pub open spec fn sextets(bytes: Seq<u8>) -> Result<Seq<int>, u8>
    decreases bytes.len(),
{
    if bytes.len() == 0 {
        Ok(Seq::empty())
    } else {
        match sextets(bytes.drop_last()) {
            Err(c) => Err(c),
            Ok(list) => if is_filler(bytes.last()) {
                Ok(list)
            } else {
                match sextet(bytes.last()) {
                    Some(v) => Ok(list.push(v)),
                    None => Err(bytes.last()),
                }
            },
        }
    }
}

/// The bytes that base64 values stand for: three to each four values, and as many whole bytes as the
/// last values fill.
pub open spec fn octets(values: Seq<int>) -> Seq<u8>
    decreases values.len(),
{
    if values.len() >= 4 {
        seq![
            (values[0] * 4 + values[1] / 16) as u8,
            (values[1] % 16 * 16 + values[2] / 4) as u8,
            (values[2] % 4 * 64 + values[3]) as u8,
        ] + octets(values.skip(4))
    } else if values.len() == 3 {
        seq![
            (values[0] * 4 + values[1] / 16) as u8,
            (values[1] % 16 * 16 + values[2] / 4) as u8,
        ]
    } else if values.len() == 2 {
        seq![(values[0] * 4 + values[1] / 16) as u8]
    } else {
        Seq::empty()
    }
}

/// The bytes that base64 text stands for, or the words of its failure.
pub open spec fn base64_decoded(text: Seq<char>) -> Result<Seq<u8>, Seq<char>> {
    match sextets(bytes_of(text)) {
        Ok(values) => Ok(octets(values)),
        Err(c) => Err("invalid base64 character "@ + debug_of_char(c as char)),
    }
}

fn b64_val(c: u8) -> (r: Option<u8>)
    ensures
        match sextet(c) {
            Some(v) => r matches Some(n) && n == v,
            None => r is None,
        },
{
    if 65 <= c && c <= 90 {
        Some(c - 65)
    } else if 97 <= c && c <= 122 {
        Some(c - 97 + 26)
    } else if 48 <= c && c <= 57 {
        Some(c - 48 + 52)
    } else if c == 43 {
        Some(62)
    } else if c == 47 {
        Some(63)
    } else {
        None
    }
}

/// The numbers of a list of bytes.
pub open spec fn numbers(list: Seq<u8>) -> Seq<int> {
    list.map_values(|v: u8| v as int)
}

proof fn bad_byte_stays(bytes: Seq<u8>, m: int)
    requires
        0 <= m <= bytes.len(),
        sextets(bytes.take(m)) is Err,
    ensures
        sextets(bytes) == sextets(bytes.take(m)),
    decreases bytes.len(),
{
    if m < bytes.len() {
        assert(bytes.drop_last().take(m) =~= bytes.take(m));
        bad_byte_stays(bytes.drop_last(), m);
    } else {
        assert(bytes.take(m) =~= bytes);
    }
}

/// The bytes that values below sixty-four stand for.
fn values_octets(values: &Vec<u8>) -> (r: Vec<u8>)
    requires
        forall|i: int| 0 <= i < values@.len() ==> values@[i] < 64,
    ensures
        r@ == octets(numbers(values@)),
{
    let ghost all = numbers(values@);
    let n: usize = values.len();
    let mut out: Vec<u8> = Vec::new();
    let mut i: usize = 0;
    assert(all.skip(0) =~= all);
    assert(out@ + octets(all) =~= octets(all));
    while n - i >= 4
        invariant
            i <= n == values@.len(),
            forall|i: int| 0 <= i < values@.len() ==> values@[i] < 64,
            all == numbers(values@),
            out@ + octets(all.skip(i as int)) == octets(all),
        decreases n - i,
    {
        let ghost rest = all.skip(i as int);
        let ghost before = out@;
        let a: u8 = values[i];
        let b: u8 = values[i + 1];
        let c: u8 = values[i + 2];
        let d: u8 = values[i + 3];
        assert(rest[0] == a && rest[1] == b && rest[2] == c && rest[3] == d);
        out.push(a * 4 + b / 16);
        out.push(b % 16 * 16 + c / 4);
        out.push(c % 4 * 64 + d);
        assert(rest.skip(4) =~= all.skip(i + 4));
        assert(out@ + octets(all.skip(i + 4)) =~= before + octets(rest));
        i += 4;
    }
    let ghost rest = all.skip(i as int);
    let ghost before = out@;
    if n - i >= 2 {
        let a: u8 = values[i];
        let b: u8 = values[i + 1];
        assert(rest[0] == a && rest[1] == b);
        out.push(a * 4 + b / 16);
        if n - i == 3 {
            let c: u8 = values[i + 2];
            assert(rest[2] == c);
            out.push(b % 16 * 16 + c / 4);
        }
    }
    assert(out@ =~= before + octets(rest));
    out
}

/// Decodes base64 text. White space is skipped and padding may be missing.
pub fn base64_decode(s: &str) -> (r: Result<Vec<u8>, String>)
    ensures
        match base64_decoded(s@) {
            Ok(bytes) => r matches Ok(out) && out@ == bytes,
            Err(words) => r matches Err(message) && message@ == words,
        },
{
    let bytes: &[u8] = s.as_bytes();
    let ghost all = bytes_of(s@);
    let mut values: Vec<u8> = Vec::new();
    let mut i: usize = 0;
    assert(all.take(0) =~= Seq::empty());
    assert(numbers(values@) =~= Seq::empty());
    while i < bytes.len()
        invariant
            i <= bytes@.len(),
            bytes@ == all,
            all == bytes_of(s@),
            sextets(all.take(i as int)) == Ok::<Seq<int>, u8>(numbers(values@)),
            forall|i: int| 0 <= i < values@.len() ==> values@[i] < 64,
        decreases bytes@.len() - i,
    {
        let c: u8 = bytes[i];
        let ghost upto = all.take(i + 1);
        assert(upto.drop_last() =~= all.take(i as int));
        assert(upto.last() == c);
        if c == 32 || c == 9 || c == 10 || c == 12 || c == 13 || c == 61 {
            assert(is_filler(c));
        } else {
            match b64_val(c) {
                Some(v) => {
                    let ghost before = values@;
                    values.push(v);
                    assert(numbers(values@) =~= numbers(before).push(v as int));
                },
                None => {
                    proof {
                        bad_byte_stays(all, i + 1);
                    }
                    let mut message: String = "invalid base64 character ".to_owned();
                    message.append(debug_char(c as char).as_str());
                    return Err(message);
                },
            }
        }
        i += 1;
    }
    assert(all.take(all.len() as int) =~= all);
    Ok(values_octets(&values))
}

/// The base64 values of bytes: four to each three bytes, and as many as the last bytes need.
pub open spec fn values_of(bytes: Seq<u8>) -> Seq<int>
    decreases bytes.len(),
{
    if bytes.len() >= 3 {
        seq![
            bytes[0] as int / 4,
            bytes[0] as int % 4 * 16 + bytes[1] as int / 16,
            bytes[1] as int % 16 * 4 + bytes[2] as int / 64,
            bytes[2] as int % 64,
        ] + values_of(bytes.skip(3))
    } else if bytes.len() == 2 {
        seq![
            bytes[0] as int / 4,
            bytes[0] as int % 4 * 16 + bytes[1] as int / 16,
            bytes[1] as int % 16 * 4,
        ]
    } else if bytes.len() == 1 {
        seq![bytes[0] as int / 4, bytes[0] as int % 4 * 16]
    } else {
        Seq::empty()
    }
}

/// The byte of the standard base64 alphabet for a value.
pub open spec fn letter(v: int) -> u8 {
    if v < 26 {
        (65 + v) as u8
    } else if v < 52 {
        (71 + v) as u8
    } else if v < 62 {
        (v - 4) as u8
    } else if v == 62 {
        43
    } else {
        47
    }
}

/// The bytes of base64 text for bytes, with as much padding as makes the length a multiple of four.
pub open spec fn base64_encoded(bytes: Seq<u8>) -> Seq<u8> {
    let letters = values_of(bytes).map_values(|v: int| letter(v));
    if bytes.len() % 3 == 1 {
        letters + seq![61u8, 61u8]
    } else if bytes.len() % 3 == 2 {
        letters + seq![61u8]
    } else {
        letters
    }
}

proof fn values_stand_for_bytes(bytes: Seq<u8>)
    ensures
        octets(values_of(bytes)) == bytes,
        forall|i: int| 0 <= i < values_of(bytes).len() ==> 0 <= #[trigger] values_of(bytes)[i] < 64,
    decreases bytes.len(),
{
    let values = values_of(bytes);
    if bytes.len() >= 3 {
        values_stand_for_bytes(bytes.skip(3));
        assert(values.skip(4) =~= values_of(bytes.skip(3)));
        assert forall|i: int| 0 <= i < values.len() implies 0 <= #[trigger] values[i] < 64 by {
            if i >= 4 {
                assert(values[i] == values_of(bytes.skip(3))[i - 4]);
            }
        }
        assert(octets(values) =~= bytes);
    } else {
        assert(octets(values) =~= bytes);
    }
}

proof fn letters_stand_for_values(values: Seq<int>)
    requires
        forall|i: int| 0 <= i < values.len() ==> 0 <= #[trigger] values[i] < 64,
    ensures
        sextets(values.map_values(|v: int| letter(v))) == Ok::<Seq<int>, u8>(values),
    decreases values.len(),
{
    let letters = values.map_values(|v: int| letter(v));
    if values.len() == 0 {
        assert(values =~= Seq::empty());
    } else {
        let rest = values.drop_last();
        letters_stand_for_values(rest);
        assert(letters.drop_last() =~= rest.map_values(|v: int| letter(v)));
        let v = values[values.len() - 1];
        assert(letters.last() == letter(v));
        assert(sextet(letter(v)) == Some(v));
        assert(!is_filler(letter(v)));
        assert(rest.push(v) =~= values);
    }
}

/// Decoding base64 text gives back the bytes that were encoded.
pub proof fn base64_gives_back(bytes: Seq<u8>, text: Seq<char>)
    requires
        bytes_of(text) == base64_encoded(bytes),
    ensures
        base64_decoded(text) == Ok::<Seq<u8>, Seq<char>>(bytes),
{
    let values = values_of(bytes);
    let letters = values.map_values(|v: int| letter(v));
    values_stand_for_bytes(bytes);
    letters_stand_for_values(values);
    let all = base64_encoded(bytes);
    if bytes.len() % 3 == 1 {
        assert(all.drop_last().drop_last() =~= letters);
        assert(all.last() == 61 && all.drop_last().last() == 61);
        assert(sextets(all.drop_last()) == sextets(letters));
    } else if bytes.len() % 3 == 2 {
        assert(all.drop_last() =~= letters);
        assert(all.last() == 61);
    }
}

// Data addresses.

/// Whether a text ends with another.
pub open spec fn ends_with(text: Seq<char>, suffix: Seq<char>) -> bool {
    text.len() >= suffix.len() && text.skip(text.len() - suffix.len()) == suffix
}

/// Whether an address carries its own data.
pub open spec fn is_data_uri(uri: Seq<char>) -> bool {
    text::starts_with(uri, "data:"@)
}

/// The type and the bytes that a data address carries, or the words of its failure.
pub open spec fn data_uri_decoded(uri: Seq<char>) -> Result<(Seq<char>, Seq<u8>), Seq<char>> {
    let rest = uri.skip(5);
    let comma = resource_path::first_place(rest, resource_path::is_char(','));
    let header = rest.take(comma as int);
    if !is_data_uri(uri) {
        Err("not a data: uri"@)
    } else if comma == rest.len() {
        Err("malformed data: uri (no comma separator)"@)
    } else if !ends_with(header, ";base64"@) {
        Err("data: uri is not base64-encoded (header "@ + text::debug_chars(header) + ")"@)
    } else {
        let mime = header.take(header.len() - 7);
        match base64_decoded(rest.skip(comma as int + 1)) {
            Err(words) => Err(words),
            Ok(bytes) => Ok(
                (
                    if mime.len() == 0 {
                        "application/octet-stream"@
                    } else {
                        mime
                    },
                    bytes,
                ),
            ),
        }
    }
}

/// The type and the bytes that a data address carries. Data that is not base64 is refused.
pub fn decode_data_uri(uri: &str) -> (r: Result<(String, Vec<u8>), String>)
    ensures
        match data_uri_decoded(uri@) {
            Ok((mime, bytes)) => r matches Ok((m, b)) && m@ == mime && b@ == bytes,
            Err(words) => r matches Err(message) && message@ == words,
        },
{
    proof {
        reveal_strlit("data:");
        reveal_strlit(";base64");
    }
    if !text::has_prefix(uri, "data:") {
        return Err("not a data: uri".to_owned());
    }
    let cs = text::chars(uri);
    let n: usize = cs.len();
    let comma = resource_path::place_of(cs.as_slice(), ',', 5);
    let ghost rest = uri@.skip(5);
    if comma == n {
        return Err("malformed data: uri (no comma separator)".to_owned());
    }
    let header = text::text_of_range(cs.as_slice(), 5, comma);
    assert(header@ =~= rest.take(comma - 5));
    let marked = comma >= 12 && text::has_at(cs.as_slice(), ";base64", comma - 7) && comma - 7 >= 5;
    proof {
        let h = header@;
        if h.len() >= 7 {
            assert(h.skip(h.len() - 7) =~= uri@.subrange(comma - 7, comma as int));
        }
        assert(marked == ends_with(h, ";base64"@));
    }
    if !marked {
        let mut message: String = "data: uri is not base64-encoded (header ".to_owned();
        message.append(text::debug_text(header.as_str()).as_str());
        message.append(")");
        return Err(message);
    }
    let mime = text::text_of_range(cs.as_slice(), 5, comma - 7);
    let payload = text::text_of_range(cs.as_slice(), comma + 1, n);
    proof {
        assert(mime@ =~= header@.take(header@.len() - 7));
        assert(payload@ =~= rest.skip(comma - 5 + 1));
    }
    let bytes = base64_decode(payload.as_str())?;
    let mime = if mime.as_str().is_empty() {
        "application/octet-stream".to_owned()
    } else {
        mime
    };
    Ok((mime, bytes))
}

// Percent escapes.

/// The value of a hexadecimal digit.
pub open spec fn hex_value(c: u8) -> Option<int> {
    if 48 <= c <= 57 {
        Some(c - 48)
    } else if 97 <= c <= 102 {
        Some(c - 87)
    } else if 65 <= c <= 70 {
        Some(c - 55)
    } else {
        None
    }
}

fn hex_digit(c: u8) -> (r: Option<u8>)
    ensures
        match hex_value(c) {
            Some(v) => r matches Some(n) && n == v,
            None => r is None,
        },
{
    if 48 <= c && c <= 57 {
        Some(c - 48)
    } else if 97 <= c && c <= 102 {
        Some(c - 87)
    } else if 65 <= c && c <= 70 {
        Some(c - 55)
    } else {
        None
    }
}

/// Whether bytes start with a percent sign and two hexadecimal digits.
pub open spec fn is_escape(bytes: Seq<u8>) -> bool {
    bytes.len() >= 3 && bytes[0] == 37 && hex_value(bytes[1]) is Some && hex_value(bytes[2]) is Some
}

/// Bytes with their percent escapes resolved. What is no escape stays as it is.
pub open spec fn unescaped(bytes: Seq<u8>) -> Seq<u8>
    decreases bytes.len(),
{
    if bytes.len() == 0 {
        Seq::empty()
    } else if is_escape(bytes) {
        seq![(hex_value(bytes[1])->0 * 16 + hex_value(bytes[2])->0) as u8] + unescaped(
            bytes.skip(3),
        )
    } else {
        seq![bytes[0]] + unescaped(bytes.drop_first())
    }
}

/// A text with its percent escapes resolved; the text itself where that gives no valid text.
pub open spec fn percent_decoded(text: Seq<char>) -> Seq<char> {
    let bytes = unescaped(bytes_of(text));
    if vstd::utf8::valid_utf8(bytes) {
        vstd::utf8::decode_utf8(bytes)
    } else {
        text
    }
}

/// A text with its percent escapes resolved.
pub fn percent_decode(s: &str) -> (r: String)
    ensures
        r@ == percent_decoded(s@),
{
    let b: &[u8] = s.as_bytes();
    let ghost all = bytes_of(s@);
    let n: usize = b.len();
    let mut out: Vec<u8> = Vec::new();
    let mut i: usize = 0;
    assert(all.skip(0) =~= all);
    assert(out@ + unescaped(all) =~= unescaped(all));
    while i < n
        invariant
            i <= n == b@.len(),
            b@ == all,
            out@ + unescaped(all.skip(i as int)) == unescaped(all),
        decreases n - i,
    {
        let ghost rest = all.skip(i as int);
        let ghost before = out@;
        assert(rest[0] == b@[i as int]);
        let mut taken: usize = 1;
        if b[i] == 37 && n - i >= 3 {
            assert(rest[1] == b@[i + 1] && rest[2] == b@[i + 2]);
            match (hex_digit(b[i + 1]), hex_digit(b[i + 2])) {
                (Some(hi), Some(lo)) => {
                    out.push(hi * 16 + lo);
                    taken = 3;
                    assert(rest.skip(3) =~= all.skip(i + 3));
                    assert(out@ + unescaped(all.skip(i + 3)) =~= before + unescaped(rest));
                },
                _ => {},
            }
        }
        if taken == 1 {
            out.push(b[i]);
            assert(rest.drop_first() =~= all.skip(i + 1));
            assert(out@ + unescaped(all.skip(i + 1)) =~= before + unescaped(rest));
        }
        i += taken;
    }
    assert(unescaped(all.skip(n as int)) =~= Seq::empty());
    assert(out@ =~= unescaped(all));
    match text_from_utf8(out) {
        Some(decoded) => decoded,
        None => s.to_owned(),
    }
}

// Images.

/// The lower-case form of an ASCII letter.
pub open spec fn lower(c: char) -> char {
    if 'A' <= c <= 'Z' {
        ((c as u32) + 32) as char
    } else {
        c
    }
}

/// A text with its ASCII letters in lower case.
pub open spec fn lowered(text: Seq<char>) -> Seq<char> {
    text.map_values(|c: char| lower(c))
}

fn lower_char(c: char) -> (r: char)
    ensures
        r == lower(c),
{
    if 'A' <= c && c <= 'Z' {
        let b: u8 = text::code(c) as u8;
        (b + 32) as char
    } else {
        c
    }
}

/// A text with its ASCII letters in lower case.
pub fn to_lower(s: &str) -> (r: String)
    ensures
        r@ == lowered(s@),
{
    let cs = text::chars(s);
    let mut out: String = String::new();
    let mut i: usize = 0;
    assert(out@ =~= lowered(s@).take(0));
    while i < cs.len()
        invariant
            i <= cs@.len(),
            cs@ == s@,
            out@ == lowered(s@).take(i as int),
        decreases cs@.len() - i,
    {
        let c = lower_char(cs[i]);
        out.push(c);
        assert(lowered(s@).take(i + 1) =~= lowered(s@).take(i as int).push(c));
        i += 1;
    }
    assert(lowered(s@).take(s@.len() as int) =~= lowered(s@));
    out
}

/// What follows the last dot of a text; nothing where there is none.
pub open spec fn after_dot(text: Seq<char>) -> Option<Seq<char>>
    decreases text.len(),
{
    if text.len() == 0 {
        None
    } else if text.last() == '.' {
        Some(Seq::empty())
    } else {
        match after_dot(text.drop_last()) {
            Some(rest) => Some(rest.push(text.last())),
            None => None,
        }
    }
}

/// The image type that an address names by its extension.
pub open spec fn named_mime(uri: Seq<char>) -> Option<Seq<char>> {
    match after_dot(uri) {
        None => None,
        Some(ext) => if lowered(ext) == "png"@ {
            Some("image/png"@)
        } else if lowered(ext) == "jpg"@ || lowered(ext) == "jpeg"@ {
            Some("image/jpeg"@)
        } else {
            None
        },
    }
}

proof fn after_dot_is(text: Seq<char>, at: int)
    requires
        0 <= at < text.len(),
        text[at] == '.',
        forall|k: int| at < k < text.len() ==> text[k] != '.',
    ensures
        after_dot(text) == Some(text.skip(at + 1)),
    decreases text.len(),
{
    if at == text.len() - 1 {
        assert(text.skip(at + 1) =~= Seq::empty());
    } else {
        let rest = text.drop_last();
        assert(text[text.len() - 1] != '.');
        after_dot_is(rest, at);
        assert(text.skip(at + 1) =~= rest.skip(at + 1).push(text.last()));
    }
}

proof fn no_dot_no_extension(text: Seq<char>)
    requires
        forall|k: int| 0 <= k < text.len() ==> text[k] != '.',
    ensures
        after_dot(text) is None,
    decreases text.len(),
{
    if text.len() > 0 {
        assert(text[text.len() - 1] != '.');
        no_dot_no_extension(text.drop_last());
    }
}

/// What follows the last dot of a text is shorter than the text.
pub proof fn after_dot_is_shorter(text: Seq<char>)
    ensures
        after_dot(text) matches Some(ext) ==> ext.len() < text.len(),
    decreases text.len(),
{
    if text.len() > 0 && text.last() != '.' {
        after_dot_is_shorter(text.drop_last());
    }
}

/// What follows the last dot of a text.
pub fn extension(text: &str) -> (r: Option<String>)
    ensures
        match after_dot(text@) {
            Some(ext) => r matches Some(s) && s@ == ext,
            None => r is None,
        },
{
    let cs = text::chars(text);
    let n: usize = cs.len();
    let mut at: usize = n;
    while at > 0
        invariant
            at <= n == cs@.len(),
            cs@ == text@,
            forall|k: int| at <= k < n ==> cs@[k] != '.',
        decreases at,
    {
        at -= 1;
        if cs[at] == '.' {
            let r = text::text_of_range(cs.as_slice(), at + 1, n);
            proof {
                after_dot_is(text@, at as int);
                assert(r@ =~= text@.skip(at + 1));
            }
            return Some(r);
        }
    }
    proof {
        no_dot_no_extension(text@);
    }
    None
}

/// The image type that an address names by its extension: PNG or JPEG.
pub fn mime_from_ext(uri: &str) -> (r: Option<&'static str>)
    ensures
        match named_mime(uri@) {
            Some(mime) => r matches Some(s) && s@ == mime,
            None => r is None,
        },
{
    match extension(uri) {
        None => None,
        Some(ext) => {
            let low = to_lower(ext.as_str());
            if text::same(low.as_str(), "png") {
                Some("image/png")
            } else if text::same(low.as_str(), "jpg") || text::same(low.as_str(), "jpeg") {
                Some("image/jpeg")
            } else {
                None
            }
        },
    }
}

/// The bytes that every PNG image starts with.
pub open spec fn png_magic() -> Seq<u8> {
    seq![0x89, 0x50, 0x4e, 0x47, 0x0d, 0x0a, 0x1a, 0x0a]
}

/// The bytes that every JPEG image starts with.
pub open spec fn jpeg_magic() -> Seq<u8> {
    seq![0xff, 0xd8, 0xff]
}

/// Whether bytes start with others.
pub open spec fn bytes_start_with(bytes: Seq<u8>, magic: Seq<u8>) -> bool {
    bytes.len() >= magic.len() && bytes.take(magic.len() as int) == magic
}

/// The image type that bytes show by what they start with.
pub open spec fn sniffed_mime(bytes: Seq<u8>) -> Option<Seq<char>> {
    if bytes_start_with(bytes, png_magic()) {
        Some("image/png"@)
    } else if bytes_start_with(bytes, jpeg_magic()) {
        Some("image/jpeg"@)
    } else {
        None
    }
}

/// Whether bytes start with others.
pub fn has_magic(bytes: &[u8], magic: &[u8]) -> (r: bool)
    ensures
        r == bytes_start_with(bytes@, magic@),
{
    if bytes.len() < magic.len() {
        return false;
    }
    let mut i: usize = 0;
    while i < magic.len()
        invariant
            i <= magic@.len() <= bytes@.len(),
            forall|k: int| 0 <= k < i ==> bytes@[k] == magic@[k],
        decreases magic@.len() - i,
    {
        if bytes[i] != magic[i] {
            assert(bytes@.take(magic@.len() as int)[i as int] == bytes@[i as int]);
            return false;
        }
        i += 1;
    }
    assert(bytes@.take(magic@.len() as int) =~= magic@);
    true
}

/// The image type that bytes show by what they start with: PNG or JPEG.
pub fn sniff_image_mime(bytes: &[u8]) -> (r: Option<&'static str>)
    ensures
        match sniffed_mime(bytes@) {
            Some(mime) => r matches Some(s) && s@ == mime,
            None => r is None,
        },
{
    let png: [u8; 8] = [0x89, 0x50, 0x4e, 0x47, 0x0d, 0x0a, 0x1a, 0x0a];
    let jpeg: [u8; 3] = [0xff, 0xd8, 0xff];
    assert(png@ =~= png_magic());
    assert(jpeg@ =~= jpeg_magic());
    if has_magic(bytes, png.as_slice()) {
        Some("image/png")
    } else if has_magic(bytes, jpeg.as_slice()) {
        Some("image/jpeg")
    } else {
        None
    }
}

} // verus!
