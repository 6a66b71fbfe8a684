//! What encoded names and data stand for, and how a binary file is laid out.
use vstd::prelude::*;
use crate::resource_path;
use super::codec;
use super::pack;

verus! {

// Base64.

/// The base64 alphabet is the large letters, the small letters, the digits, plus and slash, in this
/// order, and nothing else.
pub proof fn the_alphabet_has_its_order(c: u8, v: int)
    ensures
        codec::sextet(c) == Some(v) <==> {
            ||| 0 <= v < 26 && c == v + 65
            ||| 26 <= v < 52 && c == v - 26 + 97
            ||| 52 <= v < 62 && c == v - 52 + 48
            ||| v == 62 && c == 43
            ||| v == 63 && c == 47
        },
{
}

/// An address that carries a type and base64 text gives both back, and one that names no type carries
/// plain bytes.
pub proof fn a_data_address_gives_back(mime: Seq<char>, bytes: Seq<u8>, written: Seq<char>)
    requires
        !mime.contains(','),
        codec::bytes_of(written) == codec::base64_encoded(bytes),
    ensures
        codec::data_uri_decoded("data:"@ + mime + ";base64,"@ + written) == Ok::<
            (Seq<char>, Seq<u8>),
            Seq<char>,
        >(
            (
                if mime == Seq::<char>::empty() {
                    "application/octet-stream"@
                } else {
                    mime
                },
                bytes,
            ),
        ),
{
    reveal_strlit("data:");
    reveal_strlit(";base64,");
    reveal_strlit(";base64");
    let uri = "data:"@ + mime + ";base64,"@ + written;
    let rest = uri.skip(5);
    let stop = resource_path::is_char(',');
    assert(uri.take(5) =~= "data:"@);
    assert(rest =~= mime + ";base64,"@ + written);
    let at = mime.len() + 7;
    assert forall|k: int| 0 <= k < at implies !stop(#[trigger] rest[k]) by {
        if k < mime.len() {
            assert(rest[k] == mime[k]);
        } else {
            assert(rest[k] == ";base64,"@[k - mime.len()]);
        }
    }
    assert(rest[at as int] == ";base64,"@[7]);
    resource_path::first_place_is(rest, stop, at as int);
    let header = rest.take(at as int);
    assert(header =~= mime + ";base64"@);
    assert(header.skip(header.len() - 7) =~= ";base64"@);
    assert(header.take(header.len() - 7) =~= mime);
    assert(rest.skip(at as int + 1) =~= written);
    codec::base64_gives_back(bytes, written);
    if mime.len() == 0 {
        assert(mime =~= Seq::empty());
    }
}

// Percent escapes.

/// Whether a byte writes a number below sixteen as a hexadecimal digit, large or small.
pub open spec fn is_digit_of(c: u8, v: int) -> bool {
    ||| 0 <= v < 10 && c == v + 48
    ||| 10 <= v < 16 && (c == v - 10 + 65 || c == v - 10 + 97)
}

/// A percent sign and the two digits of a byte stand for that byte, whatever follows.
pub proof fn an_escape_stands_for_its_byte(high: u8, low: u8, v: u8, rest: Seq<u8>)
    requires
        is_digit_of(high, v as int / 16),
        is_digit_of(low, v as int % 16),
    ensures
        codec::unescaped(seq![37u8, high, low] + rest) == seq![v] + codec::unescaped(rest),
{
    let whole = seq![37u8, high, low] + rest;
    assert(whole[0] == 37 && whole[1] == high && whole[2] == low);
    assert(whole.skip(3) =~= rest);
    assert(codec::hex_value(high) == Some(v as int / 16));
    assert(codec::hex_value(low) == Some(v as int % 16));
    assert(v as int / 16 * 16 + v as int % 16 == v);
}

/// A byte that is no percent sign stands for itself, and so does a percent sign that two digits do not
/// follow.
pub proof fn other_bytes_stand_for_themselves(b: u8, rest: Seq<u8>)
    requires
        b != 37 || rest.len() < 2 || (forall|v: int| !is_digit_of(rest[0], v)) || (forall|v: int|
            !is_digit_of(rest[1], v)),
    ensures
        codec::unescaped(seq![b] + rest) == seq![b] + codec::unescaped(rest),
{
    let whole = seq![b] + rest;
    assert(whole[0] == b);
    assert(whole.drop_first() =~= rest);
    if b == 37 && rest.len() >= 2 {
        assert(whole[1] == rest[0] && whole[2] == rest[1]);
        if codec::is_escape(whole) {
            let first = codec::hex_value(rest[0])->0;
            let second = codec::hex_value(rest[1])->0;
            assert(is_digit_of(rest[0], first));
            assert(is_digit_of(rest[1], second));
        }
    }
}

// Images.

/// Whether a text is a word in large and small letters.
pub open spec fn spells(written: Seq<char>, word: Seq<char>) -> bool {
    written.len() == word.len() && forall|i: int|
        0 <= i < word.len() ==> (#[trigger] written[i] == word[i] || 'A' <= written[i] <= 'Z' && written[i]
            as int + 32 == word[i] as int)
}

/// Whether a text is made of small letters.
spec fn is_small(word: Seq<char>) -> bool {
    forall|i: int| 0 <= i < word.len() ==> 'a' <= #[trigger] word[i] <= 'z'
}

proof fn lowering_spells(written: Seq<char>, word: Seq<char>)
    requires
        is_small(word),
    ensures
        codec::lowered(written) == word <==> spells(written, word),
{
    if codec::lowered(written) == word {
        assert forall|i: int| 0 <= i < word.len() implies (#[trigger] written[i] == word[i] || 'A'
            <= written[i] <= 'Z' && written[i] as int + 32 == word[i] as int) by {
            assert(codec::lowered(written)[i] == codec::lower(written[i]));
        }
    }
    if spells(written, word) {
        assert forall|i: int| 0 <= i < word.len() implies codec::lowered(written)[i] == word[i] by {
            assert(written[i] == word[i] || 'A' <= written[i] <= 'Z' && written[i] as int + 32
                == word[i] as int);
        }
        assert(codec::lowered(written) =~= word);
    }
}

proof fn ends_behind_a_dot(front: Seq<char>, end: Seq<char>)
    requires
        !end.contains('.'),
    ensures
        codec::after_dot(front + seq!['.'] + end) == Some(end),
    decreases end.len(),
{
    let whole = front + seq!['.'] + end;
    if end.len() == 0 {
        assert(whole.last() == '.');
        assert(end =~= Seq::empty());
    } else {
        assert(end.contains(end[end.len() - 1]));
        assert(whole.last() == end.last());
        let less = end.drop_last();
        assert forall|c: char| less.contains(c) implies end.contains(c) by {
            let i = choose|i: int| 0 <= i < less.len() && less[i] == c;
            assert(end[i] == c);
        }
        ends_behind_a_dot(front, less);
        assert(whole.drop_last() =~= front + seq!['.'] + less);
        assert(less.push(end.last()) =~= end);
    }
}

/// An address names a PNG image by an end in `png`, a JPEG image by one in `jpg` or `jpeg`, in large
/// or small letters, and no image by another.
pub proof fn images_are_named_by_their_end(front: Seq<char>, end: Seq<char>)
    requires
        !end.contains('.'),
    ensures
        codec::named_mime(front + seq!['.'] + end) == (if spells(end, "png"@) {
            Some("image/png"@)
        } else if spells(end, "jpg"@) || spells(end, "jpeg"@) {
            Some("image/jpeg"@)
        } else {
            None
        }),
{
    reveal_strlit("png");
    reveal_strlit("jpg");
    reveal_strlit("jpeg");
    ends_behind_a_dot(front, end);
    lowering_spells(end, "png"@);
    lowering_spells(end, "jpg"@);
    lowering_spells(end, "jpeg"@);
}

/// What a document declares of an image decides its type; else the name of the image does; else its
/// first bytes do, by which PNG and JPEG images are known.
pub proof fn how_images_are_known(uri: Seq<char>, rest: Seq<u8>, mime: Seq<char>, bytes: Seq<u8>)
    ensures
        pack::image_mime(Some(mime), uri, bytes) == Some(mime),
        codec::named_mime(uri) is Some ==> pack::image_mime(None, uri, bytes) == codec::named_mime(uri),
        codec::named_mime(uri) is None ==> {
            &&& pack::image_mime(
                None,
                uri,
                seq![0x89u8, 0x50, 0x4e, 0x47, 0x0d, 0x0a, 0x1a, 0x0a] + rest,
            ) == Some("image/png"@)
            &&& pack::image_mime(None, uri, seq![0xffu8, 0xd8, 0xff] + rest) == Some("image/jpeg"@)
            &&& bytes.len() < 3 ==> pack::image_mime(None, uri, bytes) is None
            &&& bytes[0] != 0x89 && bytes[0] != 0xff ==> pack::image_mime(None, uri, bytes) is None
        },
{
    let png = seq![0x89u8, 0x50, 0x4e, 0x47, 0x0d, 0x0a, 0x1a, 0x0a] + rest;
    let jpeg = seq![0xffu8, 0xd8, 0xff] + rest;
    assert(png.take(8) =~= codec::png_magic());
    assert(jpeg.take(3) =~= codec::jpeg_magic());
    assert(jpeg[0] == 0xff);
    if codec::bytes_start_with(jpeg, codec::png_magic()) {
        assert(jpeg.take(8)[0] == 0x89);
    }
    if codec::bytes_start_with(bytes, codec::png_magic()) {
        assert(bytes.take(8)[0] == 0x89);
    }
    if codec::bytes_start_with(bytes, codec::jpeg_magic()) {
        assert(bytes.take(3)[0] == 0xff);
    }
}

// Binary files.

/// The number that four bytes stand for, the smallest first.
pub open spec fn number_at(bytes: Seq<u8>, at: int) -> int {
    bytes[at] + 256 * bytes[at + 1] + 65536 * bytes[at + 2] + 16777216 * bytes[at + 3]
}

proof fn four_bytes_stand_for(n: int)
    requires
        0 <= n <= u32::MAX,
    ensures
        pack::little_endian(n).len() == 4,
        number_at(pack::little_endian(n), 0) == n,
{
    reveal(pack::little_endian);
}

proof fn fixed_words()
    ensures
        pack::little_endian(pack::GLB_MAGIC as int) == seq![0x67u8, 0x6c, 0x54, 0x46],
        pack::little_endian(pack::GLB_VERSION as int) == seq![2u8, 0, 0, 0],
        pack::little_endian(pack::CHUNK_JSON as int) == seq![0x4au8, 0x53, 0x4f, 0x4e],
        pack::little_endian(pack::CHUNK_BIN as int) == seq![0x42u8, 0x49, 0x4e, 0],
{
    reveal(pack::little_endian);
}

/// How many bytes a chunk takes for its content, filled up to a multiple of four.
pub open spec fn room(n: nat) -> nat {
    if n % 4 == 0 {
        n
    } else {
        (n / 4 + 1) * 4
    }
}

proof fn filling_up(bytes: Seq<u8>, filler: u8)
    ensures
        pack::filled(bytes, filler).len() == room(bytes.len()),
        forall|i: int|
            0 <= i < bytes.len() ==> #[trigger] pack::filled(bytes, filler)[i] == bytes[i],
        forall|i: int|
            bytes.len() <= i < room(bytes.len()) ==> #[trigger] pack::filled(bytes, filler)[i] == filler,
{
}

proof fn laid_out(a: Seq<u8>, b: Seq<u8>, c: Seq<u8>, d: Seq<u8>)
    requires
        a.len() == 4,
        b.len() == 4,
        c.len() == 4,
    ensures
        (a + b + c + d).len() == 12 + d.len(),
        (a + b + c + d).subrange(0, 4) == a,
        (a + b + c + d).subrange(4, 8) == b,
        number_at(a + b + c + d, 8) == number_at(c, 0),
        forall|i: int| 0 <= i < d.len() ==> (a + b + c + d)[12 + i] == #[trigger] d[i],
{
    assert((a + b + c + d).subrange(0, 4) =~= a);
    assert((a + b + c + d).subrange(4, 8) =~= b);
}

proof fn chunk_laid_out(kind: u32, content: Seq<u8>)
    requires
        content.len() <= u32::MAX,
    ensures
        pack::chunk(kind, content).len() == 8 + content.len(),
        number_at(pack::chunk(kind, content), 0) == content.len(),
        pack::chunk(kind, content).subrange(4, 8) == pack::little_endian(kind as int),
        forall|i: int| 0 <= i < content.len() ==> pack::chunk(kind, content)[8 + i] == #[trigger] content[i],
{
    four_bytes_stand_for(content.len() as int);
    four_bytes_stand_for(kind as int);
    assert(pack::chunk(kind, content).subrange(4, 8) =~= pack::little_endian(kind as int));
}

/// A binary file starts with `glTF`, the version 2 and its own length. A chunk `JSON` follows, with its
/// length, the document, and spaces up to a multiple of four; and, where there is data, a chunk `BIN`,
/// with its length, the data, and zeros up to a multiple of four.
pub proof fn a_file_holds_both_parts(json: Seq<u8>, bin: Seq<u8>)
    requires
        pack::worst_size(json.len(), bin.len()) <= u32::MAX,
    ensures
        ({
            let file = pack::glb(json, bin);
            let second = 20 + room(json.len()) as int;
            &&& file.subrange(0, 4) == seq![0x67u8, 0x6c, 0x54, 0x46]
            &&& file.subrange(4, 8) == seq![2u8, 0, 0, 0]
            &&& number_at(file, 8) == file.len()
            &&& number_at(file, 12) == room(json.len())
            &&& file.subrange(16, 20) == seq![0x4au8, 0x53, 0x4f, 0x4e]
            &&& file.subrange(20, 20 + json.len() as int) == json
            &&& forall|i: int| 20 + json.len() <= i < second ==> #[trigger] file[i] == 32
            &&& bin.len() == 0 ==> file.len() == second
            &&& bin.len() > 0 ==> {
                &&& file.len() == second + 8 + room(bin.len())
                &&& number_at(file, second) == room(bin.len())
                &&& file.subrange(second + 4, second + 8) == seq![0x42u8, 0x49, 0x4e, 0]
                &&& file.subrange(second + 8, second + 8 + bin.len()) == bin
                &&& forall|i: int| second + 8 + bin.len() <= i < file.len() ==> #[trigger] file[i] == 0
            }
        }),
{
    let first = pack::filled(json, 32);
    let other = pack::filled(bin, 0);
    filling_up(json, 32);
    filling_up(bin, 0);
    fixed_words();
    let body = pack::chunks(json, bin);
    chunk_laid_out(pack::CHUNK_JSON, first);
    chunk_laid_out(pack::CHUNK_BIN, other);
    let a = pack::chunk(pack::CHUNK_JSON, first);
    let b = pack::chunk(pack::CHUNK_BIN, other);
    four_bytes_stand_for(12 + body.len() as int);
    laid_out(
        pack::little_endian(pack::GLB_MAGIC as int),
        pack::little_endian(pack::GLB_VERSION as int),
        pack::little_endian(12 + body.len() as int),
        body,
    );
    let file = pack::glb(json, bin);
    let second = 20 + room(json.len()) as int;
    assert forall|i: int| 0 <= i < a.len() implies file[12 + i] == #[trigger] a[i] by {
        assert(body[i] == a[i]);
    }
    assert(file[12] == a[0] && file[13] == a[1] && file[14] == a[2] && file[15] == a[3]);
    assert forall|i: int| 0 <= i < 4 implies file[16 + i] == #[trigger] a.subrange(4, 8)[i] by {
        assert(file[12 + (4 + i)] == a[4 + i]);
    }
    assert(file.subrange(16, 20) =~= a.subrange(4, 8));
    assert forall|i: int| 0 <= i < first.len() implies file[20 + i] == #[trigger] first[i] by {
        assert(file[12 + (8 + i)] == a[8 + i]);
    }
    assert(file.subrange(20, 20 + json.len() as int) =~= json) by {
        assert forall|i: int| 0 <= i < json.len() implies file[20 + i] == #[trigger] json[i] by {
            assert(first[i] == json[i]);
        }
    }
    assert forall|i: int| 20 + json.len() <= i < second implies #[trigger] file[i] == 32 by {
        assert(first[i - 20] == 32);
    }
    if bin.len() > 0 {
        assert forall|i: int| 0 <= i < b.len() implies file[second + i] == #[trigger] b[i] by {
            assert(body[a.len() + i] == b[i]);
        }
        assert(file[second] == b[0] && file[second + 1] == b[1] && file[second + 2] == b[2]
            && file[second + 3] == b[3]);
        assert forall|i: int| 0 <= i < 4 implies file[second + 4 + i] == #[trigger] b.subrange(4, 8)[i] by {
            assert(file[second + (4 + i)] == b[4 + i]);
        }
        assert(file.subrange(second + 4, second + 8) =~= b.subrange(4, 8));
        assert forall|i: int| 0 <= i < other.len() implies file[second + 8 + i] == #[trigger] other[i] by {
            assert(file[second + (8 + i)] == b[8 + i]);
        }
        assert(file.subrange(second + 8, second + 8 + bin.len()) =~= bin) by {
            assert forall|i: int| 0 <= i < bin.len() implies file[second + 8 + i] == #[trigger] bin[i] by {
                assert(other[i] == bin[i]);
            }
        }
        assert forall|i: int| second + 8 + bin.len() <= i < file.len() implies #[trigger] file[i] == 0 by {
            assert(other[i - second - 8] == 0);
        }
    }
}

} // verus!
