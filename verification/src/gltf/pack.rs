//! Packing.
use serde_json::Value;
use vstd::prelude::*;
use crate::gltf::codec;
use crate::gltf::codec::{
    decode_data_uri, mime_from_ext, percent_decode, sniff_image_mime, to_lower,
};
use crate::gltf::tree;
use crate::sorting;
use crate::sorting::join_texts;
use crate::text;

verus! {

/// The first four bytes of a binary glTF file, as a little-endian number.
pub const GLB_MAGIC: u32 = 0x4654_6C67;

/// The version of the binary format.
pub const GLB_VERSION: u32 = 2;

/// The type of the chunk that holds the document.
pub const CHUNK_JSON: u32 = 0x4E4F_534A;

/// The type of the chunk that holds the data.
pub const CHUNK_BIN: u32 = 0x004E_4942;

/// Why a document cannot be packed.
#[derive(Debug, Clone, PartialEq, Eq)]
pub enum GltfPackError {
    /// The bytes are no glTF document that can be packed.
    Invalid(String),
    /// References that cannot be brought into the file, each with the reason.
    Unresolved(Vec<String>),
}

/// What an error of packing holds.
pub enum PackFailure {
    Invalid(Seq<char>),
    Unresolved(Seq<Seq<char>>),
}

impl View for GltfPackError {
    type V = PackFailure;

    open spec fn view(&self) -> PackFailure {
        match self {
            GltfPackError::Invalid(words) => PackFailure::Invalid(words@),
            GltfPackError::Unresolved(list) => PackFailure::Unresolved(
                sorting::text_views(list@),
            ),
        }
    }
}

impl GltfPackError {
    /// The error in words.
    pub fn message(&self) -> (r: String)
        ensures
            r@ == match self@ {
                PackFailure::Invalid(words) => "not a packable .gltf document: "@ + words,
                PackFailure::Unresolved(list) =>
                    "cannot pack into a self-contained GLB; unresolved external references: "@
                    + sorting::joined(list, "; "@, list.len()),
            },
    {
        match self {
            GltfPackError::Invalid(words) => {
                let mut out: String = "not a packable .gltf document: ".to_owned();
                out.append(words.as_str());
                out
            },
            GltfPackError::Unresolved(list) => {
                let mut out: String =
                    "cannot pack into a self-contained GLB; unresolved external references: ".to_owned();
                assert(sorting::text_views(list@).len() == list@.len());
                out.append(join_texts(list, "; ").as_str());
                out
            },
        }
    }
}

// The container.

/// The four bytes of a number, the lowest first.
#[verifier::opaque]
pub open spec fn little_endian(n: int) -> Seq<u8> {
    seq![
        (n % 256) as u8,
        (n / 256 % 256) as u8,
        (n / 65536 % 256) as u8,
        (n / 16777216 % 256) as u8,
    ]
}

proof fn little_endian_has_four(n: int)
    ensures
        little_endian(n).len() == 4,
{
    reveal(little_endian);
}

fn push_u32(out: &mut Vec<u8>, n: u32)
    ensures
        final(out)@ == old(out)@ + little_endian(n as int),
{
    let ghost before = out@;
    reveal(little_endian);
    out.push((n % 256) as u8);
    out.push((n / 256 % 256) as u8);
    out.push((n / 65536 % 256) as u8);
    out.push((n / 16777216 % 256) as u8);
    assert(out@ =~= before + little_endian(n as int));
}

/// Whether bytes start as every binary glTF file does.
pub fn is_glb_bytes(bytes: &[u8]) -> (r: bool)
    ensures
        r == codec::bytes_start_with(bytes@, little_endian(GLB_MAGIC as int)),
{
    let mut magic: Vec<u8> = Vec::new();
    push_u32(&mut magic, GLB_MAGIC);
    assert(magic@ =~= little_endian(GLB_MAGIC as int));
    codec::has_magic(bytes, magic.as_slice())
}

/// Bytes filled up to a multiple of four.
pub open spec fn filled(bytes: Seq<u8>, filler: u8) -> Seq<u8> {
    bytes + Seq::new(((4 - bytes.len() % 4) % 4) as nat, |i: int| filler)
}

/// Fills bytes up to a multiple of four.
fn fill(bytes: &mut Vec<u8>, filler: u8)
    ensures
        final(bytes)@ == filled(old(bytes)@, filler),
{
    let ghost start = bytes@;
    let ghost missing = (4 - start.len() % 4) % 4;
    assert(bytes@ =~= start + Seq::new(0, |i: int| filler));
    while bytes.len() % 4 != 0
        invariant
            missing == (4 - start.len() % 4) % 4,
            start.len() <= bytes@.len() <= start.len() + missing,
            bytes@ == start + Seq::new((bytes@.len() - start.len()) as nat, |i: int| filler),
        decreases start.len() + missing - bytes@.len(),
    {
        let ghost had = bytes@;
        bytes.push(filler);
        assert(bytes@ =~= start + Seq::new((bytes@.len() - start.len()) as nat, |i: int| filler));
    }
    assert(bytes@.len() == start.len() + missing);
}

/// The bytes of a chunk: its length, its type and its content.
pub open spec fn chunk(kind: u32, content: Seq<u8>) -> Seq<u8> {
    little_endian(content.len() as int) + little_endian(kind as int) + content
}

/// The chunks of a file: the document filled with spaces, and the data filled with zeros where there
/// is any.
pub open spec fn chunks(json: Seq<u8>, bin: Seq<u8>) -> Seq<u8> {
    if bin.len() == 0 {
        chunk(CHUNK_JSON, filled(json, 32))
    } else {
        chunk(CHUNK_JSON, filled(json, 32)) + chunk(CHUNK_BIN, filled(bin, 0))
    }
}

/// A binary glTF file: the magic number, the version, the length of the whole file and the chunks.
pub open spec fn glb(json: Seq<u8>, bin: Seq<u8>) -> Seq<u8> {
    little_endian(GLB_MAGIC as int) + little_endian(GLB_VERSION as int) + little_endian(
        12 + chunks(json, bin).len() as int,
    ) + chunks(json, bin)
}

/// The size that a file has at most.
pub open spec fn worst_size(json: nat, bin: nat) -> nat {
    12 + 8 + json + 3 + 8 + bin + 3
}

fn push_chunk(out: &mut Vec<u8>, kind: u32, content: Vec<u8>)
    requires
        content@.len() <= u32::MAX,
    ensures
        final(out)@ == old(out)@ + chunk(kind, content@),
{
    let ghost before = out@;
    let ghost held = content@;
    let mut content = content;
    push_u32(out, content.len() as u32);
    push_u32(out, kind);
    out.append(&mut content);
    assert(out@ =~= before + chunk(kind, held));
}

/// A binary glTF file.
pub fn assemble_glb(json: Vec<u8>, bin: Vec<u8>) -> (r: Vec<u8>)
    requires
        worst_size(json@.len(), bin@.len()) <= u32::MAX,
    ensures
        r@ == glb(json@, bin@),
{
    let ghost document = json@;
    let ghost data = bin@;
    let mut json = json;
    let mut bin = bin;
    fill(&mut json, 32);
    let mut body: Vec<u8> = Vec::new();
    push_chunk(&mut body, CHUNK_JSON, json);
    if bin.len() > 0 {
        fill(&mut bin, 0);
        push_chunk(&mut body, CHUNK_BIN, bin);
    }
    assert(body@ =~= chunks(document, data));
    proof {
        little_endian_has_four(CHUNK_JSON as int);
        little_endian_has_four(CHUNK_BIN as int);
        little_endian_has_four(filled(document, 32).len() as int);
        little_endian_has_four(filled(data, 0).len() as int);
    }
    let mut out: Vec<u8> = Vec::new();
    push_u32(&mut out, GLB_MAGIC);
    push_u32(&mut out, GLB_VERSION);
    push_u32(&mut out, 12 + body.len() as u32);
    out.append(&mut body);
    assert(out@ =~= glb(document, data));
    out
}

proof fn header_parts(a: Seq<u8>, b: Seq<u8>, c: Seq<u8>, d: Seq<u8>)
    requires
        a.len() == 4,
        b.len() == 4,
        c.len() == 4,
    ensures
        (a + b + c + d).len() == 12 + d.len(),
        codec::bytes_start_with(a + b + c + d, a),
        (a + b + c + d).subrange(8, 12) == c,
{
    assert((a + b + c + d).take(4) =~= a);
    assert((a + b + c + d).subrange(8, 12) =~= c);
}

proof fn filled_is_whole(bytes: Seq<u8>, filler: u8)
    ensures
        filled(bytes, filler).len() % 4 == 0,
        filled(bytes, filler).len() <= bytes.len() + 3,
{
}

/// A binary glTF file starts with the magic number, names its own length, and its chunks fill it in
/// multiples of four bytes.
pub proof fn glb_names_its_length(json: Seq<u8>, bin: Seq<u8>)
    requires
        worst_size(json.len(), bin.len()) <= u32::MAX,
    ensures
        codec::bytes_start_with(glb(json, bin), little_endian(GLB_MAGIC as int)),
        glb(json, bin).subrange(8, 12) == little_endian(glb(json, bin).len() as int),
        glb(json, bin).len() % 4 == 0,
        glb(json, bin).len() <= worst_size(json.len(), bin.len()),
{
    let body = chunks(json, bin);
    little_endian_has_four(GLB_MAGIC as int);
    little_endian_has_four(GLB_VERSION as int);
    little_endian_has_four(12 + body.len() as int);
    little_endian_has_four(CHUNK_JSON as int);
    little_endian_has_four(CHUNK_BIN as int);
    little_endian_has_four(filled(json, 32).len() as int);
    little_endian_has_four(filled(bin, 0).len() as int);
    header_parts(
        little_endian(GLB_MAGIC as int),
        little_endian(GLB_VERSION as int),
        little_endian(12 + body.len() as int),
        body,
    );
    filled_is_whole(json, 32);
    filled_is_whole(bin, 0);
}

// References.

/// Why a reference that is no data address is missing.
pub open spec fn why_missing(uri: Seq<char>) -> Seq<char> {
    let low = codec::lowered(uri);
    if text::starts_with(low, "http://"@) || text::starts_with(low, "https://"@) {
        "remote uris are not fetched by the packer"@
    } else {
        "companion file not found"@
    }
}

fn why_unresolved(uri: &str) -> (r: &'static str)
    ensures
        r@ == why_missing(uri@),
{
    let low = to_lower(uri);
    if text::has_prefix(low.as_str(), "http://") || text::has_prefix(low.as_str(), "https://") {
        "remote uris are not fetched by the packer"
    } else {
        "companion file not found"
    }
}

/// The name of a buffer, a view or an image in messages.
pub open spec fn numbered(kind: Seq<char>, i: int) -> Seq<char> {
    kind + " "@ + text::decimal(i as nat)
}

fn numbered_text(kind: &str, i: usize) -> (r: String)
    ensures
        r@ == numbered(kind@, i as int),
{
    let mut out: String = kind.to_owned();
    out.append(" ");
    out.append(text::decimal_text(i as u64).as_str());
    out
}

fn invalid(start: &str, rest: &str) -> (r: GltfPackError)
    ensures
        r@ == PackFailure::Invalid(start@ + rest@),
{
    let mut out: String = start.to_owned();
    out.append(rest);
    GltfPackError::Invalid(out)
}

/// The message for a reference that is missing.
pub open spec fn missing_words(kind: Seq<char>, i: int, uri: Seq<char>, why: Seq<char>) -> Seq<char> {
    numbered(kind, i) + ": "@ + text::debug_chars(uri) + " ("@ + why + ")"@
}

fn missing_text(kind: &str, i: usize, uri: &str, why: &str) -> (r: String)
    ensures
        r@ == missing_words(kind@, i as int, uri@, why@),
{
    let mut out: String = numbered_text(kind, i);
    out.append(": ");
    out.append(text::debug_text(uri).as_str());
    out.append(" (");
    out.append(why);
    out.append(")");
    out
}

/// What a lookup of companion files may answer: the bytes of a file, or nothing.
pub type Answer = Option<Seq<u8>>;

/// What an optional list of bytes holds.
pub open spec fn answer_view(bytes: Option<Vec<u8>>) -> Answer {
    match bytes {
        Some(b) => Some(b@),
        None => None,
    }
}

/// Whether a lookup may answer so to the name of a companion file.
pub open spec fn answers<F: FnMut(&str) -> Option<Vec<u8>>>(
    f: F,
    name: Seq<char>,
    answer: Answer,
) -> bool {
    exists|p: (&'static str, Option<Vec<u8>>)|
        p.0@ == name && answer_view(p.1) == answer && #[trigger] call_ensures(f, (p.0,), p.1)
}

/// Whether a lookup answered so to the first of these names, asked for in turn.
pub open spec fn consulted<F: FnMut(&str) -> Option<Vec<u8>>>(
    f: F,
    names: Seq<Seq<char>>,
    answers: Seq<Answer>,
) -> bool {
    answers.len() <= names.len() && forall|i: int|
        #![trigger answers[i]]
        0 <= i < answers.len() ==> self::answers(f, names[i], answers[i])
}

fn look_up<F: FnMut(&str) -> Option<Vec<u8>>>(resolve: &mut F, name: &str) -> (r: Option<Vec<u8>>)
    requires
        forall|s: &'static str| #[trigger] call_requires(*old(resolve), (s,)),
    ensures
        *final(resolve) == *old(resolve),
        answers(*old(resolve), name@, answer_view(r)),
{
    let ghost f = *resolve;
    assert(call_requires(f, (name,)));
    let r = resolve(name);
    proof {
        let p = (name, r);
        assert(p.0@ == name@ && answer_view(p.1) == answer_view(r) && call_ensures(
            f,
            (p.0,),
            p.1,
        ));
    }
    r
}

// Buffers.

/// The length and the address of a buffer.
pub open spec fn buffer_head(b: tree::JsonTree, i: int) -> Result<(nat, Seq<char>), Seq<char>> {
    match tree::natural_field(b, "byteLength"@) {
        None => Err(numbered("buffer"@, i) + " has no byteLength"@),
        Some(declared) => match tree::text_field(b, "uri"@) {
            None => Err(
                numbered("buffer"@, i)
                    + " has no uri (a uri-less buffer is only valid inside a GLB, not a .gltf)"@,
            ),
            Some(uri) => Ok((declared, uri)),
        },
    }
}

/// The companion file that a buffer asks for.
pub open spec fn buffer_ask(b: tree::JsonTree, i: int) -> Seq<Seq<char>> {
    match buffer_head(b, i) {
        Ok((_, uri)) => if codec::is_data_uri(uri) {
            Seq::empty()
        } else {
            seq![codec::percent_decoded(uri)]
        },
        Err(_) => Seq::empty(),
    }
}

/// The companion files that the first `n` buffers ask for.
pub open spec fn buffer_asks(list: Seq<tree::JsonTree>, n: nat) -> Seq<Seq<char>>
    decreases n,
{
    if n == 0 || n > list.len() {
        Seq::empty()
    } else {
        buffer_asks(list, (n - 1) as nat) + buffer_ask(list[n - 1], n - 1)
    }
}

/// The buffers read so far, and the references that are missing.
pub struct Buffers {
    pub datas: Seq<Seq<u8>>,
    pub missing: Seq<Seq<char>>,
}

/// The buffers once one more has been read: cut to its length, or empty where its file is missing.
pub open spec fn buffer_read(b: tree::JsonTree, i: int, answer: Answer, before: Buffers) -> Result<
    Buffers,
    Seq<char>,
> {
    match buffer_head(b, i) {
        Err(words) => Err(words),
        Ok((declared, uri)) => {
            let data = if codec::is_data_uri(uri) {
                match codec::data_uri_decoded(uri) {
                    Ok((_, bytes)) => Ok(Some(bytes)),
                    Err(words) => Err(numbered("buffer"@, i) + ": "@ + words),
                }
            } else {
                Ok(answer)
            };
            match data {
                Err(words) => Err(words),
                Ok(None) => Ok(
                    Buffers {
                        datas: before.datas.push(Seq::empty()),
                        missing: before.missing.push(
                            missing_words("buffer"@, i, uri, why_missing(uri)),
                        ),
                    },
                ),
                Ok(Some(bytes)) => if bytes.len() < declared {
                    Err(
                        numbered("buffer"@, i) + " ("@ + text::debug_chars(uri) + "): resolved "@
                            + text::decimal(bytes.len()) + " bytes but byteLength declares "@
                            + text::decimal(declared),
                    )
                } else {
                    Ok(
                        Buffers {
                            datas: before.datas.push(bytes.take(declared as int)),
                            missing: before.missing,
                        },
                    )
                },
            }
        },
    }
}

/// The first `n` buffers, with what the lookup answered to the names that they ask for.
pub open spec fn buffers_read(list: Seq<tree::JsonTree>, n: nat, answers: Seq<Answer>) -> Result<
    Buffers,
    Seq<char>,
>
    decreases n,
{
    if n == 0 || n > list.len() {
        Ok(Buffers { datas: Seq::empty(), missing: Seq::empty() })
    } else {
        match buffers_read(list, (n - 1) as nat, answers) {
            Err(words) => Err(words),
            Ok(before) => buffer_read(
                list[n - 1],
                n - 1,
                answers[buffer_asks(list, (n - 1) as nat).len() as int],
                before,
            ),
        }
    }
}

/// How many names the lookup is asked for while the first `n` buffers are read: those of the buffers up
/// to the first that cannot be read, that one among them.
pub open spec fn buffers_asked(list: Seq<tree::JsonTree>, n: nat, answers: Seq<Answer>) -> nat
    decreases n,
{
    if n == 0 || n > list.len() {
        0
    } else if buffers_read(list, (n - 1) as nat, answers) is Err {
        buffers_asked(list, (n - 1) as nat, answers)
    } else {
        buffer_asks(list, n).len()
    }
}

proof fn buffers_read_is_local(
    list: Seq<tree::JsonTree>,
    n: nat,
    a: Seq<Answer>,
    b: Seq<Answer>,
)
    requires
        n <= list.len(),
        buffer_asks(list, n).len() <= a.len() <= b.len(),
        forall|i: int| 0 <= i < a.len() ==> b[i] == a[i],
    ensures
        buffers_read(list, n, a) == buffers_read(list, n, b),
    decreases n,
{
    if n > 0 {
        buffers_read_is_local(list, (n - 1) as nat, a, b);
        let at = buffer_asks(list, (n - 1) as nat).len();
        if buffer_ask(list[n - 1], n - 1).len() > 0 {
            assert(a[at as int] == b[at as int]);
        }
    }
}

proof fn buffers_failure_stays(list: Seq<tree::JsonTree>, m: nat, n: nat, answers: Seq<Answer>)
    requires
        m <= n <= list.len(),
        buffers_read(list, m, answers) is Err,
    ensures
        buffers_read(list, n, answers) == buffers_read(list, m, answers),
        buffers_asked(list, n, answers) == buffers_asked(list, m, answers),
    decreases n,
{
    if m < n {
        buffers_failure_stays(list, m, (n - 1) as nat, answers);
    }
}

proof fn buffer_asks_grow(list: Seq<tree::JsonTree>, m: nat, n: nat)
    requires
        m <= n <= list.len(),
    ensures
        buffer_asks(list, m).len() <= buffer_asks(list, n).len(),
        buffer_asks(list, n).take(buffer_asks(list, m).len() as int) =~= buffer_asks(list, m),
    decreases n,
{
    if m < n {
        buffer_asks_grow(list, m, (n - 1) as nat);
        let inner = buffer_asks(list, (n - 1) as nat);
        let k = buffer_asks(list, m).len() as int;
        assert(buffer_asks(list, n).take(k) =~= inner.take(k));
    }
}

/// What a list of byte lists holds.
pub open spec fn byte_views(list: Seq<Vec<u8>>) -> Seq<Seq<u8>> {
    list.map_values(|v: Vec<u8>| v@)
}

/// Reads the buffers of a document. What the lookup answered is handed out as a ghost.
fn resolve_buffers<F: FnMut(&str) -> Option<Vec<u8>>>(
    list: &Vec<Value>,
    resolve: &mut F,
    missing: &mut Vec<String>,
) -> (r: (Result<Vec<Vec<u8>>, GltfPackError>, Ghost<Seq<Answer>>))
    requires
        forall|s: &'static str| #[trigger] call_requires(*old(resolve), (s,)),
        old(missing)@.len() == 0,
    ensures
        *final(resolve) == *old(resolve),
        consulted(
            *old(resolve),
            buffer_asks(tree::trees_in(list@), list@.len()),
            r.1@,
        ),
        r.1@.len() == buffers_asked(tree::trees_in(list@), list@.len(), r.1@),
        match buffers_read(tree::trees_in(list@), list@.len(), r.1@) {
            Ok(read) => r.0 matches Ok(datas) && byte_views(datas@) == read.datas
                && sorting::text_views(final(missing)@) == read.missing,
            Err(words) => r.0 matches Err(e) && e@ == PackFailure::Invalid(words),
        },
{
    let ghost trees = tree::trees_in(list@);
    let ghost f = *resolve;
    let ghost mut given: Seq<Answer> = Seq::empty();
    let mut out: Vec<Vec<u8>> = Vec::new();
    let n: usize = list.len();
    let mut i: usize = 0;
    assert(byte_views(out@) =~= Seq::empty());
    assert(sorting::text_views(missing@) =~= Seq::empty());
    while i < n
        invariant
            i <= n == list@.len(),
            trees == tree::trees_in(list@),
            *resolve == f,
            f == *old(resolve),
            forall|s: &'static str| #[trigger] call_requires(f, (s,)),
            given.len() == buffer_asks(trees, i as nat).len(),
            consulted(f, buffer_asks(trees, i as nat), given),
            buffers_read(trees, i as nat, given) == Ok::<Buffers, Seq<char>>(
                Buffers { datas: byte_views(out@), missing: sorting::text_views(missing@) },
            ),
        decreases n - i,
    {
        let b = &list[i];
        let ghost t = trees[i as int];
        let ghost before = Buffers {
            datas: byte_views(out@),
            missing: sorting::text_views(missing@),
        };
        let ghost asked = buffer_asks(trees, i as nat);
        proof {
            assert(tree::tree_in(*b) == t);
            buffer_asks_grow(trees, (i + 1) as nat, n as nat);
            buffer_asks_grow(trees, i as nat, n as nat);
            consulted_more(f, asked, buffer_asks(trees, n as nat), given);
        }
        let start = numbered_text("buffer", i);
        let declared: u64 = match tree::get(b, "byteLength") {
            Some(v) => match tree::as_natural(v) {
                Some(declared) => declared,
                None => {
                    proof {
                        buffers_failure_stays(trees, (i + 1) as nat, n as nat, given);
                    }
                    return (Err(invalid(start.as_str(), " has no byteLength")), Ghost(given));
                },
            },
            None => {
                proof {
                    buffers_failure_stays(trees, (i + 1) as nat, n as nat, given);
                }
                return (Err(invalid(start.as_str(), " has no byteLength")), Ghost(given));
            },
        };
        let uri: &str = match text_under(b, "uri") {
            Some(uri) => uri,
            None => {
                proof {
                    buffers_failure_stays(trees, (i + 1) as nat, n as nat, given);
                }
                return (
                    Err(
                        invalid(
                            start.as_str(),
                            " has no uri (a uri-less buffer is only valid inside a GLB, not a .gltf)",
                        ),
                    ),
                    Ghost(given),
                );
            },
        };
        assert(buffer_head(t, i as int) == Ok::<(nat, Seq<char>), Seq<char>>((declared as nat, uri@)));
        let data: Option<Vec<u8>> = if text::has_prefix(uri, "data:") {
            match decode_data_uri(uri) {
                Ok((_, bytes)) => Some(bytes),
                Err(words) => {
                    let mut message: String = start;
                    message.append(": ");
                    message.append(words.as_str());
                    proof {
                        buffers_failure_stays(trees, (i + 1) as nat, n as nat, given);
                    }
                    return (Err(GltfPackError::Invalid(message)), Ghost(given));
                },
            }
        } else {
            let name = percent_decode(uri);
            let answer = look_up(resolve, name.as_str());
            proof {
                let had = given;
                given = given.push(answer_view(answer));
                buffers_read_is_local(trees, i as nat, had, given);
                consulted_next(f, asked, had, name@, answer_view(answer));
                assert(buffer_asks(trees, (i + 1) as nat) =~= asked.push(name@));
                consulted_more(
                    f,
                    buffer_asks(trees, (i + 1) as nat),
                    buffer_asks(trees, n as nat),
                    given,
                );
            }
            answer
        };
        assert(buffers_read(trees, i as nat, given) == Ok::<Buffers, Seq<char>>(before));
        match data {
            None => {
                let words = missing_text("buffer", i, uri, why_unresolved(uri));
                let ghost had_missing = missing@;
                let ghost had_out = out@;
                let ghost shown = words@;
                missing.push(words);
                let empty: Vec<u8> = Vec::new();
                out.push(empty);
                proof {
                    assert(sorting::text_views(missing@) =~= sorting::text_views(had_missing).push(
                        shown,
                    ));
                    assert(empty@ =~= Seq::empty());
                    assert(byte_views(out@) =~= byte_views(had_out).push(Seq::empty()));
                }
            },
            Some(bytes) => {
                if (bytes.len() as u64) < declared {
                    let mut message: String = start;
                    message.append(" (");
                    message.append(text::debug_text(uri).as_str());
                    message.append("): resolved ");
                    message.append(text::decimal_text(bytes.len() as u64).as_str());
                    message.append(" bytes but byteLength declares ");
                    message.append(text::decimal_text(declared).as_str());
                    proof {
                        buffers_failure_stays(trees, (i + 1) as nat, n as nat, given);
                    }
                    return (Err(GltfPackError::Invalid(message)), Ghost(given));
                }
                let mut bytes = bytes;
                let ghost whole = bytes@;
                bytes.truncate(declared as usize);
                let ghost had_out = out@;
                let ghost cut = bytes@;
                out.push(bytes);
                proof {
                    assert(cut =~= whole.take(declared as int));
                    assert(byte_views(out@) =~= byte_views(had_out).push(cut));
                }
            },
        }
        i += 1;
    }
    (Ok(out), Ghost(given))
}

/// What the lookup answered to the first names it answered to the first of more names too.
proof fn consulted_more<F: FnMut(&str) -> Option<Vec<u8>>>(
    f: F,
    names: Seq<Seq<char>>,
    more: Seq<Seq<char>>,
    given: Seq<Answer>,
)
    requires
        consulted(f, names, given),
        names.len() <= more.len(),
        more.take(names.len() as int) =~= names,
    ensures
        consulted(f, more, given),
{
    assert forall|i: int| #![trigger given[i]] 0 <= i < given.len() implies answers(
        f,
        more[i],
        given[i],
    ) by {
        assert(more.take(names.len() as int)[i] == names[i]);
    }
}

proof fn consulted_next<F: FnMut(&str) -> Option<Vec<u8>>>(
    f: F,
    names: Seq<Seq<char>>,
    given: Seq<Answer>,
    name: Seq<char>,
    answer: Answer,
)
    requires
        consulted(f, names, given),
        given.len() == names.len(),
        answers(f, name, answer),
    ensures
        consulted(f, names.push(name), given.push(answer)),
{
    let all = given.push(answer);
    assert forall|i: int| #![trigger all[i]] 0 <= i < all.len() implies answers(
        f,
        names.push(name)[i],
        all[i],
    ) by {
        if i < given.len() {
            assert(all[i] == given[i]);
        }
    }
}

/// The text under a key of a value.
fn text_under<'a>(value: &'a Value, key: &str) -> (r: Option<&'a str>)
    ensures
        match tree::text_field(tree::tree_in(*value), key@) {
            Some(text) => r matches Some(s) && s@ == text,
            None => r is None,
        },
{
    match tree::get(value, key) {
        Some(v) => tree::as_text(v),
        None => None,
    }
}

// Images.

/// The companion file that an image asks for.
pub open spec fn image_ask(img: tree::JsonTree) -> Seq<Seq<char>> {
    match tree::text_field(img, "uri"@) {
        Some(uri) => if codec::is_data_uri(uri) {
            Seq::empty()
        } else {
            seq![codec::percent_decoded(uri)]
        },
        None => Seq::empty(),
    }
}

/// The companion files that the first `n` images ask for.
pub open spec fn image_asks(list: Seq<tree::JsonTree>, n: nat) -> Seq<Seq<char>>
    decreases n,
{
    if n == 0 || n > list.len() {
        Seq::empty()
    } else {
        image_asks(list, (n - 1) as nat) + image_ask(list[n - 1])
    }
}

/// An image to be brought into the file: its bytes and its type.
pub struct InlineView {
    pub bytes: Seq<u8>,
    pub mime: Seq<char>,
}

/// The images read so far, and the references that are missing.
pub struct Images {
    pub images: Seq<Option<InlineView>>,
    pub missing: Seq<Seq<char>>,
}

/// The type of an image from a companion file: the one it declares, or the one its address names, or
/// the one its bytes show.
pub open spec fn image_mime(declared: Option<Seq<char>>, uri: Seq<char>, bytes: Seq<u8>) -> Option<
    Seq<char>,
> {
    match declared {
        Some(mime) => Some(mime),
        None => match codec::named_mime(uri) {
            Some(mime) => Some(mime),
            None => codec::sniffed_mime(bytes),
        },
    }
}

/// Why the type of an image is unknown.
pub open spec fn unknown_mime() -> Seq<char> {
    "cannot determine its mime type; only PNG/JPEG external images are inlined; add a mimeType or convert the texture"@
}

/// The images once one more has been read. An image without an address is in the file already.
pub open spec fn image_read(img: tree::JsonTree, i: int, answer: Answer, before: Images) -> Result<
    Images,
    Seq<char>,
> {
    let declared = tree::text_field(img, "mimeType"@);
    match tree::text_field(img, "uri"@) {
        None => Ok(Images { images: before.images.push(None), ..before }),
        Some(uri) => if codec::is_data_uri(uri) {
            match codec::data_uri_decoded(uri) {
                Err(words) => Err(numbered("image"@, i) + ": "@ + words),
                Ok((named, bytes)) => Ok(
                    Images {
                        images: before.images.push(
                            Some(
                                InlineView {
                                    bytes,
                                    mime: match declared {
                                        Some(mime) => mime,
                                        None => named,
                                    },
                                },
                            ),
                        ),
                        ..before
                    },
                ),
            }
        } else {
            match answer {
                None => Ok(
                    Images {
                        images: before.images.push(None),
                        missing: before.missing.push(
                            missing_words("image"@, i, uri, why_missing(uri)),
                        ),
                    },
                ),
                Some(bytes) => match image_mime(declared, uri, bytes) {
                    None => Ok(
                        Images {
                            images: before.images.push(None),
                            missing: before.missing.push(
                                missing_words("image"@, i, uri, unknown_mime()),
                            ),
                        },
                    ),
                    Some(mime) => Ok(
                        Images {
                            images: before.images.push(Some(InlineView { bytes, mime })),
                            ..before
                        },
                    ),
                },
            }
        },
    }
}

/// The first `n` images, with what the lookup answered to the names that they ask for.
pub open spec fn images_read(
    list: Seq<tree::JsonTree>,
    n: nat,
    answers: Seq<Answer>,
    missing: Seq<Seq<char>>,
) -> Result<Images, Seq<char>>
    decreases n,
{
    if n == 0 || n > list.len() {
        Ok(Images { images: Seq::empty(), missing })
    } else {
        match images_read(list, (n - 1) as nat, answers, missing) {
            Err(words) => Err(words),
            Ok(before) => image_read(
                list[n - 1],
                n - 1,
                answers[image_asks(list, (n - 1) as nat).len() as int],
                before,
            ),
        }
    }
}

/// How many names the lookup is asked for while the first `n` images are read: those of the images up
/// to the first that cannot be read.
pub open spec fn images_asked(
    list: Seq<tree::JsonTree>,
    n: nat,
    answers: Seq<Answer>,
    missing: Seq<Seq<char>>,
) -> nat
    decreases n,
{
    if n == 0 || n > list.len() {
        0
    } else if images_read(list, (n - 1) as nat, answers, missing) is Err {
        images_asked(list, (n - 1) as nat, answers, missing)
    } else {
        image_asks(list, n).len()
    }
}

proof fn images_read_is_local(
    list: Seq<tree::JsonTree>,
    n: nat,
    a: Seq<Answer>,
    b: Seq<Answer>,
    missing: Seq<Seq<char>>,
)
    requires
        n <= list.len(),
        image_asks(list, n).len() <= a.len() <= b.len(),
        forall|i: int| 0 <= i < a.len() ==> b[i] == a[i],
    ensures
        images_read(list, n, a, missing) == images_read(list, n, b, missing),
    decreases n,
{
    if n > 0 {
        images_read_is_local(list, (n - 1) as nat, a, b, missing);
        let at = image_asks(list, (n - 1) as nat).len();
        if image_ask(list[n - 1]).len() > 0 {
            assert(a[at as int] == b[at as int]);
        }
    }
}

proof fn images_failure_stays(
    list: Seq<tree::JsonTree>,
    m: nat,
    n: nat,
    answers: Seq<Answer>,
    missing: Seq<Seq<char>>,
)
    requires
        m <= n <= list.len(),
        images_read(list, m, answers, missing) is Err,
    ensures
        images_read(list, n, answers, missing) == images_read(list, m, answers, missing),
        images_asked(list, n, answers, missing) == images_asked(list, m, answers, missing),
    decreases n,
{
    if m < n {
        images_failure_stays(list, m, (n - 1) as nat, answers, missing);
    }
}

proof fn image_asks_grow(list: Seq<tree::JsonTree>, m: nat, n: nat)
    requires
        m <= n <= list.len(),
    ensures
        image_asks(list, m).len() <= image_asks(list, n).len(),
        image_asks(list, n).take(image_asks(list, m).len() as int) =~= image_asks(list, m),
    decreases n,
{
    if m < n {
        image_asks_grow(list, m, (n - 1) as nat);
        let inner = image_asks(list, (n - 1) as nat);
        let k = image_asks(list, m).len() as int;
        assert(image_asks(list, n).take(k) =~= inner.take(k));
    }
}

/// An image to be brought into the file: its bytes and its type.
#[derive(Debug)]
pub struct InlineImage {
    bytes: Vec<u8>,
    mime: String,
}

impl View for InlineImage {
    type V = InlineView;

    closed spec fn view(&self) -> InlineView {
        InlineView { bytes: self.bytes@, mime: self.mime@ }
    }
}

/// What an optional image holds.
pub open spec fn inline_view(image: Option<InlineImage>) -> Option<InlineView> {
    match image {
        Some(i) => Some(i@),
        None => None,
    }
}

/// What a list of optional images holds.
pub open spec fn inline_views(list: Seq<Option<InlineImage>>) -> Seq<Option<InlineView>> {
    list.map_values(|i: Option<InlineImage>| inline_view(i))
}

fn push_image(out: &mut Vec<Option<InlineImage>>, image: Option<InlineImage>)
    ensures
        inline_views(final(out)@) == inline_views(old(out)@).push(inline_view(image)),
{
    let ghost before = out@;
    let ghost view = inline_view(image);
    out.push(image);
    assert(inline_views(out@) =~= inline_views(before).push(view));
}

fn push_missing(missing: &mut Vec<String>, words: String)
    ensures
        sorting::text_views(final(missing)@) == sorting::text_views(old(missing)@).push(words@),
{
    let ghost before = missing@;
    let ghost shown = words@;
    missing.push(words);
    assert(sorting::text_views(missing@) =~= sorting::text_views(before).push(shown));
}

/// The type of an image from a companion file.
fn choose_mime(declared: Option<&str>, uri: &str, bytes: &Vec<u8>) -> (r: Option<String>)
    ensures
        match image_mime(
            match declared {
                Some(s) => Some(s@),
                None => None,
            },
            uri@,
            bytes@,
        ) {
            Some(mime) => r matches Some(s) && s@ == mime,
            None => r is None,
        },
{
    if let Some(mime) = declared {
        return Some(mime.to_owned());
    }
    if let Some(mime) = mime_from_ext(uri) {
        return Some(mime.to_owned());
    }
    match sniff_image_mime(bytes.as_slice()) {
        Some(mime) => Some(mime.to_owned()),
        None => None,
    }
}

/// Reads the images of a document. What the lookup answered is handed out as a ghost.
fn resolve_images<F: FnMut(&str) -> Option<Vec<u8>>>(
    list: &Vec<Value>,
    resolve: &mut F,
    missing: &mut Vec<String>,
) -> (r: (Result<Vec<Option<InlineImage>>, GltfPackError>, Ghost<Seq<Answer>>))
    requires
        forall|s: &'static str| #[trigger] call_requires(*old(resolve), (s,)),
    ensures
        *final(resolve) == *old(resolve),
        consulted(*old(resolve), image_asks(tree::trees_in(list@), list@.len()), r.1@),
        r.1@.len() == images_asked(
            tree::trees_in(list@),
            list@.len(),
            r.1@,
            sorting::text_views(old(missing)@),
        ),
        match images_read(
            tree::trees_in(list@),
            list@.len(),
            r.1@,
            sorting::text_views(old(missing)@),
        ) {
            Ok(read) => r.0 matches Ok(images) && inline_views(images@) == read.images
                && sorting::text_views(final(missing)@) == read.missing,
            Err(words) => r.0 matches Err(e) && e@ == PackFailure::Invalid(words),
        },
{
    let ghost trees = tree::trees_in(list@);
    let ghost f = *resolve;
    let ghost start_missing = sorting::text_views(missing@);
    let ghost mut given: Seq<Answer> = Seq::empty();
    let mut out: Vec<Option<InlineImage>> = Vec::new();
    let n: usize = list.len();
    let mut i: usize = 0;
    assert(inline_views(out@) =~= Seq::empty());
    while i < n
        invariant
            i <= n == list@.len(),
            trees == tree::trees_in(list@),
            *resolve == f,
            f == *old(resolve),
            start_missing == sorting::text_views(old(missing)@),
            forall|s: &'static str| #[trigger] call_requires(f, (s,)),
            given.len() == image_asks(trees, i as nat).len(),
            consulted(f, image_asks(trees, i as nat), given),
            images_read(trees, i as nat, given, start_missing) == Ok::<Images, Seq<char>>(
                Images { images: inline_views(out@), missing: sorting::text_views(missing@) },
            ),
        decreases n - i,
    {
        let img = &list[i];
        let ghost t = trees[i as int];
        let ghost asked = image_asks(trees, i as nat);
        proof {
            assert(tree::tree_in(*img) == t);
            image_asks_grow(trees, (i + 1) as nat, n as nat);
            image_asks_grow(trees, i as nat, n as nat);
            consulted_more(f, asked, image_asks(trees, n as nat), given);
        }
        match text_under(img, "uri") {
            None => {
                push_image(&mut out, None);
            },
            Some(uri) => {
                let declared = text_under(img, "mimeType");
                if text::has_prefix(uri, "data:") {
                    match decode_data_uri(uri) {
                        Err(words) => {
                            let mut message: String = numbered_text("image", i);
                            message.append(": ");
                            message.append(words.as_str());
                            proof {
                                images_failure_stays(
                                    trees,
                                    (i + 1) as nat,
                                    n as nat,
                                    given,
                                    start_missing,
                                );
                            }
                            return (Err(GltfPackError::Invalid(message)), Ghost(given));
                        },
                        Ok((named, bytes)) => {
                            let mime = match declared {
                                Some(mime) => mime.to_owned(),
                                None => named,
                            };
                            push_image(&mut out, Some(InlineImage { bytes, mime }));
                        },
                    }
                } else {
                    let name = percent_decode(uri);
                    let answer = look_up(resolve, name.as_str());
                    proof {
                        let had = given;
                        given = given.push(answer_view(answer));
                        images_read_is_local(trees, i as nat, had, given, start_missing);
                        consulted_next(f, asked, had, name@, answer_view(answer));
                        assert(image_asks(trees, (i + 1) as nat) =~= asked.push(name@));
                    }
                    match answer {
                        None => {
                            push_missing(
                                missing,
                                missing_text("image", i, uri, why_unresolved(uri)),
                            );
                            push_image(&mut out, None);
                        },
                        Some(bytes) => match choose_mime(declared, uri, &bytes) {
                            None => {
                                push_missing(
                                    missing,
                                    missing_text(
                                        "image",
                                        i,
                                        uri,
                                        "cannot determine its mime type; only PNG/JPEG external images are inlined; add a mimeType or convert the texture",
                                    ),
                                );
                                push_image(&mut out, None);
                            },
                            Some(mime) => {
                                push_image(&mut out, Some(InlineImage { bytes, mime }));
                            },
                        },
                    }
                }
            },
        }
        i += 1;
    }
    (Ok(out), Ghost(given))
}

// The data of the file.

/// Data with more bytes at its next multiple of four.
pub open spec fn appended(bin: Seq<u8>, data: Seq<u8>) -> Seq<u8> {
    filled(bin, 0) + data
}

/// Appends bytes at the next multiple of four and gives the place where they stand.
fn append_aligned(bin: &mut Vec<u8>, data: &Vec<u8>) -> (r: usize)
    ensures
        final(bin)@ == appended(old(bin)@, data@),
        r == filled(old(bin)@, 0).len(),
{
    fill(bin, 0);
    let off: usize = bin.len();
    bin.extend_from_slice(data.as_slice());
    off
}

/// The data of the first `n` buffers.
pub open spec fn merged(datas: Seq<Seq<u8>>, n: nat) -> Seq<u8>
    decreases n,
{
    if n == 0 || n > datas.len() {
        Seq::empty()
    } else {
        appended(merged(datas, (n - 1) as nat), datas[n - 1])
    }
}

/// Where the data of a buffer stands.
pub open spec fn offset(datas: Seq<Seq<u8>>, i: int) -> nat {
    filled(merged(datas, i as nat), 0).len()
}

proof fn filled_keeps(bytes: Seq<u8>, filler: u8)
    ensures
        filled(bytes, filler).len() >= bytes.len(),
        filled(bytes, filler).take(bytes.len() as int) =~= bytes,
{
}

proof fn merged_grows(datas: Seq<Seq<u8>>, m: nat, n: nat)
    requires
        m <= n <= datas.len(),
    ensures
        merged(datas, m).len() <= merged(datas, n).len(),
        merged(datas, n).take(merged(datas, m).len() as int) =~= merged(datas, m),
    decreases n,
{
    if m < n {
        let inner = merged(datas, (n - 1) as nat);
        merged_grows(datas, m, (n - 1) as nat);
        filled_keeps(inner, 0);
        let k = merged(datas, m).len() as int;
        assert(merged(datas, n).take(k) =~= filled(inner, 0).take(k));
        assert(filled(inner, 0).take(k) =~= inner.take(k));
    }
}

/// The data of every buffer stands in the merged data at its offset, whole, and at a multiple of four.
pub proof fn merged_holds_each_buffer(datas: Seq<Seq<u8>>, i: int)
    requires
        0 <= i < datas.len(),
    ensures
        offset(datas, i) % 4 == 0,
        offset(datas, i) + datas[i].len() <= merged(datas, datas.len()).len(),
        merged(datas, datas.len()).subrange(
            offset(datas, i) as int,
            offset(datas, i) as int + datas[i].len(),
        ) == datas[i],
{
    let here = merged(datas, (i + 1) as nat);
    let whole = merged(datas, datas.len());
    let at = offset(datas, i) as int;
    merged_grows(datas, (i + 1) as nat, datas.len());
    filled_is_whole(merged(datas, i as nat), 0);
    assert(here =~= filled(merged(datas, i as nat), 0) + datas[i]);
    assert(whole.subrange(at, at + datas[i].len()) =~= whole.take(here.len() as int).subrange(
        at,
        at + datas[i].len(),
    ));
    assert(here.subrange(at, at + datas[i].len()) =~= datas[i]);
}

// Views.

/// A view of a buffer, as a view of the merged data.
pub open spec fn view_rewritten(view: tree::JsonTree, i: int, datas: Seq<Seq<u8>>) -> Result<
    tree::JsonTree,
    Seq<char>,
> {
    let start = numbered("bufferView"@, i);
    if !(view is Obj) {
        Err(start + " is not an object"@)
    } else if tree::field(view, "extensions"@) is Some && tree::field(
        tree::field(view, "extensions"@)->0,
        "EXT_meshopt_compression"@,
    ) is Some {
        Err(
            start
                + " uses EXT_meshopt_compression, whose internal buffer reference the packer cannot rewrite"@,
        )
    } else {
        match tree::natural_field(view, "buffer"@) {
            None => Err(start + " has no buffer index"@),
            Some(b) => if b >= datas.len() {
                Err(
                    start + " references buffer "@ + text::decimal(b) + ", but only "@
                        + text::decimal(datas.len()) + " buffer(s) exist"@,
                )
            } else {
                let inner = match tree::natural_field(view, "byteOffset"@) {
                    Some(n) => n,
                    None => 0,
                };
                Ok(
                    tree::JsonTree::Obj(
                        view->Obj_0.insert("buffer"@, tree::JsonTree::Natural(0)).insert(
                            "byteOffset"@,
                            tree::JsonTree::Natural(shifted(offset(datas, b as int), inner)),
                        ),
                    ),
                )
            },
        }
    }
}

/// The sum of two offsets in 64-bit arithmetic.
pub open spec fn shifted(base: nat, inner: nat) -> nat {
    ((base + inner) % 0x1_0000_0000_0000_0000) as nat
}

/// The first `n` views, as views of the merged data.
pub open spec fn views_rewritten(
    list: Seq<tree::JsonTree>,
    n: nat,
    datas: Seq<Seq<u8>>,
) -> Result<Seq<tree::JsonTree>, Seq<char>>
    decreases n,
{
    if n == 0 || n > list.len() {
        Ok(Seq::empty())
    } else {
        match views_rewritten(list, (n - 1) as nat, datas) {
            Err(words) => Err(words),
            Ok(before) => match view_rewritten(list[n - 1], n - 1, datas) {
                Err(words) => Err(words),
                Ok(view) => Ok(before.push(view)),
            },
        }
    }
}

proof fn views_failure_stays(list: Seq<tree::JsonTree>, m: nat, n: nat, datas: Seq<Seq<u8>>)
    requires
        m <= n <= list.len(),
        views_rewritten(list, m, datas) is Err,
    ensures
        views_rewritten(list, n, datas) == views_rewritten(list, m, datas),
    decreases n,
{
    if m < n {
        views_failure_stays(list, m, (n - 1) as nat, datas);
    }
}

/// Makes a view of a buffer a view of the merged data.
fn rewrite_view(
    view: &mut Value,
    i: usize,
    offsets: &Vec<usize>,
    Ghost(datas): Ghost<Seq<Seq<u8>>>,
) -> (r: Result<(), GltfPackError>)
    requires
        offsets@.len() == datas.len(),
        forall|k: int| 0 <= k < datas.len() ==> #[trigger] offsets@[k] == offset(datas, k),
    ensures
        match view_rewritten(tree::tree_in(*old(view)), i as int, datas) {
            Ok(after) => r is Ok && tree::tree_in(*final(view)) == after,
            Err(words) => r matches Err(e) && e@ == PackFailure::Invalid(words),
        },
{
    let start = numbered_text("bufferView", i);
    if !tree::is_object(view) {
        return Err(invalid(start.as_str(), " is not an object"));
    }
    let compressed = match tree::get(view, "extensions") {
        Some(extensions) => tree::get(extensions, "EXT_meshopt_compression").is_some(),
        None => false,
    };
    if compressed {
        return Err(
            invalid(
                start.as_str(),
                " uses EXT_meshopt_compression, whose internal buffer reference the packer cannot rewrite",
            ),
        );
    }
    let b: u64 = match natural_under(view, "buffer") {
        Some(b) => b,
        None => {
            return Err(invalid(start.as_str(), " has no buffer index"));
        },
    };
    if b >= offsets.len() as u64 {
        let mut message: String = start;
        message.append(" references buffer ");
        message.append(text::decimal_text(b).as_str());
        message.append(", but only ");
        message.append(text::decimal_text(offsets.len() as u64).as_str());
        message.append(" buffer(s) exist");
        return Err(GltfPackError::Invalid(message));
    }
    let base: u64 = offsets[b as usize] as u64;
    let inner: u64 = match natural_under(view, "byteOffset") {
        Some(n) => n,
        None => 0,
    };
    let sum: u64 = base.wrapping_add(inner);
    assert(sum == shifted(base as nat, inner as nat));
    tree::insert(view, "buffer", tree::natural(0));
    tree::insert(view, "byteOffset", tree::natural(sum));
    Ok(())
}

/// The natural number under a key of a value.
fn natural_under(value: &Value, key: &str) -> (r: Option<u64>)
    ensures
        match tree::natural_field(tree::tree_in(*value), key@) {
            Some(n) => r matches Some(m) && m as nat == n,
            None => r is None,
        },
{
    match tree::get(value, key) {
        Some(v) => tree::as_natural(v),
        None => None,
    }
}

/// Makes the views of buffers views of the merged data.
fn rewrite_buffer_views(
    list: &mut Vec<Value>,
    offsets: &Vec<usize>,
    Ghost(datas): Ghost<Seq<Seq<u8>>>,
) -> (r: Result<(), GltfPackError>)
    requires
        offsets@.len() == datas.len(),
        forall|k: int| 0 <= k < datas.len() ==> #[trigger] offsets@[k] == offset(datas, k),
    ensures
        match views_rewritten(tree::trees_in(old(list)@), old(list)@.len(), datas) {
            Ok(after) => r is Ok && tree::trees_in(final(list)@) == after,
            Err(words) => r matches Err(e) && e@ == PackFailure::Invalid(words),
        },
{
    let ghost trees = tree::trees_in(list@);
    let ghost start = list@;
    let n: usize = list.len();
    let mut i: usize = 0;
    assert(tree::trees_in(list@).take(0) =~= Seq::empty());
    while i < n
        invariant
            i <= n == list@.len() == trees.len(),
            trees == tree::trees_in(old(list)@),
            offsets@.len() == datas.len(),
            forall|k: int| 0 <= k < datas.len() ==> #[trigger] offsets@[k] == offset(datas, k),
            views_rewritten(trees, i as nat, datas) == Ok::<Seq<tree::JsonTree>, Seq<char>>(
                tree::trees_in(list@).take(i as int),
            ),
            forall|k: int| i <= k < n ==> #[trigger] tree::trees_in(list@)[k] == trees[k],
        decreases n - i,
    {
        let ghost had = list@;
        assert(tree::tree_in(list@[i as int]) == tree::trees_in(list@)[i as int]);
        match rewrite_view(&mut list[i], i, offsets, Ghost(datas)) {
            Ok(_) => {
                proof {
                    assert(list@ =~= had.update(i as int, list@[i as int]));
                    assert(tree::trees_in(list@).take(i + 1) =~= tree::trees_in(had).take(
                        i as int,
                    ).push(tree::tree_in(list@[i as int])));
                    assert forall|k: int| i + 1 <= k < n implies #[trigger] tree::trees_in(
                        list@,
                    )[k] == trees[k] by {
                        assert(tree::trees_in(had)[k] == trees[k]);
                    }
                }
            },
            Err(e) => {
                proof {
                    views_failure_stays(trees, (i + 1) as nat, n as nat, datas);
                }
                return Err(e);
            },
        }
        i += 1;
    }
    assert(tree::trees_in(list@).take(n as int) =~= tree::trees_in(list@));
    Ok(())
}

/// A view shows the same bytes of the merged data that it showed of its buffer, and nothing of it
/// changes but the buffer and the offset.
pub proof fn views_show_the_same_bytes(
    view: tree::JsonTree,
    i: int,
    datas: Seq<Seq<u8>>,
    inner: nat,
    length: nat,
)
    requires
        view_rewritten(view, i, datas) is Ok,
        merged(datas, datas.len()).len() <= u64::MAX,
        inner == match tree::natural_field(view, "byteOffset"@) {
            Some(n) => n,
            None => 0,
        },
        inner + length <= datas[tree::natural_field(view, "buffer"@)->0 as int].len(),
    ensures
        ({
            let b = tree::natural_field(view, "buffer"@)->0 as int;
            let now = view_rewritten(view, i, datas)->Ok_0;
            let at = offset(datas, b) + inner;
            &&& tree::natural_field(now, "buffer"@) == Some(0nat)
            &&& tree::natural_field(now, "byteOffset"@) == Some(at)
            &&& at + length <= merged(datas, datas.len()).len()
            &&& merged(datas, datas.len()).subrange(at as int, (at + length) as int)
                == datas[b].subrange(inner as int, (inner + length) as int)
            &&& forall|key: Seq<char>|
                key != "buffer"@ && key != "byteOffset"@ ==> #[trigger] tree::field(now, key)
                    == tree::field(view, key)
        }),
{
    let b = tree::natural_field(view, "buffer"@)->0 as int;
    let whole = merged(datas, datas.len());
    let base = offset(datas, b) as int;
    merged_holds_each_buffer(datas, b);
    reveal_strlit("buffer");
    reveal_strlit("byteOffset");
    assert("buffer"@.len() == 6 && "byteOffset"@.len() == 10);
    assert(shifted(offset(datas, b), inner) == offset(datas, b) + inner);
    assert(whole.subrange(base + inner, base + inner + length) =~= whole.subrange(
        base,
        base + datas[b].len(),
    ).subrange(inner as int, (inner + length) as int));
}

// Images in the file.

/// What bringing images into the file has made so far: the data, the new views, which bytes have
/// which view, and the images.
pub struct Inlined {
    pub bin: Seq<u8>,
    pub views: Seq<tree::JsonTree>,
    pub seen: Seq<(Seq<u8>, nat)>,
    pub images: Seq<tree::JsonTree>,
}

/// The view that the first image with these bytes was given.
pub open spec fn view_of(seen: Seq<(Seq<u8>, nat)>, bytes: Seq<u8>) -> Option<nat>
    decreases seen.len(),
{
    if seen.len() == 0 {
        None
    } else {
        match view_of(seen.drop_last(), bytes) {
            Some(view) => Some(view),
            None => if seen.last().0 == bytes {
                Some(seen.last().1)
            } else {
                None
            },
        }
    }
}

/// A view of bytes in the file.
pub open spec fn new_view(at: nat, length: nat) -> tree::JsonTree {
    tree::JsonTree::Obj(
        Map::empty().insert("buffer"@, tree::JsonTree::Natural(0)).insert(
            "byteOffset"@,
            tree::JsonTree::Natural(at),
        ).insert("byteLength"@, tree::JsonTree::Natural(length)),
    )
}

/// What has been made once the bytes of an image have a view: the view of an earlier image with the
/// same bytes, or a new one.
pub open spec fn bytes_placed(bytes: Seq<u8>, existing: nat, st: Inlined) -> Inlined {
    if view_of(st.seen, bytes) is Some {
        st
    } else {
        Inlined {
            bin: appended(st.bin, bytes),
            views: st.views.push(new_view(filled(st.bin, 0).len(), bytes.len())),
            seen: st.seen.push((bytes, shifted(existing, st.views.len()))),
            images: st.images,
        }
    }
}

/// What has been made once one more image has been brought into the file.
pub open spec fn image_inlined(
    img: tree::JsonTree,
    data: Option<InlineView>,
    existing: nat,
    st: Inlined,
) -> Inlined {
    if data is Some && img is Obj {
        let placed = bytes_placed(data->0.bytes, existing, st);
        Inlined {
            images: placed.images.push(
                tree::JsonTree::Obj(
                    img->Obj_0.remove("uri"@).insert(
                        "bufferView"@,
                        tree::JsonTree::Natural(view_of(placed.seen, data->0.bytes)->0),
                    ).insert("mimeType"@, tree::JsonTree::Str(data->0.mime)),
                ),
            ),
            ..placed
        }
    } else {
        Inlined { images: st.images.push(img), ..st }
    }
}

/// What has been made once the first `n` images have been brought into the file.
pub open spec fn images_inlined(
    list: Seq<tree::JsonTree>,
    datas: Seq<Option<InlineView>>,
    n: nat,
    existing: nat,
    bin: Seq<u8>,
) -> Inlined
    decreases n,
{
    if n == 0 || n > list.len() {
        Inlined { bin, views: Seq::empty(), seen: Seq::empty(), images: Seq::empty() }
    } else {
        image_inlined(
            list[n - 1],
            datas[n - 1],
            existing,
            images_inlined(list, datas, (n - 1) as nat, existing, bin),
        )
    }
}

proof fn view_of_new(seen: Seq<(Seq<u8>, nat)>, bytes: Seq<u8>, view: nat)
    requires
        view_of(seen, bytes) is None,
    ensures
        view_of(seen.push((bytes, view)), bytes) == Some(view),
{
    assert(seen.push((bytes, view)).drop_last() =~= seen);
}

/// Whether two lists of bytes are the same.
fn same_bytes(a: &Vec<u8>, b: &Vec<u8>) -> (r: bool)
    ensures
        r == (a@ == b@),
{
    if a.len() != b.len() {
        return false;
    }
    let mut i: usize = 0;
    while i < a.len()
        invariant
            i <= a@.len() == b@.len(),
            forall|k: int| 0 <= k < i ==> a@[k] == b@[k],
        decreases a@.len() - i,
    {
        if a[i] != b[i] {
            return false;
        }
        i += 1;
    }
    assert(a@ =~= b@);
    true
}

/// Which image was the first with its bytes, and the view that it was given.
pub open spec fn seen_views(
    seen: Seq<(usize, u64)>,
    datas: Seq<Option<InlineImage>>,
) -> Seq<(Seq<u8>, nat)> {
    seen.map_values(|p: (usize, u64)| (inline_views(datas)[p.0 as int]->0.bytes, p.1 as nat))
}

fn find_view(seen: &Vec<(usize, u64)>, datas: &Vec<Option<InlineImage>>, bytes: &Vec<u8>) -> (r:
    Option<u64>)
    requires
        forall|k: int|
            0 <= k < seen@.len() ==> (#[trigger] seen@[k]).0 < datas@.len()
                && datas@[seen@[k].0 as int] is Some,
    ensures
        match view_of(seen_views(seen@, datas@), bytes@) {
            Some(view) => r matches Some(v) && v as nat == view,
            None => r is None,
        },
{
    let ghost all = seen_views(seen@, datas@);
    let mut i: usize = 0;
    assert(all.take(0) =~= Seq::empty());
    while i < seen.len()
        invariant
            i <= seen@.len(),
            all == seen_views(seen@, datas@),
            forall|k: int|
                0 <= k < seen@.len() ==> (#[trigger] seen@[k]).0 < datas@.len()
                    && datas@[seen@[k].0 as int] is Some,
            view_of(all.take(i as int), bytes@) is None,
        decreases seen@.len() - i,
    {
        let ghost upto = all.take(i + 1);
        assert(upto.drop_last() =~= all.take(i as int));
        assert(upto.last() == all[i as int]);
        let at: usize = seen[i].0;
        if let Some(first) = &datas[at] {
            assert(inline_views(datas@)[at as int] == Some(first@));
            if same_bytes(&first.bytes, bytes) {
                proof {
                    view_stays(all, i + 1, bytes@);
                }
                return Some(seen[i].1);
            }
        }
        i += 1;
    }
    assert(all.take(all.len() as int) =~= all);
    None
}

proof fn view_stays(seen: Seq<(Seq<u8>, nat)>, m: int, bytes: Seq<u8>)
    requires
        0 <= m <= seen.len(),
        view_of(seen.take(m), bytes) is Some,
    ensures
        view_of(seen, bytes) == view_of(seen.take(m), bytes),
    decreases seen.len(),
{
    if m < seen.len() {
        assert(seen.drop_last().take(m) =~= seen.take(m));
        view_stays(seen.drop_last(), m, bytes);
    } else {
        assert(seen.take(m) =~= seen);
    }
}

fn make_view(at: usize, length: usize) -> (r: Value)
    ensures
        tree::tree_in(r) == new_view(at as nat, length as nat),
{
    let mut view = tree::empty_object();
    tree::insert(&mut view, "buffer", tree::natural(0));
    tree::insert(&mut view, "byteOffset", tree::natural(at as u64));
    tree::insert(&mut view, "byteLength", tree::natural(length as u64));
    view
}

/// Brings images into the file: each list of bytes once, and each image with its own type. Gives the
/// new views.
fn inline_images(
    list: &mut Vec<Value>,
    datas: &Vec<Option<InlineImage>>,
    existing: usize,
    bin: &mut Vec<u8>,
) -> (r: Vec<Value>)
    requires
        old(list)@.len() == datas@.len(),
    ensures
        ({
            let made = images_inlined(
                tree::trees_in(old(list)@),
                inline_views(datas@),
                old(list)@.len(),
                existing as nat,
                old(bin)@,
            );
            tree::trees_in(final(list)@) == made.images && final(bin)@ == made.bin
                && tree::trees_in(r@) == made.views
        }),
{
    let ghost trees = tree::trees_in(list@);
    let ghost views = inline_views(datas@);
    let ghost start = bin@;
    let n: usize = list.len();
    let mut new_views: Vec<Value> = Vec::new();
    let mut seen: Vec<(usize, u64)> = Vec::new();
    let mut i: usize = 0;
    proof {
        assert(tree::trees_in(list@).take(0) =~= Seq::empty());
        assert(tree::trees_in(new_views@) =~= Seq::empty());
        assert(seen_views(seen@, datas@) =~= Seq::empty());
    }
    while i < n
        invariant
            i <= n == list@.len() == trees.len() == datas@.len(),
            trees == tree::trees_in(old(list)@),
            views == inline_views(datas@),
            start == old(bin)@,
            forall|k: int|
                0 <= k < seen@.len() ==> (#[trigger] seen@[k]).0 < datas@.len()
                    && datas@[seen@[k].0 as int] is Some,
            images_inlined(trees, views, i as nat, existing as nat, start) == (Inlined {
                bin: bin@,
                views: tree::trees_in(new_views@),
                seen: seen_views(seen@, datas@),
                images: tree::trees_in(list@).take(i as int),
            }),
            forall|k: int| i <= k < n ==> #[trigger] tree::trees_in(list@)[k] == trees[k],
        decreases n - i,
    {
        let ghost had = list@;
        let ghost st = images_inlined(trees, views, i as nat, existing as nat, start);
        assert(tree::tree_in(list@[i as int]) == tree::trees_in(list@)[i as int]);
        assert(views[i as int] == inline_view(datas@[i as int]));
        if let Some(image) = &datas[i] {
            if tree::is_object(&list[i]) {
                let view: u64 = match find_view(&seen, datas, &image.bytes) {
                    Some(view) => view,
                    None => {
                        let ghost had_views = new_views@;
                        let ghost had_seen = seen@;
                        let at = append_aligned(bin, &image.bytes);
                        let view: u64 = (existing as u64).wrapping_add(new_views.len() as u64);
                        let made = make_view(at, image.bytes.len());
                        new_views.push(made);
                        seen.push((i, view));
                        proof {
                            assert(tree::trees_in(had_views).len() == had_views.len());
                            assert(view == shifted(existing as nat, had_views.len()));
                            assert(tree::trees_in(new_views@) =~= tree::trees_in(had_views).push(
                                tree::tree_in(made),
                            ));
                            assert(seen_views(seen@, datas@) =~= seen_views(
                                had_seen,
                                datas@,
                            ).push((image.bytes@, view as nat)));
                            view_of_new(seen_views(had_seen, datas@), image.bytes@, view as nat);
                        }
                        view
                    },
                };
                let mime = image.mime.clone();
                assert(image@ == (InlineView { bytes: image.bytes@, mime: mime@ }));
                let _ = rewrite_image(&mut list[i], view, mime);
                proof {
                    assert(list@ =~= had.update(i as int, list@[i as int]));
                }
            }
        }
        proof {
            assert(tree::trees_in(list@).take(i + 1) =~= tree::trees_in(had).take(i as int).push(
                tree::tree_in(list@[i as int]),
            ));
            assert forall|k: int| i + 1 <= k < n implies #[trigger] tree::trees_in(list@)[k]
                == trees[k] by {
                assert(tree::trees_in(had)[k] == trees[k]);
            }
        }
        i += 1;
    }
    assert(tree::trees_in(list@).take(n as int) =~= tree::trees_in(list@));
    new_views
}

fn rewrite_image(img: &mut Value, view: u64, mime: String)
    requires
        tree::tree_in(*old(img)) is Obj,
    ensures
        tree::tree_in(*final(img)) == tree::JsonTree::Obj(
            tree::tree_in(*old(img))->Obj_0.remove("uri"@).insert(
                "bufferView"@,
                tree::JsonTree::Natural(view as nat),
            ).insert("mimeType"@, tree::JsonTree::Str(mime@)),
        ),
{
    let _ = tree::remove(img, "uri");
    tree::insert(img, "bufferView", tree::natural(view));
    tree::insert(img, "mimeType", tree::text(mime));
}

/// Whether a view shows these bytes of the data, at a multiple of four.
pub open spec fn shows(view: tree::JsonTree, bin: Seq<u8>, bytes: Seq<u8>) -> bool {
    &&& tree::natural_field(view, "buffer"@) == Some(0nat)
    &&& tree::natural_field(view, "byteLength"@) == Some(bytes.len())
    &&& tree::natural_field(view, "byteOffset"@) matches Some(at) && at % 4 == 0 && at + bytes.len()
        <= bin.len() && bin.subrange(at as int, (at + bytes.len()) as int) == bytes
}

/// Whether the view with a number shows these bytes, where the new views are numbered from
/// `existing` on.
pub open spec fn shown_by(st: Inlined, existing: nat, number: nat, bytes: Seq<u8>) -> bool {
    existing <= number < existing + st.views.len() && shows(
        st.views[number - existing],
        st.bin,
        bytes,
    )
}

/// Whether an image in the file shows the bytes of the image that was read, with its kind.
pub open spec fn shows_image(
    st: Inlined,
    existing: nat,
    image: tree::JsonTree,
    data: InlineView,
) -> bool {
    &&& tree::natural_field(image, "bufferView"@) matches Some(number) && shown_by(
        st,
        existing,
        number,
        data.bytes,
    )
    &&& tree::text_field(image, "mimeType"@) == Some(data.mime)
}

proof fn longer_data_shows_as_much(view: tree::JsonTree, bin: Seq<u8>, data: Seq<u8>, bytes: Seq<u8>)
    requires
        shows(view, bin, bytes),
    ensures
        shows(view, appended(bin, data), bytes),
{
    let at = tree::natural_field(view, "byteOffset"@)->0 as int;
    filled_keeps(bin, 0);
    let whole = appended(bin, data);
    assert(whole.take(bin.len() as int) =~= filled(bin, 0).take(bin.len() as int));
    assert(whole.subrange(at, at + bytes.len()) =~= whole.take(bin.len() as int).subrange(
        at,
        at + bytes.len(),
    ));
}

proof fn placed_bytes_are_shown(bytes: Seq<u8>, existing: nat, st: Inlined)
    requires
        existing + st.views.len() <= u64::MAX,
        forall|seen: Seq<u8>|
            #[trigger] view_of(st.seen, seen) is Some ==> shown_by(
                st,
                existing,
                view_of(st.seen, seen)->0,
                seen,
            ),
    ensures
        ({
            let placed = bytes_placed(bytes, existing, st);
            &&& view_of(placed.seen, bytes) is Some
            &&& placed.views.len() <= st.views.len() + 1
            &&& placed.images == st.images
            &&& placed.bin.len() >= st.bin.len()
            &&& placed.bin.take(st.bin.len() as int) == st.bin
            &&& forall|number: nat, seen: Seq<u8>| #[trigger]
                shown_by(st, existing, number, seen) ==> shown_by(placed, existing, number, seen)
            &&& forall|seen: Seq<u8>|
                #[trigger] view_of(placed.seen, seen) is Some ==> shown_by(
                    placed,
                    existing,
                    view_of(placed.seen, seen)->0,
                    seen,
                )
        }),
{
    let placed = bytes_placed(bytes, existing, st);
    if view_of(st.seen, bytes) is Some {
        assert(st.bin.take(st.bin.len() as int) =~= st.bin);
    } else {
        let number = existing + st.views.len();
        assert(shifted(existing, st.views.len()) == number);
        filled_keeps(st.bin, 0);
        filled_is_whole(st.bin, 0);
        assert(placed.bin.take(st.bin.len() as int) =~= filled(st.bin, 0).take(st.bin.len() as int));
        view_of_new(st.seen, bytes, number);
        assert forall|n: nat, seen: Seq<u8>| #[trigger]
            shown_by(st, existing, n, seen) implies shown_by(placed, existing, n, seen) by {
            longer_data_shows_as_much(st.views[n - existing], st.bin, bytes, seen);
            assert(placed.views[n - existing] == st.views[n - existing]);
        }
        let at = filled(st.bin, 0).len() as int;
        reveal_strlit("buffer");
        reveal_strlit("byteOffset");
        reveal_strlit("byteLength");
        assert("buffer"@.len() == 6 && "byteOffset"@.len() == 10 && "byteLength"@.len() == 10);
        assert("byteOffset"@[4] == 'O' && "byteLength"@[4] == 'L');
        assert(placed.bin.subrange(at, at + bytes.len()) =~= bytes);
        assert(placed.views[number - existing] == new_view(at as nat, bytes.len()));
        assert(shown_by(placed, existing, number, bytes));
        assert forall|seen: Seq<u8>| #[trigger] view_of(placed.seen, seen) is Some implies shown_by(
            placed,
            existing,
            view_of(placed.seen, seen)->0,
            seen,
        ) by {
            assert(placed.seen.drop_last() =~= st.seen);
            if view_of(st.seen, seen) is Some {
                assert(shown_by(st, existing, view_of(st.seen, seen)->0, seen));
            }
        }
    }
}

proof fn images_are_shown_up_to(
    list: Seq<tree::JsonTree>,
    datas: Seq<Option<InlineView>>,
    n: nat,
    existing: nat,
    bin: Seq<u8>,
)
    requires
        n <= list.len(),
        n <= datas.len(),
        existing + n <= u64::MAX,
    ensures
        ({
            let st = images_inlined(list, datas, n, existing, bin);
            &&& st.views.len() <= n
            &&& st.images.len() == n
            &&& st.bin.len() >= bin.len()
            &&& st.bin.take(bin.len() as int) == bin
            &&& forall|seen: Seq<u8>|
                #[trigger] view_of(st.seen, seen) is Some ==> shown_by(
                    st,
                    existing,
                    view_of(st.seen, seen)->0,
                    seen,
                )
            &&& forall|i: int|
                0 <= i < n && list[i] is Obj && datas[i] is Some ==> shows_image(
                    st,
                    existing,
                    #[trigger] st.images[i],
                    datas[i]->0,
                )
        }),
    decreases n,
{
    if n == 0 {
        assert(bin.take(bin.len() as int) =~= bin);
    } else {
        images_are_shown_up_to(list, datas, (n - 1) as nat, existing, bin);
        let before = images_inlined(list, datas, (n - 1) as nat, existing, bin);
        let after = images_inlined(list, datas, n, existing, bin);
        let img = list[n - 1];
        let data = datas[n - 1];
        if data is Some && img is Obj {
            let bytes = data->0.bytes;
            let placed = bytes_placed(bytes, existing, before);
            placed_bytes_are_shown(bytes, existing, before);
            assert(after.bin.take(bin.len() as int) =~= after.bin.take(before.bin.len() as int).take(
                bin.len() as int,
            ));
            reveal_strlit("uri");
            reveal_strlit("bufferView");
            reveal_strlit("mimeType");
            assert("uri"@.len() == 3 && "bufferView"@.len() == 10 && "mimeType"@.len() == 8);
            assert forall|number: nat, seen: Seq<u8>| #[trigger]
                shown_by(placed, existing, number, seen) implies shown_by(
                after,
                existing,
                number,
                seen,
            ) by {}
            assert forall|seen: Seq<u8>| #[trigger] view_of(after.seen, seen) is Some implies shown_by(
                after,
                existing,
                view_of(after.seen, seen)->0,
                seen,
            ) by {
                assert(view_of(placed.seen, seen) is Some);
                assert(shown_by(placed, existing, view_of(placed.seen, seen)->0, seen));
            }
            let number = view_of(placed.seen, bytes)->0;
            assert(shown_by(placed, existing, number, bytes));
            assert(shown_by(after, existing, number, bytes));
            assert(shows_image(after, existing, after.images[n - 1], data->0));
            assert forall|i: int|
                0 <= i < n && list[i] is Obj && datas[i] is Some implies shows_image(
                after,
                existing,
                #[trigger] after.images[i],
                datas[i]->0,
            ) by {
                if i < n - 1 {
                    assert(after.images[i] == before.images[i]);
                    let earlier = tree::natural_field(before.images[i], "bufferView"@)->0;
                    assert(shown_by(before, existing, earlier, datas[i]->0.bytes));
                    assert(shown_by(placed, existing, earlier, datas[i]->0.bytes));
                }
            }
        } else {
            assert forall|number: nat, seen: Seq<u8>| #[trigger]
                shown_by(before, existing, number, seen) implies shown_by(
                after,
                existing,
                number,
                seen,
            ) by {}
            assert forall|seen: Seq<u8>| #[trigger] view_of(after.seen, seen) is Some implies shown_by(
                after,
                existing,
                view_of(after.seen, seen)->0,
                seen,
            ) by {
                assert(shown_by(before, existing, view_of(before.seen, seen)->0, seen));
            }
            assert forall|i: int|
                0 <= i < n && list[i] is Obj && datas[i] is Some implies shows_image(
                after,
                existing,
                #[trigger] after.images[i],
                datas[i]->0,
            ) by {
                assert(after.images[i] == before.images[i]);
                let earlier = tree::natural_field(before.images[i], "bufferView"@)->0;
                assert(shown_by(before, existing, earlier, datas[i]->0.bytes));
            }
        }
    }
}

/// Every image that is brought into the file has a view that shows its bytes, and the data that was
/// there before stays where it was.
pub proof fn inlined_images_hold_their_bytes(
    list: Seq<tree::JsonTree>,
    datas: Seq<Option<InlineView>>,
    existing: nat,
    bin: Seq<u8>,
)
    requires
        datas.len() == list.len(),
        existing + list.len() <= u64::MAX,
    ensures
        ({
            let st = images_inlined(list, datas, list.len(), existing, bin);
            &&& st.images.len() == list.len()
            &&& st.bin.len() >= bin.len()
            &&& st.bin.take(bin.len() as int) == bin
            &&& forall|i: int|
                0 <= i < list.len() && list[i] is Obj && datas[i] is Some ==> shows_image(
                    st,
                    existing,
                    #[trigger] st.images[i],
                    datas[i]->0,
                )
        }),
{
    images_are_shown_up_to(list, datas, list.len(), existing, bin);
}

// Documents.

/// The items of a list under a key of a document; none where there is no such list.
pub open spec fn items(doc: tree::JsonTree, key: Seq<char>) -> Seq<tree::JsonTree> {
    match tree::field(doc, key) {
        Some(tree::JsonTree::Arr(list)) => list,
        _ => Seq::empty(),
    }
}

/// Whether something other than a list stands under a key of a document.
pub open spec fn holds_no_list(doc: tree::JsonTree, key: Seq<char>) -> bool {
    tree::field(doc, key) is Some && !(tree::field(doc, key)->0 is Arr)
}

/// A document with another value under a key.
pub open spec fn with(doc: tree::JsonTree, key: Seq<char>, value: tree::JsonTree) -> tree::JsonTree {
    tree::JsonTree::Obj(doc->Obj_0.insert(key, value))
}

/// The document once its images are in the file.
pub open spec fn with_images(doc: tree::JsonTree, made: Inlined) -> tree::JsonTree {
    let shown = with(doc, "images"@, tree::JsonTree::Arr(made.images));
    if made.views.len() == 0 {
        shown
    } else {
        with(
            shown,
            "bufferViews"@,
            tree::JsonTree::Arr(items(doc, "bufferViews"@) + made.views),
        )
    }
}

/// The document once its only buffer is the data of the file.
pub open spec fn with_buffer(doc: tree::JsonTree, length: nat) -> tree::JsonTree {
    if length == 0 {
        tree::JsonTree::Obj(doc->Obj_0.remove("buffers"@))
    } else {
        with(
            doc,
            "buffers"@,
            tree::JsonTree::Arr(
                seq![
                    tree::JsonTree::Obj(
                        Map::empty().insert("byteLength"@, tree::JsonTree::Natural(length)),
                    ),
                ],
            ),
        )
    }
}

/// The companion files that the buffers of a document ask for.
pub open spec fn document_buffer_asks(doc: tree::JsonTree) -> Seq<Seq<char>> {
    buffer_asks(items(doc, "buffers"@), items(doc, "buffers"@).len())
}

/// The companion files that the images of a document ask for.
pub open spec fn document_image_asks(doc: tree::JsonTree) -> Seq<Seq<char>> {
    image_asks(items(doc, "images"@), items(doc, "images"@).len())
}

/// How many names the lookup is asked for by the buffers of a document.
pub open spec fn buffer_questions(doc: tree::JsonTree, for_buffers: Seq<Answer>) -> nat {
    let buffers = items(doc, "buffers"@);
    buffers_asked(buffers, buffers.len(), for_buffers)
}

/// How many names the lookup is asked for by the images of a document: none where its buffers cannot be
/// read.
pub open spec fn image_questions(
    doc: tree::JsonTree,
    for_buffers: Seq<Answer>,
    for_images: Seq<Answer>,
) -> nat {
    let buffers = items(doc, "buffers"@);
    let images = items(doc, "images"@);
    if holds_no_list(doc, "buffers"@) {
        0
    } else {
        match buffers_read(buffers, buffers.len(), for_buffers) {
            Err(_) => 0,
            Ok(read) => images_asked(images, images.len(), for_images, read.missing),
        }
    }
}

/// Whether a lookup was asked for the companion files of a document in turn, for each of them that
/// reading the document gets to and for no others, and answered so.
pub open spec fn answered<F: FnMut(&str) -> Option<Vec<u8>>>(
    f: F,
    doc: tree::JsonTree,
    for_buffers: Seq<Answer>,
    for_images: Seq<Answer>,
) -> bool {
    &&& consulted(f, document_buffer_asks(doc), for_buffers)
    &&& for_buffers.len() == buffer_questions(doc, for_buffers)
    &&& consulted(f, document_image_asks(doc), for_images)
    &&& for_images.len() == image_questions(doc, for_buffers, for_images)
}

/// The document and the data of the file, from what the lookup answered for the buffers and for the
/// images.
pub open spec fn prepared(
    doc: tree::JsonTree,
    for_buffers: Seq<Answer>,
    for_images: Seq<Answer>,
) -> Result<(tree::JsonTree, Seq<u8>), PackFailure> {
    let buffers = items(doc, "buffers"@);
    let images = items(doc, "images"@);
    if holds_no_list(doc, "buffers"@) {
        Err(PackFailure::Invalid("\"buffers\" is not an array"@))
    } else {
        match buffers_read(buffers, buffers.len(), for_buffers) {
            Err(words) => Err(PackFailure::Invalid(words)),
            Ok(read) => if holds_no_list(doc, "images"@) {
                Err(PackFailure::Invalid("\"images\" is not an array"@))
            } else {
                match images_read(images, images.len(), for_images, read.missing) {
                    Err(words) => Err(PackFailure::Invalid(words)),
                    Ok(shown) => if shown.missing.len() > 0 {
                        Err(PackFailure::Unresolved(shown.missing))
                    } else {
                        rebuilt(doc, read.datas, shown.images)
                    },
                }
            },
        }
    }
}

/// The document and the data of the file, from the data of its buffers and its images.
pub open spec fn rebuilt(
    doc: tree::JsonTree,
    datas: Seq<Seq<u8>>,
    images: Seq<Option<InlineView>>,
) -> Result<(tree::JsonTree, Seq<u8>), PackFailure> {
    let views = items(doc, "bufferViews"@);
    if holds_no_list(doc, "bufferViews"@) {
        Err(PackFailure::Invalid("\"bufferViews\" is not an array"@))
    } else {
        match views_rewritten(views, views.len(), datas) {
            Err(words) => Err(PackFailure::Invalid(words)),
            Ok(rewritten) => {
                let moved = if tree::field(doc, "bufferViews"@) is Some {
                    with(doc, "bufferViews"@, tree::JsonTree::Arr(rewritten))
                } else {
                    doc
                };
                let bin = merged(datas, datas.len());
                if forall|i: int| 0 <= i < images.len() ==> #[trigger] images[i] is None {
                    Ok((with_buffer(moved, bin.len()), bin))
                } else {
                    let made = images_inlined(
                        items(doc, "images"@),
                        images,
                        images.len(),
                        rewritten.len(),
                        bin,
                    );
                    Ok((with_buffer(with_images(moved, made), made.bin.len()), made.bin))
                }
            },
        }
    }
}

/// Whether `r` is the file of a document and its data, or the failure to make it.
pub open spec fn packs(
    r: Result<Vec<u8>, GltfPackError>,
    made: Result<(tree::JsonTree, Seq<u8>), PackFailure>,
) -> bool {
    match made {
        Err(failure) => r matches Err(e) && e@ == failure,
        Ok((doc, bin)) => match tree::json_written(doc) {
            Err(words) => r matches Err(e) && e@ == PackFailure::Invalid(
                "could not re-serialize the JSON chunk: "@ + words,
            ),
            Ok(json) => if worst_size(json.len(), bin.len()) > u32::MAX {
                r matches Err(e) && e@ == PackFailure::Invalid(
                    "packed GLB would be "@ + text::decimal(worst_size(json.len(), bin.len()))
                        + " bytes, larger than the 4 GiB the GLB u32 header can address"@,
                )
            } else {
                r matches Ok(file) && file@ == glb(json, bin)
            },
        },
    }
}

/// Whether a lookup may have answered so that `r` is what packing a document gives.
pub open spec fn packs_with<F: FnMut(&str) -> Option<Vec<u8>>>(
    f: F,
    doc: tree::JsonTree,
    r: Result<Vec<u8>, GltfPackError>,
) -> bool {
    exists|for_buffers: Seq<Answer>, for_images: Seq<Answer>|
        answered(f, doc, for_buffers, for_images) && packs(
            r,
            #[trigger] prepared(doc, for_buffers, for_images),
        )
}

/// Writes the file of a document and its data.
fn write_file(doc: &Value, bin: Vec<u8>) -> (r: Result<Vec<u8>, GltfPackError>)
    ensures
        packs(r, Ok((tree::tree_in(*doc), bin@))),
{
    let json = match tree::write(doc) {
        Ok(json) => json,
        Err(words) => {
            return Err(invalid("could not re-serialize the JSON chunk: ", words.as_str()));
        },
    };
    let worst: u128 = 34 + json.len() as u128 + bin.len() as u128;
    assert(worst == worst_size(json@.len(), bin@.len()));
    if worst > 0xffff_ffff {
        let mut message: String = "packed GLB would be ".to_owned();
        message.append(text::decimal_wide(worst).as_str());
        message.append(" bytes, larger than the 4 GiB the GLB u32 header can address");
        return Err(GltfPackError::Invalid(message));
    }
    Ok(assemble_glb(json, bin))
}

/// Whether there is no image to bring into the file.
fn none_to_inline(images: &Vec<Option<InlineImage>>) -> (r: bool)
    ensures
        r == forall|i: int|
            0 <= i < inline_views(images@).len() ==> #[trigger] inline_views(images@)[i] is None,
{
    let ghost views = inline_views(images@);
    let mut i: usize = 0;
    while i < images.len()
        invariant
            i <= images@.len(),
            views == inline_views(images@),
            forall|k: int| 0 <= k < i ==> #[trigger] views[k] is None,
        decreases images@.len() - i,
    {
        assert(views[i as int] == inline_view(images@[i as int]));
        if images[i].is_some() {
            return false;
        }
        i += 1;
    }
    true
}

/// Takes the list under a key out of a document.
fn take_list(doc: &mut Value, key: &str) -> (r: Vec<Value>)
    requires
        tree::tree_in(*old(doc)) is Obj,
    ensures
        tree::trees_in(r@) == items(tree::tree_in(*old(doc)), key@),
        !holds_no_list(tree::tree_in(*old(doc)), key@) ==> tree::tree_in(*final(doc))
            == tree::JsonTree::Obj(tree::tree_in(*old(doc))->Obj_0.remove(key@)),
{
    let mut out: Vec<Value> = Vec::new();
    match tree::remove(doc, key) {
        Some(v) => {
            let mut v = v;
            if tree::as_list(&v).is_some() {
                let held = tree::as_list_mut(&mut v);
                out.append(held);
            }
        },
        None => {},
    }
    assert(tree::trees_in(out@) =~= items(tree::tree_in(*old(doc)), key@));
    out
}

/// Whether something other than a list stands under a key.
fn has_no_list(doc: &Value, key: &str) -> (r: bool)
    ensures
        r == holds_no_list(tree::tree_in(*doc), key@),
{
    match tree::get(doc, key) {
        Some(v) => tree::as_list(v).is_none(),
        None => false,
    }
}

/// Rebuilds a document around the data of its buffers and its images.
fn rebuild(doc: &mut Value, datas: &Vec<Vec<u8>>, images: &Vec<Option<InlineImage>>) -> (r: Result<
    Vec<u8>,
    GltfPackError,
>)
    requires
        tree::tree_in(*old(doc)) is Obj,
        images@.len() == items(tree::tree_in(*old(doc)), "images"@).len(),
        !holds_no_list(tree::tree_in(*old(doc)), "images"@),
    ensures
        match rebuilt(tree::tree_in(*old(doc)), byte_views(datas@), inline_views(images@)) {
            Ok((after, data)) => r matches Ok(bin) && bin@ == data && tree::tree_in(*final(doc))
                == after,
            Err(failure) => r matches Err(e) && e@ == failure,
        },
{
    let ghost start = tree::tree_in(*doc);
    let ghost all = byte_views(datas@);
    let mut bin: Vec<u8> = Vec::new();
    let mut offsets: Vec<usize> = Vec::new();
    let mut i: usize = 0;
    assert(bin@ =~= merged(all, 0));
    while i < datas.len()
        invariant
            i <= datas@.len(),
            all == byte_views(datas@),
            bin@ == merged(all, i as nat),
            offsets@.len() == i,
            forall|k: int| 0 <= k < i ==> #[trigger] offsets@[k] == offset(all, k),
        decreases datas@.len() - i,
    {
        let at = append_aligned(&mut bin, &datas[i]);
        offsets.push(at);
        assert(all[i as int] == datas@[i as int]@);
        i += 1;
    }
    assert(all.len() == datas@.len());
    if has_no_list(doc, "bufferViews") {
        return Err(GltfPackError::Invalid("\"bufferViews\" is not an array".to_owned()));
    }
    let had_views = tree::get(doc, "bufferViews").is_some();
    let mut views = take_list(doc, "bufferViews");
    assert(tree::trees_in(views@).len() == views@.len());
    let _ = rewrite_buffer_views(&mut views, &offsets, Ghost(all))?;
    let existing: usize = views.len();
    assert(tree::trees_in(views@).len() == views@.len());
    let ghost rewritten = tree::trees_in(views@);
    let ghost moved = if tree::field(start, "bufferViews"@) is Some {
        with(start, "bufferViews"@, tree::JsonTree::Arr(rewritten))
    } else {
        start
    };
    proof {
        views_keep_their_number(items(start, "bufferViews"@), items(start, "bufferViews"@).len(), all);
    }
    if none_to_inline(images) {
        if had_views {
            tree::insert(doc, "bufferViews", tree::list(views));
        }
        proof {
            assert(tree::tree_in(*doc)->Obj_0 =~= moved->Obj_0);
        }
        set_buffer(doc, bin.len());
        return Ok(bin);
    }
    let ghost shown = inline_views(images@);
    let mut list = take_list(doc, "images");
    proof {
        reveal_strlit("images");
        reveal_strlit("bufferViews");
        assert("images"@.len() != "bufferViews"@.len());
        assert(items(tree::JsonTree::Obj(start->Obj_0.remove("bufferViews"@)), "images"@) == items(
            start,
            "images"@,
        ));
        assert(tree::trees_in(list@).len() == list@.len());
    }
    let mut new_views = inline_images(&mut list, images, existing, &mut bin);
    let ghost made = images_inlined(
        items(start, "images"@),
        shown,
        shown.len(),
        existing as nat,
        merged(all, all.len()),
    );
    let any_new = new_views.len() > 0;
    assert(tree::trees_in(new_views@).len() == new_views@.len());
    tree::insert(doc, "images", tree::list(list));
    if any_new || had_views {
        let ghost first = views@;
        let ghost second = new_views@;
        views.append(&mut new_views);
        assert(tree::trees_in(views@) =~= tree::trees_in(first) + tree::trees_in(second));
        tree::insert(doc, "bufferViews", tree::list(views));
    }
    proof {
        let after = with_images(moved, made);
        if !any_new {
            assert(rewritten + made.views =~= rewritten);
        }
        assert(items(moved, "bufferViews"@) =~= rewritten);
        assert(tree::tree_in(*doc)->Obj_0 =~= after->Obj_0);
    }
    set_buffer(doc, bin.len());
    Ok(bin)
}

proof fn views_keep_their_number(list: Seq<tree::JsonTree>, n: nat, datas: Seq<Seq<u8>>)
    requires
        n <= list.len(),
    ensures
        views_rewritten(list, n, datas) matches Ok(after) ==> after.len() == n,
    decreases n,
{
    if n > 0 {
        views_keep_their_number(list, (n - 1) as nat, datas);
    }
}

/// Makes the data of the file the only buffer of a document.
fn set_buffer(doc: &mut Value, length: usize)
    requires
        tree::tree_in(*old(doc)) is Obj,
    ensures
        tree::tree_in(*final(doc)) == with_buffer(tree::tree_in(*old(doc)), length as nat),
{
    if length == 0 {
        let _ = tree::remove(doc, "buffers");
    } else {
        let mut buffer = tree::empty_object();
        tree::insert(&mut buffer, "byteLength", tree::natural(length as u64));
        let mut list: Vec<Value> = Vec::new();
        let ghost entry = tree::tree_in(buffer);
        list.push(buffer);
        assert(tree::trees_in(list@) =~= seq![entry]);
        tree::insert(doc, "buffers", tree::list(list));
    }
}

/// Packs a glTF document into one binary file. `resolve` looks up a companion file by its name, with
/// escapes resolved. Nothing is packed unless every reference can be brought into the file.
pub fn pack_gltf_to_glb<F: FnMut(&str) -> Option<Vec<u8>>>(gltf_json: &[u8], resolve: F) -> (r:
    Result<Vec<u8>, GltfPackError>)
    requires
        forall|s: &'static str| #[trigger] call_requires(resolve, (s,)),
    ensures
        match tree::json_read(gltf_json@) {
            Err(words) => r matches Err(e) && e@ == PackFailure::Invalid(
                "invalid JSON: "@ + words,
            ),
            Ok(doc) => if doc is Obj {
                packs_with(resolve, doc, r)
            } else {
                r matches Err(e) && e@ == PackFailure::Invalid("root is not a JSON object"@)
            },
        },
{
    let root = match tree::parse(gltf_json) {
        Ok(root) => root,
        Err(words) => {
            return Err(invalid("invalid JSON: ", words.as_str()));
        },
    };
    if !tree::is_object(&root) {
        return Err(GltfPackError::Invalid("root is not a JSON object".to_owned()));
    }
    pack_document(root, resolve)
}

/// Packs a glTF document that has been read.
fn pack_document<F: FnMut(&str) -> Option<Vec<u8>>>(root: Value, resolve: F) -> (r: Result<
    Vec<u8>,
    GltfPackError,
>)
    requires
        tree::tree_in(root) is Obj,
        forall|s: &'static str| #[trigger] call_requires(resolve, (s,)),
    ensures
        packs_with(resolve, tree::tree_in(root), r),
{
    let ghost doc = tree::tree_in(root);
    let ghost f = resolve;
    let ghost nothing: Seq<Answer> = Seq::empty();
    let mut root = root;
    let mut resolve = resolve;
    let mut missing: Vec<String> = Vec::new();
    if has_no_list(&root, "buffers") {
        let r = Err(GltfPackError::Invalid("\"buffers\" is not an array".to_owned()));
        assert(packs(r, prepared(doc, nothing, nothing)));
        return r;
    }
    let none: Vec<Value> = Vec::new();
    assert(tree::trees_in(none@) =~= Seq::empty());
    let (datas, Ghost(for_buffers)) = resolve_buffers(
        list_under(&root, "buffers", &none),
        &mut resolve,
        &mut missing,
    );
    let datas = match datas {
        Ok(datas) => datas,
        Err(e) => {
            let r = Err(e);
            assert(packs(r, prepared(doc, for_buffers, nothing)));
            return r;
        },
    };
    if has_no_list(&root, "images") {
        let r = Err(GltfPackError::Invalid("\"images\" is not an array".to_owned()));
        assert(packs(r, prepared(doc, for_buffers, nothing)));
        return r;
    }
    let (images, Ghost(for_images)) = resolve_images(
        list_under(&root, "images", &none),
        &mut resolve,
        &mut missing,
    );
    let images = match images {
        Ok(images) => images,
        Err(e) => {
            let r = Err(e);
            assert(packs(r, prepared(doc, for_buffers, for_images)));
            return r;
        },
    };
    assert(sorting::text_views(missing@).len() == missing@.len());
    if missing.len() > 0 {
        let r = Err(GltfPackError::Unresolved(missing));
        assert(packs(r, prepared(doc, for_buffers, for_images)));
        return r;
    }
    proof {
        images_keep_their_number(
            items(doc, "images"@),
            items(doc, "images"@).len(),
            for_images,
            buffers_read(items(doc, "buffers"@), items(doc, "buffers"@).len(), for_buffers)->Ok_0.missing,
        );
        assert(inline_views(images@).len() == images@.len());
    }
    let bin = match rebuild(&mut root, &datas, &images) {
        Ok(bin) => bin,
        Err(e) => {
            let r = Err(e);
            assert(packs(r, prepared(doc, for_buffers, for_images)));
            return r;
        },
    };
    let r = write_file(&root, bin);
    assert(packs(r, prepared(doc, for_buffers, for_images)));
    r
}

proof fn images_keep_their_number(
    list: Seq<tree::JsonTree>,
    n: nat,
    answers: Seq<Answer>,
    missing: Seq<Seq<char>>,
)
    requires
        n <= list.len(),
    ensures
        images_read(list, n, answers, missing) matches Ok(read) ==> read.images.len() == n,
    decreases n,
{
    if n > 0 {
        images_keep_their_number(list, (n - 1) as nat, answers, missing);
    }
}

/// The list under a key, or `none`.
fn list_under<'a>(doc: &'a Value, key: &str, none: &'a Vec<Value>) -> (r: &'a Vec<Value>)
    requires
        none@.len() == 0,
    ensures
        tree::trees_in(r@) == items(tree::tree_in(*doc), key@),
        r@.len() == items(tree::tree_in(*doc), key@).len(),
{
    let found = match tree::get(doc, key) {
        Some(v) => tree::as_list(v),
        None => None,
    };
    let r = match found {
        Some(list) => list,
        None => none,
    };
    assert(tree::trees_in(r@) =~= items(tree::tree_in(*doc), key@));
    assert(tree::trees_in(r@).len() == r@.len());
    r
}

/// An image without an address to look up is one that is in the file already, where nothing is
/// missing.
proof fn nothing_missing_means_all_read(
    list: Seq<tree::JsonTree>,
    n: nat,
    answers: Seq<Answer>,
    missing: Seq<Seq<char>>,
)
    requires
        n <= list.len(),
        images_read(list, n, answers, missing) is Ok,
    ensures
        images_read(list, n, answers, missing)->Ok_0.images.len() == n,
        images_read(list, n, answers, missing)->Ok_0.missing.len() >= missing.len(),
        images_read(list, n, answers, missing)->Ok_0.missing.len() == 0 ==> forall|i: int|
            0 <= i < n && images_read(list, n, answers, missing)->Ok_0.images[i] is None
                ==> tree::text_field(#[trigger] list[i], "uri"@) is None,
    decreases n,
{
    if n > 0 {
        nothing_missing_means_all_read(list, (n - 1) as nat, answers, missing);
        let before = images_read(list, (n - 1) as nat, answers, missing)->Ok_0;
        let after = images_read(list, n, answers, missing)->Ok_0;
        if after.missing.len() == 0 {
            assert forall|i: int| 0 <= i < n && after.images[i] is None implies tree::text_field(
                #[trigger] list[i],
                "uri"@,
            ) is None by {
                if i < n - 1 {
                    assert(after.images[i] == before.images[i]);
                }
            }
        }
    }
}

proof fn inlined_images_have_no_address(
    list: Seq<tree::JsonTree>,
    datas: Seq<Option<InlineView>>,
    n: nat,
    existing: nat,
    bin: Seq<u8>,
)
    requires
        n <= list.len(),
        forall|i: int|
            0 <= i < n && datas[i] is None ==> tree::text_field(#[trigger] list[i], "uri"@) is None,
    ensures
        images_inlined(list, datas, n, existing, bin).images.len() == n,
        forall|i: int|
            0 <= i < n ==> tree::text_field(
                #[trigger] images_inlined(list, datas, n, existing, bin).images[i],
                "uri"@,
            ) is None,
    decreases n,
{
    if n > 0 {
        inlined_images_have_no_address(list, datas, (n - 1) as nat, existing, bin);
        let before = images_inlined(list, datas, (n - 1) as nat, existing, bin);
        let after = images_inlined(list, datas, n, existing, bin);
        reveal_strlit("uri");
        reveal_strlit("bufferView");
        reveal_strlit("mimeType");
        assert("uri"@.len() == 3 && "bufferView"@.len() == 10 && "mimeType"@.len() == 8);
        assert forall|i: int| 0 <= i < n implies tree::text_field(
            #[trigger] after.images[i],
            "uri"@,
        ) is None by {
            if i < n - 1 {
                assert(after.images[i] == before.images[i]);
            } else {
                assert(tree::text_field(list[n - 1], "uri"@) is None || datas[n - 1] is Some);
            }
        }
    }
}

/// Whether a document refers to nothing outside its file: no image has an address, and the only
/// buffer, where there is any, has nothing but its length.
pub open spec fn is_self_contained(doc: tree::JsonTree, length: nat) -> bool {
    &&& forall|i: int|
        0 <= i < items(doc, "images"@).len() ==> tree::text_field(
            #[trigger] items(doc, "images"@)[i],
            "uri"@,
        ) is None
    &&& if length == 0 {
        tree::field(doc, "buffers"@) is None
    } else {
        tree::field(doc, "buffers"@) == Some(
            tree::JsonTree::Arr(
                seq![
                    tree::JsonTree::Obj(
                        Map::empty().insert("byteLength"@, tree::JsonTree::Natural(length)),
                    ),
                ],
            ),
        )
    }
}

/// A packed document refers to nothing outside its file, whatever the lookup answered.
pub proof fn packed_is_self_contained(
    doc: tree::JsonTree,
    for_buffers: Seq<Answer>,
    for_images: Seq<Answer>,
)
    requires
        doc is Obj,
        prepared(doc, for_buffers, for_images) is Ok,
    ensures
        is_self_contained(
            prepared(doc, for_buffers, for_images)->Ok_0.0,
            prepared(doc, for_buffers, for_images)->Ok_0.1.len(),
        ),
{
    reveal_strlit("images");
    reveal_strlit("buffers");
    reveal_strlit("bufferViews");
    assert("images"@.len() == 6 && "buffers"@.len() == 7 && "bufferViews"@.len() == 11);
    let buffers = items(doc, "buffers"@);
    let images = items(doc, "images"@);
    let read = buffers_read(buffers, buffers.len(), for_buffers)->Ok_0;
    let shown = images_read(images, images.len(), for_images, read.missing)->Ok_0;
    nothing_missing_means_all_read(images, images.len(), for_images, read.missing);
    let views = items(doc, "bufferViews"@);
    let rewritten = views_rewritten(views, views.len(), read.datas)->Ok_0;
    let bin = merged(read.datas, read.datas.len());
    let moved = if tree::field(doc, "bufferViews"@) is Some {
        with(doc, "bufferViews"@, tree::JsonTree::Arr(rewritten))
    } else {
        doc
    };
    assert(items(moved, "images"@) == images);
    if !(forall|i: int| 0 <= i < shown.images.len() ==> #[trigger] shown.images[i] is None) {
        let made = images_inlined(images, shown.images, images.len(), rewritten.len(), bin);
        inlined_images_have_no_address(images, shown.images, images.len(), rewritten.len(), bin);
        assert(items(with_images(moved, made), "images"@) == made.images);
    }
}

// Lookups that answer one name in one way.

/// Whether a lookup answers every name with the file that `files` has for it, or with nothing where
/// `files` has none.
pub open spec fn looks_up<F: FnMut(&str) -> Option<Vec<u8>>>(
    f: F,
    files: spec_fn(Seq<char>) -> Answer,
) -> bool {
    forall|name: Seq<char>, answer: Answer| #[trigger]
        answers(f, name, answer) ==> answer == files(name)
}

/// The files for a list of names.
pub open spec fn files_for(names: Seq<Seq<char>>, files: spec_fn(Seq<char>) -> Answer) -> Seq<Answer> {
    names.map_values(files)
}

proof fn buffers_need_no_more(
    list: Seq<tree::JsonTree>,
    n: nat,
    a: Seq<Answer>,
    b: Seq<Answer>,
)
    requires
        n <= list.len(),
        a.len() == buffers_asked(list, n, a),
        a.len() <= b.len(),
        forall|i: int| 0 <= i < a.len() ==> b[i] == a[i],
    ensures
        buffers_read(list, n, a) == buffers_read(list, n, b),
    decreases n,
{
    if n > 0 {
        if buffers_read(list, (n - 1) as nat, a) is Err {
            buffers_need_no_more(list, (n - 1) as nat, a, b);
        } else {
            buffers_read_is_local(list, n, a, b);
        }
    }
}

proof fn images_need_no_more(
    list: Seq<tree::JsonTree>,
    n: nat,
    a: Seq<Answer>,
    b: Seq<Answer>,
    missing: Seq<Seq<char>>,
)
    requires
        n <= list.len(),
        a.len() == images_asked(list, n, a, missing),
        a.len() <= b.len(),
        forall|i: int| 0 <= i < a.len() ==> b[i] == a[i],
    ensures
        images_read(list, n, a, missing) == images_read(list, n, b, missing),
    decreases n,
{
    if n > 0 {
        if images_read(list, (n - 1) as nat, a, missing) is Err {
            images_need_no_more(list, (n - 1) as nat, a, b, missing);
        } else {
            images_read_is_local(list, n, a, b, missing);
        }
    }
}

/// With a lookup that answers each name in one way, what packing a document gives is what its companion
/// files make of it.
pub proof fn packing_follows_the_files<F: FnMut(&str) -> Option<Vec<u8>>>(
    f: F,
    files: spec_fn(Seq<char>) -> Answer,
    doc: tree::JsonTree,
    r: Result<Vec<u8>, GltfPackError>,
)
    requires
        looks_up(f, files),
    ensures
        packs_with(f, doc, r) ==> packs(
            r,
            prepared(
                doc,
                files_for(document_buffer_asks(doc), files),
                files_for(document_image_asks(doc), files),
            ),
        ),
{
    if packs_with(f, doc, r) {
        answers_are_the_files(f, files, doc, r);
    }
}

proof fn answers_are_the_files<F: FnMut(&str) -> Option<Vec<u8>>>(
    f: F,
    files: spec_fn(Seq<char>) -> Answer,
    doc: tree::JsonTree,
    r: Result<Vec<u8>, GltfPackError>,
)
    requires
        looks_up(f, files),
        packs_with(f, doc, r),
    ensures
        packs(
            r,
            prepared(
                doc,
                files_for(document_buffer_asks(doc), files),
                files_for(document_image_asks(doc), files),
            ),
        ),
{
    let (for_buffers, for_images) = choose|for_buffers: Seq<Answer>, for_images: Seq<Answer>|
        answered(f, doc, for_buffers, for_images) && packs(
            r,
            #[trigger] prepared(doc, for_buffers, for_images),
        );
    let all_buffers = files_for(document_buffer_asks(doc), files);
    let all_images = files_for(document_image_asks(doc), files);
    let buffers = items(doc, "buffers"@);
    let images = items(doc, "images"@);
    assert forall|i: int| 0 <= i < for_buffers.len() implies all_buffers[i] == for_buffers[i] by {
        assert(answers(f, document_buffer_asks(doc)[i], for_buffers[i]));
    }
    assert forall|i: int| 0 <= i < for_images.len() implies all_images[i] == for_images[i] by {
        assert(answers(f, document_image_asks(doc)[i], for_images[i]));
    }
    buffers_need_no_more(buffers, buffers.len(), for_buffers, all_buffers);
    if !holds_no_list(doc, "buffers"@) {
        if let Ok(read) = buffers_read(buffers, buffers.len(), for_buffers) {
            images_need_no_more(images, images.len(), for_images, all_images, read.missing);
        }
    }
}

/// What a result of packing holds.
pub open spec fn result_view(r: Result<Vec<u8>, GltfPackError>) -> Result<Seq<u8>, PackFailure> {
    match r {
        Ok(file) => Ok(file@),
        Err(e) => Err(e@),
    }
}

/// The same document packed twice with the same companion files gives the same file, or fails in the
/// same way.
pub proof fn packing_is_deterministic<
    F: FnMut(&str) -> Option<Vec<u8>>,
    G: FnMut(&str) -> Option<Vec<u8>>,
>(
    f: F,
    g: G,
    files: spec_fn(Seq<char>) -> Answer,
    doc: tree::JsonTree,
    first: Result<Vec<u8>, GltfPackError>,
    second: Result<Vec<u8>, GltfPackError>,
)
    requires
        looks_up(f, files),
        looks_up(g, files),
    ensures
        packs_with(f, doc, first) && packs_with(g, doc, second) ==> result_view(first)
            == result_view(second),
{
    packing_follows_the_files(f, files, doc, first);
    packing_follows_the_files(g, files, doc, second);
}

} // verus!
