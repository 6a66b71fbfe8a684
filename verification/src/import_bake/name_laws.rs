//! What holds of the names of assets, of scales and of settled notes.
use vstd::prelude::*;
use crate::json::read::FloatReadings;
use crate::native_path;
use crate::native_path::{PathStyle, PrefixKind};
use crate::quote;
use crate::remote_laws;
use crate::resource_path;
use crate::text;
use super::env;
use super::names;
use super::notes;
use super::plan;

verus! {

// Names.

/// Whether a character is an ASCII letter or digit, a dot, an underscore or a hyphen.
pub open spec fn is_harmless(c: char) -> bool {
    ('a' <= c <= 'z') || ('A' <= c <= 'Z') || ('0' <= c <= '9') || c == '.' || c == '_' || c == '-'
}

/// A safe name has harmless characters only. It keeps those of the stem where they stand, and has an
/// underscore for each other one. A safe name stays what it is.
pub proof fn safe_names_are_harmless(stem: Seq<char>)
    ensures
        names::safe_name(stem).len() > 0,
        forall|i: int|
            0 <= i < names::safe_name(stem).len() ==> is_harmless(#[trigger] names::safe_name(stem)[i]),
        stem.len() > 0 ==> names::safe_name(stem).len() == stem.len(),
        stem.len() > 0 ==> forall|i: int|
            0 <= i < stem.len() ==> #[trigger] names::safe_name(stem)[i] == (if is_harmless(stem[i]) {
                stem[i]
            } else {
                '_'
            }),
        names::safe_name(names::safe_name(stem)) == names::safe_name(stem),
{
    reveal_strlit("mesh");
    let safe = names::safe_name(stem);
    assert forall|c: char| names::is_name_char(c) == #[trigger] is_harmless(c) by {
    }
    assert forall|i: int| 0 <= i < safe.len() implies is_harmless(#[trigger] safe[i]) by {
        if stem.len() > 0 {
            assert(is_harmless(stem[i]) || safe[i] == '_');
        }
    }
    assert(names::safe_name(safe) =~= safe);
}

/// The name of a file is parted at its last dot, but for a dot at the front.
pub proof fn names_part_at_the_last_dot(stem: Seq<char>, ext: Seq<char>)
    requires
        !ext.contains('.'),
    ensures
        stem.len() > 0 ==> names::name_stem(stem + seq!['.'] + ext) == stem,
        stem.len() > 0 ==> names::name_extension(stem + seq!['.'] + ext) == ext,
        names::name_stem(seq!['.'] + ext) == seq!['.'] + ext,
        names::name_extension(seq!['.'] + ext) == Seq::<char>::empty(),
        names::name_stem(ext) == ext,
        names::name_extension(ext) == Seq::<char>::empty(),
{
    let name = stem + seq!['.'] + ext;
    remote_laws::after_the_last_dot(stem, ext);
    remote_laws::after_the_last_dot(Seq::empty(), ext);
    remote_laws::without_a_dot(ext);
    assert(Seq::<char>::empty() + seq!['.'] + ext =~= seq!['.'] + ext);
    if stem.len() > 0 {
        assert(name.take(name.len() - ext.len() - 1) =~= stem);
    }
}

proof fn piece_by_piece(directory: Seq<char>, name: Seq<char>, cut: spec_fn(char) -> bool)
    requires
        directory.len() > 0 ==> cut(directory.last()),
        forall|i: int| 0 <= i < name.len() ==> !cut(#[trigger] name[i]),
    ensures
        native_path::pieces(directory + name, cut).len() > 0,
        native_path::pieces(directory + name, cut).last() == name,
    decreases directory.len(),
{
    let whole = directory + name;
    let at = resource_path::first_place(whole, cut);
    resource_path::first_place_bounds(whole, cut);
    if directory.len() == 0 {
        assert(whole =~= name);
        if at < whole.len() {
            assert(!cut(name[at as int]));
        }
    } else {
        let last = directory.len() - 1;
        assert(whole[last] == directory.last());
        assert(at <= last) by {
            if at > last {
                assert(!cut(whole[last]));
            }
        }
        let rest = directory.skip(at as int + 1);
        assert(whole.skip(at as int + 1) =~= rest + name);
        if rest.len() > 0 {
            assert(rest.last() == directory.last());
        }
        piece_by_piece(rest, name, cut);
    }
}

/// On Unix the name of a file is what follows the last slash of its path.
pub proof fn the_file_is_behind_the_last_slash(directory: Seq<char>, name: Seq<char>)
    requires
        directory.len() > 0 ==> directory.last() == '/',
        !name.contains('/'),
        name != ""@,
        name != "."@,
        name != ".."@,
    ensures
        names::file_name(PathStyle::Unix, directory + name) == name,
{
    let path = directory + name;
    let cut = native_path::splits(PathStyle::Unix, PrefixKind::Nothing);
    assert(path.skip(0) =~= path);
    assert forall|i: int| 0 <= i < name.len() implies !cut(#[trigger] name[i]) by {
        assert(name.contains(name[i]));
    }
    piece_by_piece(directory, name, cut);
}

/// The name of an asset has the stem, the first twelve characters of the digest without the name of its
/// algorithm, and the extension.
pub proof fn asset_names_show_the_digest(
    stem: Seq<char>,
    algorithm: Seq<char>,
    digest: Seq<char>,
    ext: Seq<char>,
)
    requires
        !algorithm.contains(':'),
        vstd::utf8::is_ascii_chars(digest),
        digest.len() >= 12,
    ensures
        names::asset_file(stem, algorithm + seq![':'] + digest, ext) == stem + seq!['_'] + digest.take(
            12,
        ) + seq!['.'] + ext,
{
    reveal_strlit("_");
    reveal_strlit(".");
    remote_laws::the_algorithm_is_left_out(algorithm, digest);
    names::short_digest_of_ascii(digest);
    assert("_"@ =~= seq!['_']);
    assert("."@ =~= seq!['.']);
    assert(digest.take(digest.len() as int) =~= digest);
}

/// The address of an asset is its name where there is no prefix, and else the prefix, one slash and the
/// name, however many slashes the prefix ends in.
pub proof fn addresses_have_one_slash(prefix: Seq<char>, slashes: nat, name: Seq<char>)
    requires
        prefix.len() > 0,
        prefix.last() != '/',
        prefix != "."@,
    ensures
        env::asset_uri(prefix + Seq::new(slashes, |i: int| '/'), name) == prefix + seq!['/'] + name,
        env::asset_uri(""@, name) == name,
        env::asset_uri("."@, name) == name,
{
    reveal_strlit("/");
    reveal_strlit(".");
    reveal_strlit("");
    slashes_go(prefix, slashes);
    let whole = prefix + Seq::new(slashes, |i: int| '/');
    assert(whole[0] == prefix[0]);
    if whole == "."@ {
        assert(whole.len() == 1);
        assert(prefix =~= whole);
    }
    assert("/"@ =~= seq!['/']);
}

proof fn slashes_go(prefix: Seq<char>, slashes: nat)
    requires
        prefix.len() > 0,
        prefix.last() != '/',
    ensures
        env::without_slashes(prefix + Seq::new(slashes, |i: int| '/')) == prefix,
    decreases slashes,
{
    let whole = prefix + Seq::new(slashes, |i: int| '/');
    if slashes == 0 {
        assert(whole =~= prefix);
    } else {
        slashes_go(prefix, (slashes - 1) as nat);
        assert(whole.last() == '/');
        assert(whole.drop_last() =~= prefix + Seq::new((slashes - 1) as nat, |i: int| '/'));
    }
}

// Scales.

proof fn words_behind_blanks(blanks: Seq<char>, rest: Seq<char>)
    requires
        text::is_blank(blanks),
    ensures
        plan::words(blanks + rest) == plan::words(rest),
    decreases blanks.len(),
{
    if blanks.len() == 0 {
        assert(blanks + rest =~= rest);
    } else {
        assert((blanks + rest)[0] == blanks[0]);
        assert(text::is_whitespace(blanks[0]));
        words_behind_blanks(blanks.drop_first(), rest);
        assert((blanks + rest).drop_first() =~= blanks.drop_first() + rest);
    }
}

/// Whether a text is a word: it is not empty and has no white space.
pub open spec fn is_word(word: Seq<char>) -> bool {
    word.len() > 0 && forall|i: int| 0 <= i < word.len() ==> !text::is_whitespace(#[trigger] word[i])
}

/// The words of a text are found one after the other, whatever white space stands between them.
pub proof fn words_come_one_by_one(blanks: Seq<char>, word: Seq<char>, rest: Seq<char>)
    requires
        text::is_blank(blanks),
        is_word(word),
        rest.len() > 0 ==> text::is_whitespace(rest[0]),
    ensures
        plan::words(blanks) == Seq::<Seq<char>>::empty(),
        plan::words(blanks + (word + rest)) == seq![word] + plan::words(rest),
{
    let whole = word + rest;
    let stop = |c: char| text::is_whitespace(c);
    words_behind_blanks(blanks, Seq::empty());
    assert(blanks + Seq::<char>::empty() =~= blanks);
    assert(plan::words(Seq::<char>::empty()) =~= Seq::empty());
    words_behind_blanks(blanks, whole);
    assert(whole[0] == word[0]);
    assert forall|k: int| 0 <= k < word.len() implies !stop(#[trigger] whole[k]) by {
        assert(whole[k] == word[k]);
    }
    assert(word.len() < whole.len() ==> whole[word.len() as int] == rest[0]);
    resource_path::first_place_is(whole, stop, word.len() as int);
    assert(whole.take(word.len() as int) =~= word);
    assert(whole.skip(word.len() as int) =~= rest);
}

/// Whether a word reads as a number that counts as one.
pub open spec fn reads_as_one(readings: FloatReadings, word: Seq<char>) -> bool {
    readings(word) matches Some(f) && plan::is_unit(f)
}

/// Whether a word reads as a number that does not count as one.
pub open spec fn reads_as_other(readings: FloatReadings, word: Seq<char>) -> bool {
    readings(word) matches Some(f) && !plan::is_unit(f)
}

proof fn numbers_of_words(readings: FloatReadings, list: Seq<Seq<char>>, n: nat)
    requires
        n <= list.len(),
    ensures
        plan::numbers_in(readings, list, n).len() > 0 <==> exists|i: int|
            0 <= i < n && readings(#[trigger] list[i]) is Some,
        plan::all_units(plan::numbers_in(readings, list, n)) <==> forall|i: int|
            0 <= i < n ==> !reads_as_other(readings, #[trigger] list[i]),
    decreases n,
{
    if n > 0 {
        let m = (n - 1) as nat;
        let before = plan::numbers_in(readings, list, m);
        let after = plan::numbers_in(readings, list, n);
        numbers_of_words(readings, list, m);
        if before.len() > 0 {
            let i = choose|i: int| 0 <= i < m && readings(#[trigger] list[i]) is Some;
            assert(readings(list[i]) is Some);
        }
        if readings(list[n - 1]) is Some {
            let f = readings(list[n - 1])->0;
            assert(after == before.push(f));
            assert(after.last() == f);
            assert forall|k: int| 0 <= k < before.len() implies #[trigger] after[k] == before[k] by {
            }
            if plan::all_units(after) {
                assert(plan::is_unit(after[before.len() as int]));
                assert forall|k: int| 0 <= k < before.len() implies plan::is_unit(
                    #[trigger] before[k],
                ) by {
                    assert(plan::is_unit(after[k]));
                }
                assert forall|i: int| 0 <= i < n implies !reads_as_other(
                    readings,
                    #[trigger] list[i],
                ) by {
                }
            }
            if forall|i: int| 0 <= i < n ==> !reads_as_other(readings, #[trigger] list[i]) {
                assert(!reads_as_other(readings, list[n - 1]));
                assert forall|i: int| 0 <= i < m implies !reads_as_other(
                    readings,
                    #[trigger] list[i],
                ) by {
                }
                assert forall|k: int| 0 <= k < after.len() implies plan::is_unit(
                    #[trigger] after[k],
                ) by {
                    if k < before.len() {
                        assert(plan::is_unit(before[k]));
                    }
                }
            }
        } else {
            assert(after == before);
            assert(!reads_as_other(readings, list[n - 1]));
        }
    }
}

/// A scale changes nothing exactly where it is missing or blank, or has a number among its words and no
/// number that does not count as one.
pub proof fn which_scales_change_nothing(readings: FloatReadings, scale: Seq<char>)
    ensures
        plan::is_identity_scale(readings, None),
        plan::is_identity_scale(readings, Some(scale)) <==> text::is_blank(scale) || ((exists|i: int|
            0 <= i < plan::words(scale).len() && readings(#[trigger] plan::words(scale)[i]) is Some)
            && forall|i: int|
            0 <= i < plan::words(scale).len() ==> !reads_as_other(
                readings,
                #[trigger] plan::words(scale)[i],
            )),
{
    numbers_of_words(readings, plan::words(scale), plan::words(scale).len());
}

// Notes.

proof fn part_is_held(before: Seq<char>, part: Seq<char>, after: Seq<char>)
    ensures
        text::holds(before + part + after, part),
{
    let whole = before + part + after;
    let at = before.len() as int;
    assert(whole.subrange(at, at + part.len()) =~= part);
    assert(text::stands_at(whole, part, at));
}

/// A note that speaks of a visual and its component, and says that the appearance is left to the asset, is
/// settled once the visual has an asset. A note that does not say so is never settled.
pub proof fn which_notes_are_settled(
    before: Seq<char>,
    comp: Seq<char>,
    visual: Seq<char>,
    between: Seq<char>,
    after: Seq<char>,
    baked: Seq<(Seq<char>, Seq<char>)>,
    note: Seq<char>,
)
    requires
        baked.contains((comp, visual)),
    ensures
        notes::is_consumed(
            before + (quote::quoted(comp) + " visual "@ + quote::quoted(visual)) + (between
                + "not applied (bake the GLB"@ + after),
            baked,
        ),
        notes::is_consumed(
            before + (quote::quoted(comp) + " visual "@ + quote::quoted(visual)) + (between
                + "carried on the asset side-channel"@ + after),
            baked,
        ),
        !text::holds(note, "not applied (bake the GLB"@) && !text::holds(
            note,
            "carried on the asset side-channel"@,
        ) ==> !notes::is_consumed(note, baked),
{
    let who = quote::quoted(comp) + " visual "@ + quote::quoted(visual);
    let i = baked.index_of((comp, visual));
    assert(baked[i] == (comp, visual));
    let first = between + "not applied (bake the GLB"@ + after;
    let second = between + "carried on the asset side-channel"@ + after;
    part_is_held(before, who, first);
    part_is_held(before, who, second);
    part_is_held(before + who + between, "not applied (bake the GLB"@, after);
    part_is_held(before + who + between, "carried on the asset side-channel"@, after);
    assert(before + who + between + "not applied (bake the GLB"@ + after =~= before + who + first);
    assert(before + who + between + "carried on the asset side-channel"@ + after =~= before + who
        + second);
    assert(notes::names_both(before + who + first, baked[i]));
    assert(notes::names_both(before + who + second, baked[i]));
}

} // verus!
