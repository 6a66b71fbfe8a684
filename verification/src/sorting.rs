//! Texts in ascending order, and texts joined.
use vstd::prelude::*;
use crate::order;
use crate::order::{Standing, compare_ranks, push_word};
use crate::text;

verus! {

/// The code points of a text.
pub open spec fn codes(text: Seq<char>) -> Seq<int> {
    text.map_values(|c: char| c as int)
}

/// Whether one text comes before another: by the first character that differs, a shorter text
/// before those that it begins.
pub open spec fn comes_before(a: Seq<char>, b: Seq<char>) -> bool {
    order::lex_less(codes(a), codes(b))
}

/// No text comes before itself, of two different texts one comes before the other, and what comes
/// before an earlier text comes before the later ones too.
pub proof fn texts_are_ordered(a: Seq<char>, b: Seq<char>, c: Seq<char>)
    ensures
        !comes_before(a, a),
        a == b || comes_before(a, b) || comes_before(b, a),
        comes_before(a, b) && comes_before(b, c) ==> comes_before(a, c),
{
    order::lex_less_is_irreflexive(codes(a));
    order::lex_less_is_total(codes(a), codes(b));
    if codes(a) == codes(b) {
        assert(codes(a).len() == a.len() && codes(b).len() == b.len());
        assert forall|i: int| 0 <= i < a.len() implies a[i] == b[i] by {
            assert(codes(a)[i] == a[i] as int && codes(b)[i] == b[i] as int);
        }
        assert(a =~= b);
    }
    if comes_before(a, b) && comes_before(b, c) {
        order::lex_less_is_transitive(codes(a), codes(b), codes(c));
    }
}

fn code_words(text: &str) -> (r: Vec<u32>)
    ensures
        order::ints(r@) == codes(text@),
{
    let cs = text::chars(text);
    let mut out: Vec<u32> = Vec::new();
    let mut i: usize = 0;
    assert(order::ints(out@) =~= codes(text@).take(0));
    while i < cs.len()
        invariant
            i <= cs@.len(),
            cs@ == text@,
            order::ints(out@) == codes(text@).take(i as int),
        decreases cs@.len() - i,
    {
        let ghost had = order::ints(out@);
        let word = text::code(cs[i]);
        push_word(&mut out, word);
        assert(codes(text@).take(i + 1) =~= codes(text@).take(i as int).push(word as int));
        i += 1;
    }
    assert(codes(text@).take(text@.len() as int) =~= codes(text@));
    out
}

/// Whether one text comes before another.
pub fn is_before(a: &str, b: &str) -> (r: bool)
    ensures
        r == comes_before(a@, b@),
{
    let x = code_words(a);
    let y = code_words(b);
    match compare_ranks(&x, &y) {
        Standing::Before => true,
        Standing::Same => {
            proof {
                order::lex_less_is_irreflexive(codes(a@));
            }
            false
        },
        Standing::After => {
            proof {
                if comes_before(a@, b@) {
                    order::lex_less_is_transitive(codes(a@), codes(b@), codes(a@));
                    order::lex_less_is_irreflexive(codes(a@));
                }
            }
            false
        },
    }
}

/// A list with a text put before the last ones that come after it.
pub open spec fn inserted(list: Seq<Seq<char>>, item: Seq<char>) -> Seq<Seq<char>>
    decreases list.len(),
{
    if list.len() > 0 && comes_before(item, list.last()) {
        inserted(list.drop_last(), item).push(list.last())
    } else {
        list.push(item)
    }
}

/// The texts of a list in ascending order.
pub open spec fn sorted(list: Seq<Seq<char>>) -> Seq<Seq<char>>
    decreases list.len(),
{
    if list.len() == 0 {
        list
    } else {
        inserted(sorted(list.drop_last()), list.last())
    }
}

/// Whether no text of a list comes before an earlier one.
pub open spec fn is_ascending(list: Seq<Seq<char>>) -> bool {
    forall|i: int, j: int|
        0 <= i < j < list.len() ==> !comes_before(#[trigger] list[j], #[trigger] list[i])
}

proof fn inserted_keeps(list: Seq<Seq<char>>, item: Seq<char>)
    requires
        is_ascending(list),
    ensures
        is_ascending(inserted(list, item)),
        inserted(list, item).to_multiset() == list.to_multiset().insert(item),
        inserted(list, item).len() == list.len() + 1,
        forall|k: int|
            0 <= k < inserted(list, item).len() ==> (#[trigger] inserted(list, item)[k] == item
                || list.contains(inserted(list, item)[k])),
    decreases list.len(),
{
    broadcast use vstd::seq_lib::group_to_multiset_ensures;

    let out = inserted(list, item);
    if list.len() > 0 && comes_before(item, list.last()) {
        let rest = list.drop_last();
        assert(is_ascending(rest)) by {
            assert forall|i: int, j: int| 0 <= i < j < rest.len() implies !comes_before(
                #[trigger] rest[j],
                #[trigger] rest[i],
            ) by {
                assert(!comes_before(list[j], list[i]));
            }
        }
        inserted_keeps(rest, item);
        let inner = inserted(rest, item);
        assert(rest.push(list.last()) =~= list);
        assert forall|i: int, j: int| 0 <= i < j < out.len() implies !comes_before(
            #[trigger] out[j],
            #[trigger] out[i],
        ) by {
            if j == out.len() - 1 {
                assert(out[i] == inner[i]);
                if out[i] == item {
                    if comes_before(list.last(), item) {
                        order::lex_less_is_transitive(
                            codes(item),
                            codes(list.last()),
                            codes(item),
                        );
                        order::lex_less_is_irreflexive(codes(item));
                    }
                } else {
                    let k = choose|k: int| 0 <= k < rest.len() && rest[k] == out[i];
                    assert(rest.contains(inner[i]));
                    assert(!comes_before(list[list.len() - 1], list[k]));
                }
            } else {
                assert(out[i] == inner[i] && out[j] == inner[j]);
            }
        }
        assert forall|k: int| 0 <= k < out.len() implies (#[trigger] out[k] == item
            || list.contains(out[k])) by {
            if k < inner.len() {
                assert(out[k] == inner[k]);
                if inner[k] != item {
                    assert(rest.contains(inner[k]));
                    let m = choose|m: int| 0 <= m < rest.len() && rest[m] == inner[k];
                    assert(list[m] == out[k]);
                }
            } else {
                assert(out[k] == list[list.len() - 1]);
            }
        }
    } else {
        assert forall|i: int, j: int| 0 <= i < j < out.len() implies !comes_before(
            #[trigger] out[j],
            #[trigger] out[i],
        ) by {
            if j == list.len() && i < list.len() - 1 {
                // The last text of the list does not come before the one at `i`, nor the new one
                // before the last.
                assert(!comes_before(list[list.len() - 1], list[i]));
                if comes_before(item, list[i]) {
                    order::lex_less_is_total(codes(list[i]), codes(list.last()));
                    if comes_before(list[i], list.last()) {
                        order::lex_less_is_transitive(
                            codes(item),
                            codes(list[i]),
                            codes(list.last()),
                        );
                    }
                }
            } else if j < list.len() {
                assert(!comes_before(list[j], list[i]));
            }
        }
        assert forall|k: int| 0 <= k < out.len() implies (#[trigger] out[k] == item
            || list.contains(out[k])) by {
            if k < list.len() {
                assert(out[k] == list[k]);
            }
        }
    }
}

/// Sorting keeps every text as often as it occurs and puts none before one that it follows.
pub proof fn sorted_is_ascending_and_complete(list: Seq<Seq<char>>)
    ensures
        is_ascending(sorted(list)),
        sorted(list).to_multiset() == list.to_multiset(),
        sorted(list).len() == list.len(),
    decreases list.len(),
{
    broadcast use vstd::seq_lib::group_to_multiset_ensures;

    if list.len() > 0 {
        sorted_is_ascending_and_complete(list.drop_last());
        inserted_keeps(sorted(list.drop_last()), list.last());
        assert(list.drop_last().push(list.last()) =~= list);
    }
}

proof fn inserted_at(list: Seq<Seq<char>>, item: Seq<char>, at: int)
    requires
        0 <= at <= list.len(),
        at > 0 ==> !comes_before(item, list[at - 1]),
        forall|k: int| at <= k < list.len() ==> comes_before(item, #[trigger] list[k]),
    ensures
        inserted(list, item) == list.insert(at, item),
    decreases list.len(),
{
    if at == list.len() {
        assert(list.insert(at, item) =~= list.push(item));
    } else {
        assert(comes_before(item, list[list.len() - 1]));
        let rest = list.drop_last();
        assert forall|k: int| at <= k < rest.len() implies comes_before(item, #[trigger] rest[k]) by {
            assert(comes_before(item, list[k]));
        }
        inserted_at(rest, item, at);
        assert(list.insert(at, item) =~= rest.insert(at, item).push(list.last()));
    }
}

/// What a list of texts holds.
pub open spec fn text_views(list: Seq<String>) -> Seq<Seq<char>> {
    list.map_values(|s: String| s@)
}

/// The texts of a list in ascending order.
pub fn sort_texts(list: Vec<String>) -> (r: Vec<String>)
    ensures
        text_views(r@) == sorted(text_views(list@)),
{
    let ghost all = text_views(list@);
    let mut out: Vec<String> = Vec::new();
    let mut i: usize = 0;
    assert(text_views(out@) =~= all.take(0));
    while i < list.len()
        invariant
            i <= list@.len(),
            all == text_views(list@),
            text_views(out@) == sorted(all.take(i as int)),
            out@.len() == i,
        decreases list@.len() - i,
    {
        let ghost views = text_views(out@);
        let ghost upto = all.take(i + 1);
        assert(upto.drop_last() =~= all.take(i as int));
        assert(upto.last() == list@[i as int]@);
        let mut at: usize = out.len();
        while at > 0 && is_before(list[i].as_str(), out[at - 1].as_str())
            invariant
                at <= out@.len(),
                i < list@.len(),
                views == text_views(out@),
                forall|k: int|
                    at <= k < views.len() ==> comes_before(list@[i as int]@, #[trigger] views[k]),
            decreases at,
        {
            assert(views[at - 1] == out@[at - 1]@);
            at -= 1;
        }
        proof {
            if at > 0 {
                assert(views[at - 1] == out@[at - 1]@);
            }
            inserted_at(views, list@[i as int]@, at as int);
        }
        out.insert(at, list[i].clone());
        assert(text_views(out@) =~= views.insert(at as int, list@[i as int]@));
        i += 1;
    }
    assert(all.take(all.len() as int) =~= all);
    out
}

/// The first `n` texts of a list with a separator between each two.
pub open spec fn joined(list: Seq<Seq<char>>, separator: Seq<char>, n: nat) -> Seq<char>
    decreases n,
{
    if n == 0 || n > list.len() {
        Seq::empty()
    } else if n == 1 {
        list[0]
    } else {
        joined(list, separator, (n - 1) as nat) + separator + list[n - 1]
    }
}

/// The texts of a list with a separator between each two.
pub fn join_texts(list: &Vec<String>, separator: &str) -> (r: String)
    ensures
        r@ == joined(text_views(list@), separator@, list@.len()),
{
    let ghost all = text_views(list@);
    let mut out: String = String::new();
    let mut i: usize = 0;
    assert(out@ =~= Seq::empty());
    while i < list.len()
        invariant
            i <= list@.len(),
            all == text_views(list@),
            out@ == joined(all, separator@, i as nat),
        decreases list@.len() - i,
    {
        assert(all[i as int] == list@[i as int]@);
        if i > 0 {
            out.append(separator);
        }
        out.append(list[i].as_str());
        i += 1;
        assert(out@ =~= joined(all, separator@, i as nat));
    }
    out
}

} // verus!
