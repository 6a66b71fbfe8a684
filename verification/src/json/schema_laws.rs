//! What the types of a schema have, and what the shape of its declarations leaves open.
use vstd::prelude::*;
use super::dom;
use super::schema;
use super::schema::{ChildType, XsdView};

verus! {

// Extended types.

/// Whether the last pair with a key has this value.
pub open spec fn says_last(pairs: Seq<dom::Pair>, key: Seq<char>, value: Seq<char>) -> bool {
    exists|i: int|
        0 <= i < pairs.len() && #[trigger] pairs[i] == (key, value) && forall|j: int|
            i < j < pairs.len() ==> (#[trigger] pairs[j]).0 != key
}

/// Whether the last declaration of a child in a type gives it this type.
pub open spec fn declares_last(
    children: Seq<ChildType>,
    owner: Seq<char>,
    tag: Seq<char>,
    kind: Seq<char>,
) -> bool {
    exists|i: int|
        0 <= i < children.len() && #[trigger] children[i] == (owner, tag, kind) && forall|j: int|
            i < j < children.len() ==> !((#[trigger] children[j]).0 == owner && children[j].1 == tag)
}

/// Whether a type extends another in a number of steps.
pub open spec fn extends(
    bases: Seq<dom::Pair>,
    owner: Seq<char>,
    ancestor: Seq<char>,
    steps: nat,
) -> bool
    decreases steps,
{
    if steps == 0 {
        owner == ancestor
    } else {
        exists|base: Seq<char>|
            #[trigger] says_last(bases, owner, base) && extends(
                bases,
                base,
                ancestor,
                (steps - 1) as nat,
            )
    }
}

proof fn the_last_pair_counts(pairs: Seq<dom::Pair>, key: Seq<char>, value: Seq<char>)
    ensures
        schema::last_value(pairs, key) == Some(value) <==> says_last(pairs, key, value),
    decreases pairs.len(),
{
    if pairs.len() > 0 {
        let front = pairs.drop_last();
        let last = pairs.len() - 1;
        the_last_pair_counts(front, key, value);
        if pairs.last().0 == key {
            if pairs.last().1 == value {
                assert(pairs[last] == (key, value));
            }
            if says_last(pairs, key, value) {
                let i = choose|i: int|
                    0 <= i < pairs.len() && #[trigger] pairs[i] == (key, value) && forall|j: int|
                        i < j < pairs.len() ==> (#[trigger] pairs[j]).0 != key;
                if i < last {
                    assert(pairs[last].0 != key);
                }
            }
        } else {
            if says_last(front, key, value) {
                let i = choose|i: int|
                    0 <= i < front.len() && #[trigger] front[i] == (key, value) && forall|j: int|
                        i < j < front.len() ==> (#[trigger] front[j]).0 != key;
                assert(pairs[i] == (key, value));
                assert forall|j: int| i < j < pairs.len() implies (#[trigger] pairs[j]).0 != key by {
                    if j < last {
                        assert(front[j] == pairs[j]);
                    }
                }
            }
            if says_last(pairs, key, value) {
                let i = choose|i: int|
                    0 <= i < pairs.len() && #[trigger] pairs[i] == (key, value) && forall|j: int|
                        i < j < pairs.len() ==> (#[trigger] pairs[j]).0 != key;
                assert(i < last);
                assert(front[i] == (key, value));
                assert forall|j: int| i < j < front.len() implies (#[trigger] front[j]).0 != key by {
                    assert(front[j] == pairs[j]);
                }
            }
        }
    }
}

proof fn the_last_child_counts(
    children: Seq<ChildType>,
    owner: Seq<char>,
    tag: Seq<char>,
    kind: Seq<char>,
)
    ensures
        schema::declared_child(children, owner, tag) == Some(kind) <==> declares_last(
            children,
            owner,
            tag,
            kind,
        ),
    decreases children.len(),
{
    if children.len() > 0 {
        let front = children.drop_last();
        let last = children.len() - 1;
        the_last_child_counts(front, owner, tag, kind);
        if children.last().0 == owner && children.last().1 == tag {
            if children.last().2 == kind {
                assert(children[last] == (owner, tag, kind));
            }
            if declares_last(children, owner, tag, kind) {
                let i = choose|i: int|
                    0 <= i < children.len() && #[trigger] children[i] == (owner, tag, kind)
                        && forall|j: int|
                        i < j < children.len() ==> !((#[trigger] children[j]).0 == owner
                            && children[j].1 == tag);
                if i < last {
                    assert(!(children[last].0 == owner && children[last].1 == tag));
                }
            }
        } else {
            if declares_last(front, owner, tag, kind) {
                let i = choose|i: int|
                    0 <= i < front.len() && #[trigger] front[i] == (owner, tag, kind) && forall|j: int|
                        i < j < front.len() ==> !((#[trigger] front[j]).0 == owner && front[j].1 == tag);
                assert(children[i] == (owner, tag, kind));
                assert forall|j: int| i < j < children.len() implies !((#[trigger] children[j]).0
                    == owner && children[j].1 == tag) by {
                    if j < last {
                        assert(front[j] == children[j]);
                    }
                }
            }
            if declares_last(children, owner, tag, kind) {
                let i = choose|i: int|
                    0 <= i < children.len() && #[trigger] children[i] == (owner, tag, kind)
                        && forall|j: int|
                        i < j < children.len() ==> !((#[trigger] children[j]).0 == owner
                            && children[j].1 == tag);
                assert(i < last);
                assert(front[i] == (owner, tag, kind));
                assert forall|j: int| i < j < front.len() implies !((#[trigger] front[j]).0 == owner
                    && front[j].1 == tag) by {
                    assert(front[j] == children[j]);
                }
            }
        }
    }
}

proof fn which_attributes_are_declared(attrs: Seq<dom::Pair>, owner: Seq<char>, name: Seq<char>)
    ensures
        schema::declared_attrs(attrs, owner).contains(name) <==> attrs.contains((owner, name)),
    decreases attrs.len(),
{
    if attrs.len() > 0 {
        let front = attrs.drop_last();
        let own = schema::declared_attrs(front, owner);
        let pair = (owner, name);
        which_attributes_are_declared(front, owner, name);
        if attrs.contains(pair) {
            let i = choose|i: int| 0 <= i < attrs.len() && attrs[i] == pair;
            if i < front.len() {
                assert(front[i] == pair);
            }
        }
        if front.contains(pair) {
            let i = choose|i: int| 0 <= i < front.len() && front[i] == pair;
            assert(attrs[i] == pair);
        }
        if attrs.last().0 == owner {
            let all = own.push(attrs.last().1);
            assert(all[own.len() as int] == attrs.last().1);
            assert(attrs[attrs.len() - 1] == attrs.last());
            if own.contains(name) {
                let i = choose|i: int| 0 <= i < own.len() && own[i] == name;
                assert(all[i] == name);
            }
            if all.contains(name) {
                let i = choose|i: int| 0 <= i < all.len() && all[i] == name;
                if i < own.len() {
                    assert(own[i] == name);
                }
            }
        }
    }
}

/// A type has an attribute exactly where it declares the attribute, or one of the next types that it
/// extends does.
pub proof fn which_attributes_a_type_has(
    info: XsdView,
    owner: Seq<char>,
    name: Seq<char>,
    steps: nat,
)
    ensures
        schema::attrs_within(info, owner, steps).contains(name) <==> (exists|
            ancestor: Seq<char>,
            k: nat,
        |
            k <= steps && #[trigger] extends(info.bases, owner, ancestor, k) && info.attrs.contains(
                (ancestor, name),
            )),
    decreases steps,
{
    let own = schema::declared_attrs(info.attrs, owner);
    let all = schema::attrs_within(info, owner, steps);
    which_attributes_are_declared(info.attrs, owner, name);
    if own.contains(name) {
        let i = choose|i: int| 0 <= i < own.len() && own[i] == name;
        assert(all[i] == name);
        assert(extends(info.bases, owner, owner, 0));
    }
    match schema::last_value(info.bases, owner) {
        Some(base) => {
            the_last_pair_counts(info.bases, owner, base);
            if steps > 0 {
                let rest = schema::attrs_within(info, base, (steps - 1) as nat);
                which_attributes_a_type_has(info, base, name, (steps - 1) as nat);
                if rest.contains(name) {
                    let i = choose|i: int| 0 <= i < rest.len() && rest[i] == name;
                    assert(all[own.len() + i] == name);
                    let (ancestor, k) = choose|ancestor: Seq<char>, k: nat|
                        k <= steps - 1 && #[trigger] extends(info.bases, base, ancestor, k)
                            && info.attrs.contains((ancestor, name));
                    assert(extends(info.bases, owner, ancestor, k + 1)) by {
                        assert(says_last(info.bases, owner, base));
                        assert(((k + 1) - 1) as nat == k);
                    }
                }
                if all.contains(name) {
                    let i = choose|i: int| 0 <= i < all.len() && all[i] == name;
                    if i < own.len() {
                        assert(own[i] == name);
                    } else {
                        assert(rest[i - own.len()] == name);
                    }
                }
            }
        },
        None => {},
    }
    if exists|ancestor: Seq<char>, k: nat|
        k <= steps && #[trigger] extends(info.bases, owner, ancestor, k) && info.attrs.contains(
            (ancestor, name),
        ) {
        let (ancestor, k) = choose|ancestor: Seq<char>, k: nat|
            k <= steps && #[trigger] extends(info.bases, owner, ancestor, k) && info.attrs.contains(
                (ancestor, name),
            );
        if k > 0 {
            let base = choose|base: Seq<char>|
                #[trigger] says_last(info.bases, owner, base) && extends(
                    info.bases,
                    base,
                    ancestor,
                    (k - 1) as nat,
                );
            the_last_pair_counts(info.bases, owner, base);
            assert(extends(info.bases, base, ancestor, (k - 1) as nat));
        }
    }
}

/// A child has in a type the type that its last declaration there gives it; where it has none there,
/// the type that it has in the type that is extended.
pub proof fn which_type_a_child_has(
    info: XsdView,
    owner: Seq<char>,
    base: Seq<char>,
    tag: Seq<char>,
    kind: Seq<char>,
    steps: nat,
)
    ensures
        declares_last(info.children, owner, tag, kind) ==> schema::child_type_within(
            info,
            owner,
            tag,
            steps,
        ) == Some(kind),
        schema::declared_child(info.children, owner, tag) is None && says_last(
            info.bases,
            owner,
            base,
        ) ==> schema::child_type_within(info, owner, tag, steps + 1) == schema::child_type_within(
            info,
            base,
            tag,
            steps,
        ),
        schema::child_type_within(info, owner, tag, steps) == Some(kind) ==> exists|
            ancestor: Seq<char>,
            k: nat,
        |
            k <= steps && #[trigger] extends(info.bases, owner, ancestor, k) && declares_last(
                info.children,
                ancestor,
                tag,
                kind,
            ),
    decreases steps,
{
    the_last_child_counts(info.children, owner, tag, kind);
    the_last_pair_counts(info.bases, owner, base);
    if schema::child_type_within(info, owner, tag, steps) == Some(kind) {
        if schema::declared_child(info.children, owner, tag) is Some {
            assert(extends(info.bases, owner, owner, 0));
        } else {
            let next = schema::last_value(info.bases, owner)->0;
            the_last_pair_counts(info.bases, owner, next);
            which_type_a_child_has(info, next, base, tag, kind, (steps - 1) as nat);
            let (ancestor, k) = choose|ancestor: Seq<char>, k: nat|
                k <= steps - 1 && #[trigger] extends(info.bases, next, ancestor, k) && declares_last(
                    info.children,
                    ancestor,
                    tag,
                    kind,
                );
            assert(extends(info.bases, owner, ancestor, k + 1)) by {
                assert(says_last(info.bases, owner, next));
                assert(((k + 1) - 1) as nat == k);
            }
        }
    }
}

// Content models.

proof fn what_comes_first_is_read_first(
    a: Seq<dom::DomView>,
    b: Seq<dom::DomView>,
    n: nat,
    owner: Seq<char>,
    info: XsdView,
)
    requires
        n <= b.len(),
    ensures
        schema::content_collected(a + b, a.len() + n, owner, info) == schema::content_collected(
            b,
            n,
            owner,
            schema::content_collected(a, a.len(), owner, info),
        ),
    decreases n,
{
    if n == 0 {
        the_front_is_read_alone(a, b, a.len(), owner, info);
    } else {
        what_comes_first_is_read_first(a, b, (n - 1) as nat, owner, info);
        assert((a + b)[a.len() + n - 1] == b[n - 1]);
    }
}

proof fn the_front_is_read_alone(
    a: Seq<dom::DomView>,
    b: Seq<dom::DomView>,
    n: nat,
    owner: Seq<char>,
    info: XsdView,
)
    requires
        n <= a.len(),
    ensures
        schema::content_collected(a + b, n, owner, info) == schema::content_collected(a, n, owner, info),
    decreases n,
{
    if n > 0 {
        the_front_is_read_alone(a, b, (n - 1) as nat, owner, info);
        assert((a + b)[n - 1] == a[n - 1]);
    }
}

/// The members of a content model declare the same whether they stand alone, or together in a
/// sequence, a choice or an all group.
pub proof fn groups_declare_their_members(
    before: Seq<dom::DomView>,
    group: dom::DomView,
    owner: Seq<char>,
    info: XsdView,
)
    requires
        group.name == "sequence"@ || group.name == "choice"@ || group.name == "all"@,
    ensures
        schema::content_collected(before.push(group), before.len() + 1, owner, info)
            == schema::content_collected(
            before + group.children,
            before.len() + group.children.len(),
            owner,
            info,
        ),
{
    reveal_strlit("sequence");
    reveal_strlit("choice");
    reveal_strlit("all");
    reveal_strlit("attribute");
    reveal_strlit("element");
    let whole = before.push(group);
    assert(whole =~= before + seq![group]);
    the_front_is_read_alone(before, seq![group], before.len(), owner, info);
    what_comes_first_is_read_first(before, group.children, group.children.len(), owner, info);
    assert(whole[before.len() as int] == group);
    assert("sequence"@ != "attribute"@ && "sequence"@ != "element"@) by {
        assert("sequence"@.len() == 8 && "attribute"@.len() == 9 && "element"@.len() == 7);
    }
    assert("choice"@ != "attribute"@ && "choice"@ != "element"@) by {
        assert("choice"@.len() == 6 && "attribute"@.len() == 9 && "element"@.len() == 7);
    }
    assert("all"@ != "attribute"@ && "all"@ != "element"@) by {
        assert("all"@.len() == 3 && "attribute"@.len() == 9 && "element"@.len() == 7);
    }
    let read = schema::content_collected(before, before.len(), owner, info);
    assert(schema::member_collected(group, owner, read) == schema::content_collected(
        group.children,
        group.children.len(),
        owner,
        read,
    )) by {
        reveal_with_fuel(schema::member_collected, 2);
    }
}

} // verus!
