//! Sets that keep their items in ascending order, over a lexicographic rank.
use vstd::prelude::*;

verus! {

/// Lexicographic order: the first difference decides, and a proper prefix comes first.
pub open spec fn lex_less(a: Seq<int>, b: Seq<int>) -> bool
    decreases a.len(),
{
    if b.len() == 0 {
        false
    } else if a.len() == 0 {
        true
    } else if a[0] != b[0] {
        a[0] < b[0]
    } else {
        lex_less(a.drop_first(), b.drop_first())
    }
}

/// No sequence comes before itself.
pub proof fn lex_less_is_irreflexive(a: Seq<int>)
    ensures
        !lex_less(a, a),
    decreases a.len(),
{
    if a.len() > 0 {
        lex_less_is_irreflexive(a.drop_first());
    }
}

/// The order is transitive.
pub proof fn lex_less_is_transitive(a: Seq<int>, b: Seq<int>, c: Seq<int>)
    requires
        lex_less(a, b),
        lex_less(b, c),
    ensures
        lex_less(a, c),
    decreases a.len(),
{
    if a.len() > 0 && a[0] == b[0] && b[0] == c[0] {
        lex_less_is_transitive(a.drop_first(), b.drop_first(), c.drop_first());
    }
}

/// Of two different sequences one comes before the other.
pub proof fn lex_less_is_total(a: Seq<int>, b: Seq<int>)
    ensures
        a == b || lex_less(a, b) || lex_less(b, a),
    decreases a.len(),
{
    if a.len() > 0 && b.len() > 0 && a[0] == b[0] {
        lex_less_is_total(a.drop_first(), b.drop_first());
        if a.drop_first() == b.drop_first() {
            assert(a =~= seq![a[0]] + a.drop_first());
            assert(b =~= seq![b[0]] + b.drop_first());
        }
    } else if a.len() == 0 && b.len() == 0 {
        assert(a =~= b);
    }
}

/// The integers of a list of machine words.
pub open spec fn ints(words: Seq<u32>) -> Seq<int> {
    words.map_values(|w: u32| w as int)
}

/// Appends one word to a rank.
pub fn push_word(words: &mut Vec<u32>, word: u32)
    ensures
        ints(final(words)@) == ints(old(words)@).push(word as int),
{
    words.push(word);
    assert(ints(words@) =~= ints(old(words)@).push(word as int));
}

/// How two ranks stand to each other.
#[derive(Debug, Clone, Copy, PartialEq, Eq, Structural)]
pub enum Standing {
    Before,
    Same,
    After,
}

/// How rank `a` stands to rank `b`.
pub fn compare_ranks(a: &Vec<u32>, b: &Vec<u32>) -> (r: Standing)
    ensures
        match r {
            Standing::Before => lex_less(ints(a@), ints(b@)),
            Standing::Same => ints(a@) == ints(b@),
            Standing::After => lex_less(ints(b@), ints(a@)),
        },
{
    let ghost x = ints(a@);
    let ghost y = ints(b@);
    let mut i: usize = 0;
    assert(x.skip(0) =~= x && y.skip(0) =~= y);
    while i < a.len() && i < b.len()
        invariant
            x == ints(a@),
            y == ints(b@),
            i <= a@.len(),
            i <= b@.len(),
            forall|k: int| 0 <= k < i ==> x[k] == y[k],
            lex_less(x, y) == lex_less(x.skip(i as int), y.skip(i as int)),
            lex_less(y, x) == lex_less(y.skip(i as int), x.skip(i as int)),
        decreases a@.len() - i,
    {
        assert(x.skip(i as int)[0] == a@[i as int] as int);
        assert(y.skip(i as int)[0] == b@[i as int] as int);
        if a[i] < b[i] {
            return Standing::Before;
        }
        if a[i] > b[i] {
            return Standing::After;
        }
        assert(x.skip(i as int).drop_first() =~= x.skip(i + 1));
        assert(y.skip(i as int).drop_first() =~= y.skip(i + 1));
        i += 1;
    }
    if i < a.len() {
        Standing::After
    } else if i < b.len() {
        Standing::Before
    } else {
        assert(x =~= y);
        Standing::Same
    }
}

/// A value that has a rank.
pub trait Ranked {
    /// The rank that orders values of this type.
    spec fn rank(&self) -> Seq<int>;

    /// Computes the rank.
    fn rank_words(&self) -> (r: Vec<u32>)
        ensures
            ints(r@) == self.rank(),
    ;
}

/// A set of values, kept in ascending order of rank.
#[derive(Debug, Clone, PartialEq)]
pub struct SortedSet<T> {
    items: Vec<T>,
}

impl<T: Ranked> View for SortedSet<T> {
    type V = Seq<T>;

    closed spec fn view(&self) -> Seq<T> {
        self.items@
    }
}

/// Whether each item of a list ranks before those that follow it.
pub open spec fn ascending<T: Ranked>(items: Seq<T>) -> bool {
    forall|i: int, j: int|
        #![trigger items[i], items[j]]
        0 <= i < j < items.len() ==> lex_less(items[i].rank(), items[j].rank())
}

impl<T: Ranked> SortedSet<T> {
    /// The items stand in ascending order, so that no two have the same rank.
    pub open spec fn wf(&self) -> bool {
        ascending(self@)
    }

    /// Whether an item of this rank is in the set.
    pub open spec fn has(&self, rank: Seq<int>) -> bool {
        exists|i: int| 0 <= i < self@.len() && #[trigger] self@[i].rank() == rank
    }

    /// The empty set.
    pub fn new() -> (r: Self)
        ensures
            r.wf(),
            r@.len() == 0,
    {
        SortedSet { items: Vec::new() }
    }

    /// The items in ascending order.
    pub fn as_slice(&self) -> (r: &[T])
        ensures
            r@ == self@,
    {
        self.items.as_slice()
    }

    /// Adds an item at its place; false when an item of the same rank is there already.
    pub fn insert(&mut self, item: T) -> (added: bool)
        requires
            old(self).wf(),
        ensures
            final(self).wf(),
            added == !old(self).has(item.rank()),
            !added ==> final(self)@ == old(self)@,
            added ==> exists|at: int|
                0 <= at <= old(self)@.len()
                    && #[trigger] old(self)@.insert(at, item) == final(self)@,
            forall|rank: Seq<int>|
                #[trigger]
                final(self).has(rank) == (old(self).has(rank) || rank == item.rank()),
    {
        let key = item.rank_words();
        let ghost before = self@;
        let mut at: usize = 0;
        let mut found: bool = false;
        while at < self.items.len() && !found
            invariant
                before == self@,
                *self == *old(self),
                before == self.items@,
                ascending(before),
                ints(key@) == item.rank(),
                at <= before.len(),
                forall|k: int| 0 <= k < at ==> lex_less(#[trigger] before[k].rank(), item.rank()),
                found ==> at < before.len() && lex_less(item.rank(), before[at as int].rank()),
            decreases before.len() - at + (if found { 0int } else { 1int }),
        {
            let other = self.items[at].rank_words();
            match compare_ranks(&other, &key) {
                Standing::Before => {
                    at += 1;
                },
                Standing::Same => {
                    assert(self@[at as int].rank() == item.rank());
                    return false;
                },
                Standing::After => {
                    found = true;
                },
            }
        }
        proof {
            assert forall|k: int| 0 <= k < before.len() implies #[trigger] before[k].rank()
                != item.rank() by {
                lex_less_is_irreflexive(item.rank());
                if k > at {
                    lex_less_is_transitive(
                        item.rank(),
                        before[at as int].rank(),
                        before[k].rank(),
                    );
                }
            }
        }
        let ghost rank = item.rank();
        let ghost added_item = item;
        self.items.insert(at, item);
        proof {
            let after = self@;
            assert(after == before.insert(at as int, added_item));
            assert forall|i: int, j: int| 0 <= i < j < after.len() implies lex_less(
                #[trigger] after[i].rank(),
                #[trigger] after[j].rank(),
            ) by {
                if i == at && j > at + 1 {
                    lex_less_is_transitive(rank, before[at as int].rank(), before[j - 1].rank());
                }
            }
            assert forall|r: Seq<int>| #[trigger] self.has(r) == (old(self).has(r) || r
                == rank) by {
                if old(self).has(r) {
                    let k = choose|k: int|
                        0 <= k < before.len() && #[trigger] before[k].rank() == r;
                    if k < at {
                        assert(after[k].rank() == r);
                    } else {
                        assert(after[k + 1].rank() == r);
                    }
                }
                if r == rank {
                    assert(after[at as int].rank() == r);
                }
                if self.has(r) && r != rank {
                    let k = choose|k: int|
                        0 <= k < after.len() && #[trigger] after[k].rank() == r;
                    if k < at {
                        assert(before[k].rank() == r);
                    } else {
                        assert(before[k - 1].rank() == r);
                    }
                }
            }
        }
        true
    }
}

} // verus!
