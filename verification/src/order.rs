//! The order of texts, and sorting by it.
use crate::process::invocation::texts;
use crate::text::chars_of;
use vstd::multiset::Multiset;
use vstd::prelude::*;

verus! {

/// How two values stand to each other.
#[derive(Clone, Copy, Debug, PartialEq, Eq, Structural)]
pub enum Placement {
    Before,
    Same,
    After,
}

/// How `a` stands to `b`, character by character.
pub open spec fn text_order(a: Seq<char>, b: Seq<char>) -> Placement
    decreases a.len(),
{
    if a.len() == 0 {
        if b.len() == 0 {
            Placement::Same
        } else {
            Placement::Before
        }
    } else if b.len() == 0 {
        Placement::After
    } else if a[0] < b[0] {
        Placement::Before
    } else if a[0] > b[0] {
        Placement::After
    } else {
        text_order(a.drop_first(), b.drop_first())
    }
}

/// How `a` stands to `b`, text by text.
pub open spec fn key_order(a: Seq<Seq<char>>, b: Seq<Seq<char>>) -> Placement
    decreases a.len(),
{
    if a.len() == 0 {
        if b.len() == 0 {
            Placement::Same
        } else {
            Placement::Before
        }
    } else if b.len() == 0 {
        Placement::After
    } else {
        match text_order(a[0], b[0]) {
            Placement::Same => key_order(a.drop_first(), b.drop_first()),
            other => other,
        }
    }
}

/// `a` does not come after `b`.
pub open spec fn in_order(a: Seq<Seq<char>>, b: Seq<Seq<char>>) -> bool {
    key_order(a, b) != Placement::After
}

pub open spec fn reversed(p: Placement) -> Placement {
    match p {
        Placement::Before => Placement::After,
        Placement::Same => Placement::Same,
        Placement::After => Placement::Before,
    }
}

pub proof fn lemma_text_order(a: Seq<char>, b: Seq<char>)
    ensures
        text_order(b, a) == reversed(text_order(a, b)),
        text_order(a, b) == Placement::Same <==> a == b,
    decreases a.len(),
{
    if a.len() == 0 {
        if b.len() == 0 {
            assert(a =~= b);
        }
    } else if b.len() > 0 && a[0] == b[0] {
        lemma_text_order(a.drop_first(), b.drop_first());
        if a.drop_first() == b.drop_first() {
            assert(a =~= seq![a[0]] + a.drop_first());
            assert(b =~= seq![b[0]] + b.drop_first());
        }
    }
}

pub proof fn lemma_text_order_transitive(a: Seq<char>, b: Seq<char>, c: Seq<char>)
    requires
        text_order(a, b) != Placement::After,
        text_order(b, c) != Placement::After,
    ensures
        text_order(a, c) != Placement::After,
        text_order(a, c) == Placement::Same ==> text_order(a, b) == Placement::Same && text_order(b, c)
            == Placement::Same,
    decreases a.len(),
{
    if a.len() > 0 && b.len() > 0 && c.len() > 0 && a[0] == b[0] && b[0] == c[0] {
        lemma_text_order_transitive(a.drop_first(), b.drop_first(), c.drop_first());
    }
}

pub proof fn lemma_key_order(a: Seq<Seq<char>>, b: Seq<Seq<char>>)
    ensures
        key_order(b, a) == reversed(key_order(a, b)),
        key_order(a, b) == Placement::Same <==> a == b,
    decreases a.len(),
{
    if a.len() == 0 {
        if b.len() == 0 {
            assert(a =~= b);
        }
    } else if b.len() > 0 {
        lemma_text_order(a[0], b[0]);
        lemma_key_order(a.drop_first(), b.drop_first());
        if a[0] == b[0] && a.drop_first() == b.drop_first() {
            assert(a =~= seq![a[0]] + a.drop_first());
            assert(b =~= seq![b[0]] + b.drop_first());
        }
    }
}

pub proof fn lemma_in_order_transitive(a: Seq<Seq<char>>, b: Seq<Seq<char>>, c: Seq<Seq<char>>)
    requires
        in_order(a, b),
        in_order(b, c),
    ensures
        in_order(a, c),
    decreases a.len(),
{
    if a.len() > 0 && b.len() > 0 && c.len() > 0 {
        lemma_text_order_transitive(a[0], b[0], c[0]);
        if text_order(a[0], b[0]) == Placement::Same && text_order(b[0], c[0]) == Placement::Same {
            lemma_text_order(a[0], b[0]);
            lemma_text_order(b[0], c[0]);
            lemma_in_order_transitive(a.drop_first(), b.drop_first(), c.drop_first());
        }
    }
}

pub proof fn lemma_in_order_total(a: Seq<Seq<char>>, b: Seq<Seq<char>>)
    ensures
        in_order(a, b) || in_order(b, a),
        in_order(a, b) && in_order(b, a) ==> a == b,
        in_order(a, a),
{
    lemma_key_order(a, b);
    lemma_key_order(a, a);
}

fn chars_order(a: &Vec<char>, b: &Vec<char>) -> (r: Placement)
    ensures
        r == text_order(a@, b@),
{
    let mut i: usize = 0;
    assert(a@.skip(0) =~= a@);
    assert(b@.skip(0) =~= b@);
    loop
        invariant
            i <= a.len(),
            i <= b.len(),
            text_order(a@, b@) == text_order(a@.skip(i as int), b@.skip(i as int)),
        decreases a.len() - i,
    {
        if i >= a.len() {
            return if i >= b.len() {
                Placement::Same
            } else {
                Placement::Before
            };
        }
        if i >= b.len() {
            return Placement::After;
        }
        assert(a@.skip(i as int)[0] == a@[i as int]);
        assert(b@.skip(i as int)[0] == b@[i as int]);
        if a[i] < b[i] {
            return Placement::Before;
        }
        if a[i] > b[i] {
            return Placement::After;
        }
        assert(a@.skip(i as int).drop_first() =~= a@.skip(i + 1));
        assert(b@.skip(i as int).drop_first() =~= b@.skip(i + 1));
        i = i + 1;
    }
}

/// How `a` stands to `b`.
pub fn compare_texts(a: &str, b: &str) -> (r: Placement)
    ensures
        r == text_order(a@, b@),
{
    chars_order(&chars_of(a), &chars_of(b))
}

/// Whether the two texts are the same.
pub fn equal_texts(a: &str, b: &str) -> (r: bool)
    ensures
        r == (a@ == b@),
{
    proof {
        lemma_text_order(a@, b@);
    }
    compare_texts(a, b) == Placement::Same
}

/// A value that has a place among others of its kind.
pub trait Keyed: Sized {
    /// The texts that its place goes by.
    spec fn key(&self) -> Seq<Seq<char>>;

    fn compare(&self, other: &Self) -> (r: Placement)
        ensures
            r == key_order(self.key(), other.key()),
    ;
}

impl Keyed for String {
    open spec fn key(&self) -> Seq<Seq<char>> {
        seq![self@]
    }

    fn compare(&self, other: &Self) -> (r: Placement) {
        proof {
            lemma_single_key(self@, other@);
        }
        compare_texts(self.as_str(), other.as_str())
    }
}

pub proof fn lemma_single_key(a: Seq<char>, b: Seq<char>)
    ensures
        key_order(seq![a], seq![b]) == text_order(a, b),
{
    reveal_with_fuel(key_order, 2);
    assert(seq![a].drop_first() =~= Seq::<Seq<char>>::empty());
    assert(seq![b].drop_first() =~= Seq::<Seq<char>>::empty());
}

/// A key goes by its first text; by its others, where the first ones are the same.
pub proof fn lemma_key_step(a: Seq<char>, b: Seq<char>, x: Seq<Seq<char>>, y: Seq<Seq<char>>)
    ensures
        key_order(seq![a] + x, seq![b] + y) == (match text_order(a, b) {
            Placement::Same => key_order(x, y),
            other => other,
        }),
{
    assert((seq![a] + x).drop_first() =~= x);
    assert((seq![b] + y).drop_first() =~= y);
}

/// Each value comes before those that follow it, or has the same place.
pub open spec fn sorted<T: Keyed>(v: Seq<T>) -> bool {
    forall|i: int, j: int| 0 <= i < j < v.len() ==> in_order((#[trigger] v[i]).key(), (#[trigger] v[j]).key())
}

/// No two values have the same place.
pub open spec fn distinct<T: Keyed>(v: Seq<T>) -> bool {
    forall|i: int, j: int| 0 <= i < j < v.len() ==> (#[trigger] v[i]).key() != (#[trigger] v[j]).key()
}

/// `b` holds the values of `a`, sorted.
pub open spec fn sorting_of<T: Keyed>(a: Seq<T>, b: Seq<T>) -> bool {
    sorted(b) && a.to_multiset() == b.to_multiset()
}

/// `v` with `x` put behind the last value that does not come after it.
pub open spec fn placed<T: Keyed>(v: Seq<T>, x: T) -> Seq<T>
    decreases v.len(),
{
    if v.len() == 0 || key_order(v.last().key(), x.key()) != Placement::After {
        v.push(x)
    } else {
        placed(v.drop_last(), x).push(v.last())
    }
}

/// The values of `v` in order; those with the same place keep the order in which they were given.
pub open spec fn arranged<T: Keyed>(v: Seq<T>) -> Seq<T>
    decreases v.len(),
{
    if v.len() == 0 {
        v
    } else {
        placed(arranged(v.drop_last()), v.last())
    }
}

proof fn lemma_placed<T: Keyed>(v: Seq<T>, x: T, k: int)
    requires
        0 <= k <= v.len(),
        forall|j: int| k <= j < v.len() ==> key_order((#[trigger] v[j]).key(), x.key()) == Placement::After,
        k > 0 ==> key_order(v[k - 1].key(), x.key()) != Placement::After,
    ensures
        placed(v, x) == v.insert(k, x),
    decreases v.len(),
{
    if k == v.len() {
        assert(v.insert(k, x) =~= v.push(x));
    } else {
        let shorter = v.drop_last();
        assert(v.last() == v[v.len() - 1]);
        assert forall|j: int| k <= j < shorter.len() implies key_order((#[trigger] shorter[j]).key(), x.key())
            == Placement::After by {
            assert(shorter[j] == v[j]);
        }
        lemma_placed(shorter, x, k);
        assert(v.insert(k, x) =~= shorter.insert(k, x).push(v.last()));
    }
}

proof fn lemma_placed_len<T: Keyed>(v: Seq<T>, x: T)
    ensures
        placed(v, x).len() == v.len() + 1,
    decreases v.len(),
{
    if v.len() > 0 && key_order(v.last().key(), x.key()) == Placement::After {
        lemma_placed_len(v.drop_last(), x);
    }
}

/// The positions of the values of `v` in the order in which they are arranged.
pub fn arrangement<T: Keyed>(v: &Vec<T>) -> (r: Vec<usize>)
    ensures
        r.len() == v.len(),
        arranged(v@).len() == v.len(),
        forall|i: int| 0 <= i < r.len() ==> #[trigger] r@[i] < v.len() && v@[r@[i] as int] == arranged(v@)[i],
{
    let mut order: Vec<usize> = Vec::new();
    let mut n: usize = 0;
    while n < v.len()
        invariant
            n <= v.len(),
            order.len() == n,
            arranged(v@.take(n as int)).len() == n,
            forall|i: int|
                0 <= i < n ==> #[trigger] order@[i] < n && v@[order@[i] as int] == arranged(v@.take(n as int))[i],
        decreases v.len() - n,
    {
        let ghost before = arranged(v@.take(n as int));
        let mut k: usize = n;
        while k > 0 && v[order[k - 1]].compare(&v[n]) == Placement::After
            invariant
                k <= n < v.len(),
                order.len() == n,
                before.len() == n,
                forall|i: int| 0 <= i < n ==> #[trigger] order@[i] < n && v@[order@[i] as int] == before[i],
                forall|j: int|
                    k <= j < n ==> key_order((#[trigger] before[j]).key(), v@[n as int].key()) == Placement::After,
            decreases k,
        {
            assert(v@[order@[k - 1] as int] == before[k - 1]);
            k = k - 1;
        }
        proof {
            if k > 0 {
                assert(v@[order@[k - 1] as int] == before[k - 1]);
            }
            lemma_placed(before, v@[n as int], k as int);
            assert(v@.take(n + 1).drop_last() =~= v@.take(n as int));
            assert(v@.take(n + 1).last() == v@[n as int]);
        }
        let ghost previous = order@;
        order.insert(k, n);
        proof {
            let after = arranged(v@.take(n + 1));
            assert(after == before.insert(k as int, v@[n as int]));
            assert forall|i: int| 0 <= i < n + 1 implies #[trigger] order@[i] < n + 1 && v@[order@[i] as int]
                == after[i] by {
                if i < k {
                    assert(order@[i] == previous[i]);
                } else if i > k {
                    assert(order@[i] == previous[i - 1]);
                }
            }
        }
        n = n + 1;
    }
    assert(v@.take(v@.len() as int) =~= v@);
    order
}

/// Sorts the values.
pub fn sort<T: Keyed>(v: &mut Vec<T>)
    ensures
        sorting_of(old(v)@, final(v)@),
        final(v)@ == arranged(old(v)@),
{
    let mut n: usize = 0;
    while n < v.len()
        invariant
            n <= v.len(),
            v.len() == old(v).len(),
            sorted(v@.take(n as int)),
            v@.take(n as int) == arranged(old(v)@.take(n as int)),
            v@.skip(n as int) == old(v)@.skip(n as int),
            v@.to_multiset() == old(v)@.to_multiset(),
        decreases v.len() - n,
    {
        proof {
            assert(v@[n as int] == v@.skip(n as int)[0]);
            assert(old(v)@[n as int] == old(v)@.skip(n as int)[0]);
            assert(old(v)@.take(n + 1).drop_last() =~= old(v)@.take(n as int));
            assert(old(v)@.take(n + 1).last() == old(v)@[n as int]);
            assert(old(v)@.skip(n as int).skip(1) =~= old(v)@.skip(n + 1));
            assert(v@.skip(n as int).skip(1) =~= v@.skip(n + 1));
        }
        insert_last(v, n);
        n = n + 1;
    }
    assert(v@.take(v@.len() as int) =~= v@);
    assert(old(v)@.take(v@.len() as int) =~= old(v)@);
}

/// Arranging sorts.
pub proof fn lemma_arranged_sorts<T: Keyed>(v: Seq<T>)
    ensures
        sorting_of(v, arranged(v)),
    decreases v.len(),
{
    broadcast use vstd::seq_lib::group_to_multiset_ensures;

    if v.len() > 0 {
        let before = arranged(v.drop_last());
        lemma_arranged_sorts(v.drop_last());
        lemma_placed_sorts(before, v.last());
        assert(v =~= v.drop_last().push(v.last()));
    }
}

proof fn lemma_placed_sorts<T: Keyed>(v: Seq<T>, x: T)
    requires
        sorted(v),
    ensures
        sorted(placed(v, x)),
        placed(v, x).to_multiset() == v.to_multiset().insert(x),
    decreases v.len(),
{
    broadcast use vstd::seq_lib::group_to_multiset_ensures;

    if v.len() == 0 {
        assert(v.push(x).to_multiset() =~= v.to_multiset().insert(x));
    } else if key_order(v.last().key(), x.key()) != Placement::After {
        assert(v.push(x).to_multiset() =~= v.to_multiset().insert(x));
        assert forall|i: int, j: int| 0 <= i < j < v.len() + 1 implies in_order(
            (#[trigger] v.push(x)[i]).key(),
            (#[trigger] v.push(x)[j]).key(),
        ) by {
            if j < v.len() {
                assert(in_order(v[i].key(), v[j].key()));
            } else if i < v.len() - 1 {
                assert(in_order(v[i].key(), v[v.len() - 1].key()));
                lemma_in_order_transitive(v[i].key(), v.last().key(), x.key());
            }
        }
    } else {
        let shorter = v.drop_last();
        let last = v.last();
        assert(sorted(shorter));
        lemma_placed_sorts(shorter, x);
        let p = placed(shorter, x);
        lemma_remove_multiset(v, v.len() - 1);
        assert(v.remove(v.len() - 1) =~= shorter);
        assert(p.push(last).to_multiset() =~= v.to_multiset().insert(x));
        assert forall|i: int, j: int| 0 <= i < j < p.len() + 1 implies in_order(
            (#[trigger] p.push(last)[i]).key(),
            (#[trigger] p.push(last)[j]).key(),
        ) by {
            if j < p.len() {
                assert(in_order(p[i].key(), p[j].key()));
            } else {
                assert(p.contains(p[i]));
                assert(p.to_multiset().count(p[i]) > 0);
                if p[i] == x {
                    lemma_key_order(last.key(), x.key());
                } else {
                    assert(shorter.to_multiset().count(p[i]) > 0);
                    assert(shorter.contains(p[i]));
                    let q = choose|q: int| 0 <= q < shorter.len() && shorter[q] == p[i];
                    assert(v[q] == p[i]);
                    assert(in_order(v[q].key(), v[v.len() - 1].key()));
                }
            }
        }
    }
}

/// Moves the `n`-th value to its place among those before it, which are sorted.
fn insert_last<T: Keyed>(v: &mut Vec<T>, n: usize)
    requires
        n < old(v).len(),
        sorted(old(v)@.take(n as int)),
    ensures
        final(v).len() == old(v).len(),
        sorted(final(v)@.take(n + 1)),
        final(v)@.take(n + 1) == placed(old(v)@.take(n as int), old(v)@[n as int]),
        final(v)@.skip(n + 1) == old(v)@.skip(n + 1),
        final(v)@.to_multiset() == old(v)@.to_multiset(),
{
    broadcast use vstd::seq_lib::group_to_multiset_ensures;

    let mut k: usize = n;
    let ghost start = v@;
    let ghost item = v@[n as int];
    while k > 0 && v[k - 1].compare(&v[n]) == Placement::After
        invariant
            k <= n < v.len(),
            v@ == start,
            item == start[n as int],
            sorted(start.take(n as int)),
            forall|j: int| k <= j < n ==> key_order((#[trigger] start[j]).key(), item.key()) == Placement::After,
        decreases k,
    {
        k = k - 1;
    }
    if k < n {
        let moved: T = v.remove(n);
        let ghost rest = v@;
        v.insert(k, moved);
        proof {
            assert(start.to_multiset() == rest.to_multiset().insert(item)) by {
                lemma_remove_multiset(start, n as int);
            }
            lemma_insert_multiset(rest, k as int, item);
        }
    }
    let ghost end = v@;
    proof {
        assert forall|i: int, j: int| 0 <= i < j < n + 1 implies in_order(
            (#[trigger] end.take(n + 1)[i]).key(),
            (#[trigger] end.take(n + 1)[j]).key(),
        ) by {
            lemma_key_order(item.key(), item.key());
            // Where the values stood before.
            let oi = if i < k {
                i
            } else if i == k {
                n as int
            } else {
                i - 1
            };
            let oj = if j < k {
                j
            } else if j == k {
                n as int
            } else {
                j - 1
            };
            assert(end[i] == start[oi]);
            assert(end[j] == start[oj]);
            if oi < n && oj < n {
                assert(start.take(n as int)[oi] == start[oi]);
                assert(start.take(n as int)[oj] == start[oj]);
                assert(in_order(start.take(n as int)[oi].key(), start.take(n as int)[oj].key()));
            } else if oi < n {
                // The value that moved stands at `j == k`, after all that do not come after it.
                if k > 0 {
                    assert(in_order(start[k - 1].key(), item.key()));
                    if oi < k - 1 {
                        assert(start.take(n as int)[oi] == start[oi]);
                        assert(start.take(n as int)[k - 1] == start[k - 1]);
                        assert(in_order(start.take(n as int)[oi].key(), start.take(n as int)[k - 1].key()));
                        lemma_in_order_transitive(start[oi].key(), start[k - 1].key(), item.key());
                    }
                }
            } else {
                // The value that moved stands at `i == k`, before all that come after it.
                assert(key_order(start[oj].key(), item.key()) == Placement::After);
                lemma_key_order(start[oj].key(), item.key());
            }
        }
        assert(sorted(end.take(n + 1)));
        let before = start.take(n as int);
        assert forall|j: int| k <= j < before.len() implies key_order((#[trigger] before[j]).key(), item.key())
            == Placement::After by {
            assert(before[j] == start[j]);
        }
        lemma_placed(before, item, k as int);
        assert(end.take(n + 1) =~= before.insert(k as int, item));
        assert(end.skip(n + 1) =~= start.skip(n + 1));
    }
}

proof fn lemma_remove_multiset<T>(s: Seq<T>, i: int)
    requires
        0 <= i < s.len(),
    ensures
        s.to_multiset() == s.remove(i).to_multiset().insert(s[i]),
{
    broadcast use vstd::seq_lib::group_to_multiset_ensures;

    assert(s.remove(i).to_multiset() =~= s.to_multiset().remove(s[i]));
    assert(s.contains(s[i]));
    assert(s.to_multiset() =~= s.to_multiset().remove(s[i]).insert(s[i]));
}

proof fn lemma_insert_multiset<T>(s: Seq<T>, i: int, x: T)
    requires
        0 <= i <= s.len(),
    ensures
        s.insert(i, x).to_multiset() == s.to_multiset().insert(x),
{
    lemma_remove_multiset(s.insert(i, x), i);
    assert(s.insert(i, x).remove(i) =~= s);
}

/// Whether no two values have the same place.
pub fn all_distinct<T: Keyed>(v: &Vec<T>) -> (r: bool)
    ensures
        r == distinct(v@),
{
    let mut j: usize = 0;
    while j < v.len()
        invariant
            j <= v.len(),
            forall|a: int, b: int| 0 <= a < b < j ==> (#[trigger] v@[a]).key() != (#[trigger] v@[b]).key(),
        decreases v.len() - j,
    {
        let mut i: usize = 0;
        while i < j
            invariant
                i <= j < v.len(),
                forall|a: int| 0 <= a < i ==> (#[trigger] v@[a]).key() != v@[j as int].key(),
            decreases j - i,
        {
            proof {
                lemma_key_order(v@[i as int].key(), v@[j as int].key());
            }
            if v[i].compare(&v[j]) == Placement::Same {
                return false;
            }
            i = i + 1;
        }
        j = j + 1;
    }
    true
}

/// Values of which no two have the same place keep that in whatever order they stand.
pub proof fn lemma_distinct_permutation<T: Keyed>(a: Seq<T>, b: Seq<T>)
    requires
        distinct(a),
        a.to_multiset() == b.to_multiset(),
    ensures
        distinct(b),
{
    broadcast use vstd::seq_lib::group_to_multiset_ensures;

    assert(a.no_duplicates()) by {
        assert forall|i: int, j: int| 0 <= i < a.len() && 0 <= j < a.len() && i != j implies a[i] != a[j] by {
            if i < j {
                assert(a[i].key() != a[j].key());
            } else {
                assert(a[j].key() != a[i].key());
            }
        }
    }
    a.lemma_multiset_has_no_duplicates();
    b.lemma_multiset_has_no_duplicates_conv();
    assert forall|i: int, j: int| 0 <= i < j < b.len() implies (#[trigger] b[i]).key() != (#[trigger] b[j]).key() by {
        assert(b.contains(b[i]) && b.contains(b[j]));
        assert(a.to_multiset().count(b[i]) > 0 && a.to_multiset().count(b[j]) > 0);
        assert(a.contains(b[i]) && a.contains(b[j]));
        let p = choose|p: int| 0 <= p < a.len() && a[p] == b[i];
        let q = choose|q: int| 0 <= q < a.len() && a[q] == b[j];
        assert(b[i] != b[j]);
        if p < q {
            assert(a[p].key() != a[q].key());
        } else {
            assert(a[q].key() != a[p].key());
        }
    }
}

/// Sorting what is sorted changes nothing, and the order in which distinct values were given does
/// not show in their sorting.
pub proof fn law_sorting_ignores_order<T: Keyed>(a: Seq<T>, b: Seq<T>, sa: Seq<T>, sb: Seq<T>)
    requires
        distinct(a),
        a.to_multiset() == b.to_multiset(),
        sorting_of(a, sa),
        sorting_of(b, sb),
    ensures
        sa == sb,
{
    lemma_distinct_permutation(a, sa);
    law_sorting_is_unique(sa, sb);
}

/// The order in which distinct values were given does not show in how they are arranged.
pub proof fn law_arranging_ignores_order<T: Keyed>(a: Seq<T>, b: Seq<T>)
    requires
        distinct(a),
        a.to_multiset() == b.to_multiset(),
    ensures
        arranged(a) == arranged(b),
{
    lemma_arranged_sorts(a);
    lemma_arranged_sorts(b);
    law_sorting_ignores_order(a, b, arranged(a), arranged(b));
}

/// The sorting of values of which no two have the same place is the same, in whatever order they
/// were given.
pub proof fn law_sorting_is_unique<T: Keyed>(a: Seq<T>, b: Seq<T>)
    requires
        sorted(a),
        sorted(b),
        distinct(a),
        a.to_multiset() == b.to_multiset(),
    ensures
        a == b,
    decreases a.len(),
{
    broadcast use vstd::seq_lib::group_to_multiset_ensures;

    assert(a.len() == a.to_multiset().len());
    assert(b.len() == b.to_multiset().len());
    if a.len() == 0 {
        assert(a =~= b);
    } else {
        // The last of `a` stands in `b`, and nothing in `b` comes after it.
        let x = a.last();
        let y = b.last();
        assert(a[a.len() - 1] == x && b[b.len() - 1] == y);
        assert(a.to_multiset().count(x) > 0) by {
            assert(a.contains(x));
        }
        assert(b.to_multiset().count(y) > 0) by {
            assert(b.contains(y));
        }
        assert(b.contains(x));
        assert(a.contains(y));
        let i = choose|i: int| 0 <= i < b.len() && b[i] == x;
        let j = choose|j: int| 0 <= j < a.len() && a[j] == y;
        lemma_in_order_total(x.key(), y.key());
        if i < b.len() - 1 {
            assert(in_order(b[i].key(), b[b.len() - 1].key()));
        }
        if j < a.len() - 1 {
            assert(in_order(a[j].key(), a[a.len() - 1].key()));
            assert(a[j].key() != a[a.len() - 1].key());
        }
        assert(x == y);
        lemma_remove_multiset(a, a.len() - 1);
        lemma_remove_multiset(b, b.len() - 1);
        assert(a.remove(a.len() - 1) =~= a.drop_last());
        assert(b.remove(b.len() - 1) =~= b.drop_last());
        assert(a.drop_last().to_multiset() =~= a.to_multiset().remove(x));
        assert(b.drop_last().to_multiset() =~= b.to_multiset().remove(x));
        assert(sorted(a.drop_last()));
        assert(sorted(b.drop_last()));
        assert(distinct(a.drop_last()));
        law_sorting_is_unique(a.drop_last(), b.drop_last());
        assert(a =~= a.drop_last().push(x));
        assert(b =~= b.drop_last().push(x));
    }
}

/// One text comes before the other, or they are the same.
pub open spec fn texts_in_order() -> spec_fn(Seq<char>, Seq<char>) -> bool {
    |a: Seq<char>, b: Seq<char>| text_order(a, b) != Placement::After
}

pub proof fn lemma_texts_in_order()
    ensures
        vstd::relations::total_ordering(texts_in_order()),
{
    let leq = texts_in_order();
    assert forall|a: Seq<char>| #[trigger] leq(a, a) by {
        lemma_text_order(a, a);
    }
    assert forall|a: Seq<char>, b: Seq<char>| #[trigger] leq(a, b) && #[trigger] leq(b, a) implies a == b by {
        lemma_text_order(a, b);
    }
    assert forall|a: Seq<char>, b: Seq<char>, c: Seq<char>| #[trigger] leq(a, b) && #[trigger] leq(b, c) implies leq(a, c) by {
        lemma_text_order_transitive(a, b, c);
    }
    assert forall|a: Seq<char>, b: Seq<char>| #[trigger] leq(a, b) || #[trigger] leq(b, a) by {
        lemma_text_order(a, b);
    }
}

proof fn lemma_placed_texts(v: Seq<String>, x: String)
    ensures
        texts(placed(v, x)).to_multiset() == texts(v).to_multiset().insert(x@),
    decreases v.len(),
{
    broadcast use vstd::seq_lib::group_to_multiset_ensures;

    if v.len() == 0 || key_order(v.last().key(), x.key()) != Placement::After {
        assert(texts(v.push(x)) =~= texts(v).push(x@));
    } else {
        let front = v.drop_last();
        lemma_placed_texts(front, x);
        assert(texts(placed(front, x).push(v.last())) =~= texts(placed(front, x)).push(v.last()@));
        assert(texts(v) =~= texts(front).push(v.last()@));
        assert(texts(placed(v, x)).to_multiset() =~= texts(v).to_multiset().insert(x@));
    }
}

pub proof fn lemma_arranged_texts(v: Seq<String>)
    ensures
        texts(arranged(v)).to_multiset() == texts(v).to_multiset(),
    decreases v.len(),
{
    broadcast use vstd::seq_lib::group_to_multiset_ensures;

    if v.len() > 0 {
        let front = v.drop_last();
        lemma_arranged_texts(front);
        lemma_placed_texts(arranged(front), v.last());
        assert(texts(v) =~= texts(front).push(v.last()@));
    }
}

proof fn lemma_arranged_texts_sorted(v: Seq<String>)
    ensures
        vstd::relations::sorted_by(texts(arranged(v)), texts_in_order()),
{
    lemma_arranged_sorts(v);
    let s = arranged(v);
    let leq = texts_in_order();
    assert forall|i: int, j: int| 0 <= i < j < texts(s).len() implies #[trigger] leq(texts(s)[i], texts(s)[j]) by {
        assert(in_order(s[i].key(), s[j].key()));
        lemma_single_key(s[i]@, s[j]@);
    }
}

/// What is in order already stays as it is.
pub proof fn law_sorted_stays<T: Keyed>(v: Seq<T>)
    requires
        sorted(v),
    ensures
        arranged(v) == v,
    decreases v.len(),
{
    if v.len() > 0 {
        let front = v.drop_last();
        assert forall|i: int, j: int| 0 <= i < j < front.len() implies in_order(
            (#[trigger] front[i]).key(),
            (#[trigger] front[j]).key(),
        ) by {
            assert(front[i] == v[i] && front[j] == v[j]);
        }
        law_sorted_stays(front);
        if front.len() > 0 {
            assert(front.last() == v[v.len() - 2] && v.last() == v[v.len() - 1]);
        }
        assert(front.push(v.last()) =~= v);
    }
}

/// Two lists that hold the same values hold the same of whatever is made of each value.
pub proof fn lemma_mapped_multiset<A, B>(v: Seq<A>, w: Seq<A>, f: spec_fn(A) -> B)
    requires
        v.to_multiset() == w.to_multiset(),
    ensures
        v.map_values(f).to_multiset() == w.map_values(f).to_multiset(),
    decreases v.len(),
{
    broadcast use vstd::seq_lib::group_to_multiset_ensures;

    assert(v.len() == v.to_multiset().len() && w.len() == w.to_multiset().len());
    if v.len() > 0 {
        let x = v.last();
        let front = v.drop_last();
        assert(v =~= front.push(x));
        assert(v.contains(x)) by {
            assert(v[v.len() - 1] == x);
        }
        assert(w.to_multiset().count(x) > 0);
        assert(w.contains(x));
        let j = choose|j: int| 0 <= j < w.len() && w[j] == x;
        let rest = w.remove(j);
        assert(front.to_multiset() =~= v.to_multiset().remove(x));
        assert(rest.to_multiset() == w.to_multiset().remove(x));
        lemma_mapped_multiset(front, rest, f);
        assert(v.map_values(f) =~= front.map_values(f).push(f(x)));
        assert(w.map_values(f).remove(j) =~= rest.map_values(f));
        assert(w.map_values(f)[j] == f(x));
        assert(w.map_values(f).contains(f(x)));
        assert(w.map_values(f).to_multiset() =~= rest.map_values(f).to_multiset().insert(f(x)));
    } else {
        assert(v.map_values(f) =~= w.map_values(f));
    }
}

/// A list holds nothing twice where another does not that holds the same.
pub proof fn lemma_no_duplicates_permutation<A>(v: Seq<A>, w: Seq<A>)
    requires
        v.no_duplicates(),
        v.to_multiset() == w.to_multiset(),
    ensures
        w.no_duplicates(),
{
    v.lemma_multiset_has_no_duplicates();
    w.lemma_multiset_has_no_duplicates_conv();
}

/// The order in which texts were given does not show in how they are arranged, also where a text
/// stands there twice.
pub proof fn law_arranged_texts_ignore_order(a: Seq<String>, b: Seq<String>)
    requires
        texts(a).to_multiset() == texts(b).to_multiset(),
    ensures
        texts(arranged(a)) == texts(arranged(b)),
{
    lemma_texts_in_order();
    lemma_arranged_texts(a);
    lemma_arranged_texts(b);
    lemma_arranged_texts_sorted(a);
    lemma_arranged_texts_sorted(b);
    vstd::seq_lib::lemma_sorted_unique(texts(arranged(a)), texts(arranged(b)), texts_in_order());
}

/// What is arranged holds the same values, no more and no fewer.
pub proof fn lemma_arranged_members<T: Keyed>(v: Seq<T>)
    ensures
        arranged(v).len() == v.len(),
        forall|i: int| 0 <= i < v.len() ==> v.contains(#[trigger] arranged(v)[i]),
        forall|j: int| 0 <= j < v.len() ==> arranged(v).contains(#[trigger] v[j]),
{
    broadcast use vstd::seq_lib::group_to_multiset_ensures;

    lemma_arranged_sorts(v);
    let a = arranged(v);
    assert(a.to_multiset() == v.to_multiset());
    assert(a.to_multiset().len() == a.len());
    assert(v.to_multiset().len() == v.len());
    assert forall|i: int| 0 <= i < v.len() implies v.contains(#[trigger] a[i]) by {
        assert(a.contains(a[i]));
        assert(a.to_multiset().count(a[i]) > 0);
        assert(v.to_multiset().count(a[i]) > 0);
    }
    assert forall|j: int| 0 <= j < v.len() implies a.contains(#[trigger] v[j]) by {
        assert(v.contains(v[j]));
        assert(v.to_multiset().count(v[j]) > 0);
        assert(a.to_multiset().count(v[j]) > 0);
    }
}

} // verus!
