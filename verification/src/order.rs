//! Lexicographic order on keys, and the stable sort that goes by it.

use vstd::prelude::*;

verus! {

/// Strict lexicographic order on sequences of numbers; a proper prefix comes first.
pub open spec fn codes_before(a: Seq<int>, b: Seq<int>) -> bool
    decreases a.len(),
{
    if b.len() == 0 {
        false
    } else if a.len() == 0 {
        true
    } else if a[0] != b[0] {
        a[0] < b[0]
    } else {
        codes_before(a.drop_first(), b.drop_first())
    }
}

/// Strict lexicographic order on keys made of several parts.
pub open spec fn key_before(a: Seq<Seq<int>>, b: Seq<Seq<int>>) -> bool
    decreases a.len(),
{
    if b.len() == 0 {
        false
    } else if a.len() == 0 {
        true
    } else if a[0] != b[0] {
        codes_before(a[0], b[0])
    } else {
        key_before(a.drop_first(), b.drop_first())
    }
}

/// The code points of a text, by which texts are ordered.
pub open spec fn text_codes(s: Seq<char>) -> Seq<int> {
    s.map_values(|c: char| c as int)
}

/// The values of a byte string, by which byte strings are ordered.
pub open spec fn byte_codes(s: Seq<u8>) -> Seq<int> {
    s.map_values(|b: u8| b as int)
}

/// No sequence comes before itself.
pub proof fn lemma_codes_irreflexive(a: Seq<int>)
    ensures
        !codes_before(a, a),
    decreases a.len(),
{
    if a.len() > 0 {
        lemma_codes_irreflexive(a.drop_first());
    }
}

proof fn lemma_codes_transitive(a: Seq<int>, b: Seq<int>, c: Seq<int>)
    requires
        codes_before(a, b),
        codes_before(b, c),
    ensures
        codes_before(a, c),
    decreases a.len(),
{
    if a.len() > 0 && a[0] == b[0] && b[0] == c[0] {
        lemma_codes_transitive(a.drop_first(), b.drop_first(), c.drop_first());
    }
}

proof fn lemma_codes_total(a: Seq<int>, b: Seq<int>)
    ensures
        codes_before(a, b) || codes_before(b, a) || a == b,
    decreases a.len(),
{
    if a.len() > 0 && b.len() > 0 && a[0] == b[0] {
        lemma_codes_total(a.drop_first(), b.drop_first());
        if a.drop_first() == b.drop_first() {
            assert(a == seq![a[0]] + a.drop_first());
            assert(b == seq![b[0]] + b.drop_first());
        }
    } else if a.len() == 0 && b.len() == 0 {
        assert(a == b);
    }
}

/// No key comes before itself.
pub proof fn lemma_key_irreflexive(a: Seq<Seq<int>>)
    ensures
        !key_before(a, a),
    decreases a.len(),
{
    if a.len() > 0 {
        lemma_key_irreflexive(a.drop_first());
    }
}

/// The order on keys is transitive.
pub proof fn lemma_key_transitive(a: Seq<Seq<int>>, b: Seq<Seq<int>>, c: Seq<Seq<int>>)
    requires
        key_before(a, b),
        key_before(b, c),
    ensures
        key_before(a, c),
    decreases a.len(),
{
    if a.len() > 0 && b.len() > 0 && c.len() > 0 {
        if a[0] == b[0] && b[0] == c[0] {
            lemma_key_transitive(a.drop_first(), b.drop_first(), c.drop_first());
        } else if a[0] != b[0] && b[0] != c[0] {
            lemma_codes_transitive(a[0], b[0], c[0]);
            lemma_codes_irreflexive(a[0]);
        }
    }
}

/// Of two different keys, one comes before the other.
pub proof fn lemma_key_total(a: Seq<Seq<int>>, b: Seq<Seq<int>>)
    ensures
        key_before(a, b) || key_before(b, a) || a == b,
    decreases a.len(),
{
    if a.len() > 0 && b.len() > 0 {
        if a[0] == b[0] {
            lemma_key_total(a.drop_first(), b.drop_first());
            if a.drop_first() == b.drop_first() {
                assert(a == seq![a[0]] + a.drop_first());
                assert(b == seq![b[0]] + b.drop_first());
            }
        } else {
            lemma_codes_total(a[0], b[0]);
        }
    } else if a.len() == 0 && b.len() == 0 {
        assert(a == b);
    }
}

/// A key of one part goes by that part.
pub proof fn lemma_single_key(a: Seq<int>, b: Seq<int>)
    ensures
        key_before(seq![a], seq![b]) == codes_before(a, b),
{
    reveal_with_fuel(key_before, 2);
    lemma_codes_irreflexive(a);
}

/// How two texts stand to each other.
#[derive(PartialEq, Eq, Structural, Clone, Copy)]
pub enum Place {
    Before,
    Same,
    After,
}

/// Where `a` stands relative to `b` in lexicographic order.
pub open spec fn place_of(a: Seq<int>, b: Seq<int>) -> Place {
    if a == b {
        Place::Same
    } else if codes_before(a, b) {
        Place::Before
    } else {
        Place::After
    }
}

proof fn lemma_codes_first_difference(a: Seq<int>, b: Seq<int>, i: int)
    requires
        0 <= i <= a.len(),
        i <= b.len(),
        a.take(i) == b.take(i),
    ensures
        i < a.len() && i < b.len() && a[i] != b[i] ==> codes_before(a, b) == (a[i] < b[i]),
        i == a.len() && i < b.len() ==> codes_before(a, b),
        i == b.len() ==> !codes_before(a, b),
    decreases i,
{
    if i > 0 {
        assert(a.take(i)[0] == a[0]);
        assert(b.take(i)[0] == b[0]);
        assert(a.drop_first().take(i - 1) == a.take(i).drop_first());
        assert(b.drop_first().take(i - 1) == b.take(i).drop_first());
        lemma_codes_first_difference(a.drop_first(), b.drop_first(), i - 1);
    }
}

/// Compares two texts by their code points.
pub fn place_texts(a: &str, b: &str) -> (r: Place)
    ensures
        r == place_of(text_codes(a@), text_codes(b@)),
{
    let x = crate::text::chars_of(a);
    let y = crate::text::chars_of(b);
    let ghost p = text_codes(a@);
    let ghost q = text_codes(b@);
    let mut i: usize = 0;
    while i < x.len() && i < y.len()
        invariant
            i <= x.len(),
            i <= y.len(),
            x@ == a@,
            y@ == b@,
            p == text_codes(a@),
            q == text_codes(b@),
            p.take(i as int) == q.take(i as int),
        decreases x.len() - i,
    {
        if x[i] != y[i] {
            proof {
                lemma_codes_first_difference(p, q, i as int);
            }
            if x[i] < y[i] {
                return Place::Before;
            }
            return Place::After;
        }
        assert(p.take(i + 1) == p.take(i as int).push(p[i as int]));
        assert(q.take(i + 1) == q.take(i as int).push(q[i as int]));
        i += 1;
    }
    proof {
        lemma_codes_first_difference(p, q, i as int);
        if p.len() == q.len() {
            assert(p.take(i as int) == p);
            assert(q.take(i as int) == q);
        }
    }
    if x.len() == y.len() {
        Place::Same
    } else if x.len() < y.len() {
        Place::Before
    } else {
        Place::After
    }
}

/// Whether the byte string `a` comes before `b`.
pub fn bytes_before(a: &Vec<u8>, b: &Vec<u8>) -> (r: bool)
    ensures
        r == codes_before(byte_codes(a@), byte_codes(b@)),
{
    let ghost p = byte_codes(a@);
    let ghost q = byte_codes(b@);
    let mut i: usize = 0;
    while i < a.len() && i < b.len()
        invariant
            i <= a.len(),
            i <= b.len(),
            p == byte_codes(a@),
            q == byte_codes(b@),
            p.take(i as int) == q.take(i as int),
        decreases a.len() - i,
    {
        if a[i] != b[i] {
            proof {
                lemma_codes_first_difference(p, q, i as int);
            }
            return a[i] < b[i];
        }
        assert(p.take(i + 1) == p.take(i as int).push(p[i as int]));
        assert(q.take(i + 1) == q.take(i as int).push(q[i as int]));
        i += 1;
    }
    proof {
        lemma_codes_first_difference(p, q, i as int);
    }
    a.len() < b.len()
}

/// The key of a list of texts.
pub open spec fn texts_key(texts: Seq<Seq<char>>) -> Seq<Seq<int>> {
    texts.map_values(|t: Seq<char>| text_codes(t))
}

/// Whether the list of texts `a` comes before `b`, going by the first texts that differ.
pub fn texts_before(a: &Vec<String>, b: &Vec<String>) -> (r: bool)
    ensures
        r == key_before(texts_key(a.deep_view()), texts_key(b.deep_view())),
{
    let ghost p = texts_key(a.deep_view());
    let ghost q = texts_key(b.deep_view());
    let mut i: usize = 0;
    assert(p.skip(0) == p);
    assert(q.skip(0) == q);
    loop
        invariant
            i <= a.len(),
            i <= b.len(),
            p == texts_key(a.deep_view()),
            q == texts_key(b.deep_view()),
            key_before(p, q) == key_before(p.skip(i as int), q.skip(i as int)),
        decreases a.len() - i,
    {
        if i >= b.len() {
            return false;
        }
        if i >= a.len() {
            return true;
        }
        assert(p.skip(i as int)[0] == text_codes(a@[i as int]@));
        assert(q.skip(i as int)[0] == text_codes(b@[i as int]@));
        match place_texts(a[i].as_str(), b[i].as_str()) {
            Place::Before => {
                return true;
            },
            Place::After => {
                return false;
            },
            Place::Same => {},
        }
        assert(p.skip(i as int).drop_first() == p.skip(i + 1));
        assert(q.skip(i as int).drop_first() == q.skip(i + 1));
        i += 1;
    }
}

/// A value that has a place in an ordered list.
pub trait Keyed: Sized {
    /// The key by which values of this type are ordered.
    spec fn sort_key(self) -> Seq<Seq<int>>;

    /// Whether this value belongs before the other one.
    fn comes_before(&self, other: &Self) -> (r: bool)
        ensures
            r == key_before(self.sort_key(), other.sort_key()),
    ;
}

/// `s` with `x` put behind the last value that does not belong after it.
pub open spec fn insert_sorted<T: Keyed>(s: Seq<T>, x: T) -> Seq<T>
    decreases s.len(),
{
    if s.len() == 0 {
        seq![x]
    } else if key_before(x.sort_key(), s.last().sort_key()) {
        insert_sorted(s.drop_last(), x).push(s.last())
    } else {
        s.push(x)
    }
}

/// `s` in the order of its keys; values with equal keys keep their order.
pub open spec fn sorted<T: Keyed>(s: Seq<T>) -> Seq<T>
    decreases s.len(),
{
    if s.len() == 0 {
        s
    } else {
        insert_sorted(sorted(s.drop_last()), s.last())
    }
}

/// Whether no value stands behind one that belongs after it.
pub open spec fn in_order<T: Keyed>(s: Seq<T>) -> bool {
    forall|i: int, j: int|
        #![trigger s[i], s[j]]
        0 <= i < j < s.len() ==> !key_before(s[j].sort_key(), s[i].sort_key())
}

proof fn lemma_insert_position<T: Keyed>(s: Seq<T>, x: T, at: int)
    requires
        0 <= at <= s.len(),
        forall|j: int| at <= j < s.len() ==> key_before(x.sort_key(), #[trigger] s[j].sort_key()),
        at > 0 ==> !key_before(x.sort_key(), s[at - 1].sort_key()),
    ensures
        insert_sorted(s, x) == s.insert(at, x),
    decreases s.len(),
{
    if s.len() > 0 && at < s.len() {
        assert(key_before(x.sort_key(), s[s.len() - 1].sort_key()));
        lemma_insert_position(s.drop_last(), x, at);
        assert(s.insert(at, x) == s.drop_last().insert(at, x).push(s.last()));
    } else {
        assert(s.insert(at, x) == s.push(x));
    }
}

proof fn lemma_insert_keeps_order<T: Keyed>(s: Seq<T>, x: T)
    requires
        in_order(s),
    ensures
        in_order(insert_sorted(s, x)),
        insert_sorted(s, x).to_multiset() == s.to_multiset().insert(x),
        insert_sorted(s, x).len() == s.len() + 1,
    decreases s.len(),
{
    broadcast use vstd::seq_lib::group_to_multiset_ensures;

    if s.len() > 0 && key_before(x.sort_key(), s.last().sort_key()) {
        let front = s.drop_last();
        lemma_insert_keeps_order(front, x);
        let inner = insert_sorted(front, x);
        let all = inner.push(s.last());
        assert(s == front.push(s.last()));
        assert(s.to_multiset() == front.to_multiset().insert(s.last()));
        assert(all.to_multiset() == inner.to_multiset().insert(s.last()));
        assert(all.to_multiset() =~= s.to_multiset().insert(x));
        assert forall|i: int, j: int| 0 <= i < j < all.len() implies !key_before(
            (#[trigger] all[j]).sort_key(),
            (#[trigger] all[i]).sort_key(),
        ) by {
            if j == inner.len() {
                assert(inner.to_multiset().contains(inner[i]));
                assert(front.to_multiset().insert(x).contains(inner[i]));
                if inner[i] == x {
                    if key_before(s.last().sort_key(), x.sort_key()) {
                        lemma_key_transitive(s.last().sort_key(), x.sort_key(), s.last().sort_key());
                        lemma_key_irreflexive(s.last().sort_key());
                    }
                } else {
                    assert(front.to_multiset().contains(inner[i]));
                    assert(front.contains(inner[i]));
                    let k = choose|k: int| 0 <= k < front.len() && front[k] == inner[i];
                    assert(s[k] == inner[i]);
                    assert(s[s.len() - 1] == s.last());
                }
            }
        }
    } else if s.len() > 0 {
        let all = s.push(x);
        assert forall|i: int, j: int| 0 <= i < j < all.len() implies !key_before(
            (#[trigger] all[j]).sort_key(),
            (#[trigger] all[i]).sort_key(),
        ) by {
            if j == s.len() && key_before(x.sort_key(), s[i].sort_key()) {
                lemma_key_total(s[i].sort_key(), s.last().sort_key());
                if i < s.len() - 1 {
                    assert(!key_before(s[s.len() - 1].sort_key(), s[i].sort_key()));
                    if key_before(s[i].sort_key(), s.last().sort_key()) {
                        lemma_key_transitive(x.sort_key(), s[i].sort_key(), s.last().sort_key());
                    }
                }
            }
        }
    } else {
        assert(seq![x] == s.push(x));
    }
}

/// Sorting gives every value a place that fits its key, and neither loses nor adds one.
pub proof fn lemma_sorted<T: Keyed>(s: Seq<T>)
    ensures
        in_order(sorted(s)),
        sorted(s).to_multiset() == s.to_multiset(),
        sorted(s).len() == s.len(),
    decreases s.len(),
{
    broadcast use vstd::seq_lib::group_to_multiset_ensures;

    if s.len() > 0 {
        lemma_sorted(s.drop_last());
        lemma_insert_keeps_order(sorted(s.drop_last()), s.last());
        assert(s == s.drop_last().push(s.last()));
    }
}

/// Sorts `items` by their keys, keeping the order of values with equal keys.
pub fn sort<T: Keyed>(items: Vec<T>) -> (r: Vec<T>)
    ensures
        r@ == sorted(items@),
{
    let mut r: Vec<T> = Vec::new();
    let ghost all = items@;
    for item in it: items
        invariant
            it.seq() == all,
            r@ == sorted(all.take(it.index())),
    {
        let ghost before = r@;
        let mut at: usize = r.len();
        while at > 0 && item.comes_before(&r[at - 1])
            invariant
                at <= r.len(),
                r@ == before,
                forall|j: int| at <= j < r.len() ==> key_before(
                    item.sort_key(),
                    (#[trigger] r@[j]).sort_key(),
                ),
            decreases at,
        {
            at -= 1;
        }
        proof {
            lemma_insert_position(before, item, at as int);
            assert(all.take(it.index() + 1).drop_last() == all.take(it.index()));
            assert(all.take(it.index() + 1).last() == item);
        }
        r.insert(at, item);
    }
    assert(all.take(all.len() as int) == all);
    r
}

/// One sequence comes before another exactly if it is a shorter beginning of it, or smaller at the
/// first place where they differ.
pub proof fn law_order_goes_by_the_first_difference(a: Seq<int>, b: Seq<int>, i: int)
    requires
        0 <= i <= a.len(),
        i <= b.len(),
        forall|k: int| 0 <= k < i ==> #[trigger] a[k] == b[k],
    ensures
        i < a.len() && i < b.len() && a[i] < b[i] ==> codes_before(a, b) && !codes_before(b, a),
        i == a.len() && i < b.len() ==> codes_before(a, b) && !codes_before(b, a),
        i == a.len() && i == b.len() ==> !codes_before(a, b),
{
    assert(a.take(i) =~= b.take(i));
    lemma_codes_first_difference(a, b, i);
    lemma_codes_first_difference(b, a, i);
}

/// Texts are ordered by their code points, and byte strings by their bytes, each in its place.
pub proof fn law_codes_are_those_of_the_text(s: Seq<char>, b: Seq<u8>)
    ensures
        text_codes(s).len() == s.len(),
        forall|i: int| 0 <= i < s.len() ==> #[trigger] text_codes(s)[i] == s[i] as int,
        byte_codes(b).len() == b.len(),
        forall|i: int| 0 <= i < b.len() ==> #[trigger] byte_codes(b)[i] == b[i] as int,
{
}

/// Of two keys of two parts, the first parts decide, and the second ones where those are equal.
pub proof fn law_first_parts_decide(a: Seq<Seq<int>>, b: Seq<Seq<int>>)
    requires
        a.len() == 2,
        b.len() == 2,
    ensures
        key_before(a, b) <==> codes_before(a[0], b[0]) || (a[0] == b[0] && codes_before(a[1], b[1])),
{
    reveal_with_fuel(key_before, 3);
    lemma_codes_irreflexive(a[0]);
    lemma_codes_irreflexive(a[1]);
    let x = a.drop_first();
    let y = b.drop_first();
    assert(x[0] == a[1] && y[0] == b[1]);
    assert(x.drop_first().len() == 0 && y.drop_first().len() == 0);
}

proof fn lemma_insert_is_stable<T: Keyed>(s: Seq<T>, x: T, key: Seq<Seq<int>>)
    requires
        in_order(s),
    ensures
        insert_sorted(s, x).filter(|t: T| t.sort_key() == key) == if x.sort_key() == key {
            s.filter(|t: T| t.sort_key() == key).push(x)
        } else {
            s.filter(|t: T| t.sort_key() == key)
        },
    decreases s.len(),
{
    reveal(Seq::filter);
    let with_key = |t: T| t.sort_key() == key;
    if s.len() == 0 {
        assert(seq![x].drop_last() =~= Seq::<T>::empty());
        assert(seq![x].last() == x);
        assert(s =~= Seq::<T>::empty());
        assert(Seq::<T>::empty().filter(with_key) =~= Seq::<T>::empty());
    } else if key_before(x.sort_key(), s.last().sort_key()) {
        let front = s.drop_last();
        lemma_insert_is_stable(front, x, key);
        let all = insert_sorted(front, x).push(s.last());
        assert(all.drop_last() =~= insert_sorted(front, x));
        if s.last().sort_key() == key {
            lemma_key_irreflexive(key);
            assert(x.sort_key() != key);
        }
    } else {
        assert(s.push(x).drop_last() =~= s);
    }
}

/// Sorting keeps the order of values whose keys are equal.
pub proof fn law_sorting_keeps_the_order_of_equals<T: Keyed>(s: Seq<T>, key: Seq<Seq<int>>)
    ensures
        sorted(s).filter(|t: T| t.sort_key() == key) == s.filter(|t: T| t.sort_key() == key),
    decreases s.len(),
{
    reveal(Seq::filter);
    if s.len() > 0 {
        law_sorting_keeps_the_order_of_equals(s.drop_last(), key);
        lemma_sorted(s.drop_last());
        lemma_insert_is_stable(sorted(s.drop_last()), s.last(), key);
    }
}

/// Of two keys of three parts, the first that differ decide.
pub proof fn law_three_parts_decide_in_turn(a: Seq<Seq<int>>, b: Seq<Seq<int>>)
    requires
        a.len() == 3,
        b.len() == 3,
    ensures
        key_before(a, b) <==> {
            ||| codes_before(a[0], b[0])
            ||| a[0] == b[0] && codes_before(a[1], b[1])
            ||| a[0] == b[0] && a[1] == b[1] && codes_before(a[2], b[2])
        },
{
    lemma_codes_irreflexive(a[0]);
    let x = a.drop_first();
    let y = b.drop_first();
    assert(x[0] == a[1] && x[1] == a[2] && y[0] == b[1] && y[1] == b[2]);
    law_first_parts_decide(x, y);
}

/// Sorting neither loses nor adds anything.
pub proof fn law_sorting_keeps_everything<T: Keyed>(s: Seq<T>, x: T)
    ensures
        sorted(s).contains(x) <==> s.contains(x),
        sorted(s).len() == s.len(),
{
    broadcast use vstd::seq_lib::group_to_multiset_ensures;

    lemma_sorted(s);
    assert(sorted(s).contains(x) <==> sorted(s).to_multiset().count(x) > 0);
    assert(s.contains(x) <==> s.to_multiset().count(x) > 0);
}

/// Texts stand at the same place exactly if they are the same, and else one before the other, as
/// their first difference says.
pub proof fn law_texts_have_their_place(a: &str, b: &str, r: Place, back: Place, i: int)
    requires
        call_ensures(place_texts, (a, b), r),
        call_ensures(place_texts, (b, a), back),
    ensures
        r == Place::Same <==> a@ == b@,
        r == Place::Before <==> back == Place::After,
        0 <= i < a@.len() && i < b@.len() && a@.take(i) == b@.take(i) && (a@[i] as int) < (
        b@[i] as int) ==> r == Place::Before,
        a@.len() < b@.len() && a@.is_prefix_of(b@) ==> r == Place::Before,
{
    let x = text_codes(a@);
    let y = text_codes(b@);
    lemma_codes_total(x, y);
    if x == y {
        lemma_codes_irreflexive(x);
        assert(a@ =~= b@) by {
            assert forall|k: int| 0 <= k < a@.len() implies a@[k] == b@[k] by {
                assert(x[k] == y[k]);
            }
        }
    }
    if codes_before(x, y) && codes_before(y, x) {
        lemma_codes_transitive(x, y, x);
        lemma_codes_irreflexive(x);
    }
    if 0 <= i < a@.len() && i < b@.len() && a@.take(i) == b@.take(i) && (a@[i] as int) < (
    b@[i] as int) {
        assert forall|k: int| 0 <= k < i implies #[trigger] x[k] == y[k] by {
            assert(a@.take(i)[k] == b@.take(i)[k]);
        }
        law_order_goes_by_the_first_difference(x, y, i);
    }
    if a@.len() < b@.len() && a@.is_prefix_of(b@) {
        let n = a@.len() as int;
        assert forall|k: int| 0 <= k < n implies #[trigger] x[k] == y[k] by {
            assert(b@.take(n)[k] == b@[k]);
        }
        law_order_goes_by_the_first_difference(x, y, n);
    }
}

} // verus!
