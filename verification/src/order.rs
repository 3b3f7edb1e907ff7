//! The order of names: character by character, a prefix before what it begins.

use vstd::prelude::*;

use crate::text::{chars_of, texts};

verus! {

/// Whether `a` stands strictly before `b`.
pub open spec fn before(a: Seq<char>, b: Seq<char>) -> bool
    decreases a.len(),
{
    if b.len() == 0 {
        false
    } else if a.len() == 0 {
        true
    } else if a[0] == b[0] {
        before(a.skip(1), b.skip(1))
    } else {
        (a[0] as int) < (b[0] as int)
    }
}

/// Nothing stands before itself.
pub proof fn lemma_before_irreflexive(a: Seq<char>)
    ensures
        !before(a, a),
    decreases a.len(),
{
    if a.len() > 0 {
        lemma_before_irreflexive(a.skip(1));
    }
}

/// What stands before something that stands before a third stands before it.
pub proof fn lemma_before_transitive(a: Seq<char>, b: Seq<char>, c: Seq<char>)
    requires
        before(a, b),
        before(b, c),
    ensures
        before(a, c),
    decreases a.len(),
{
    if a.len() > 0 && a[0] == b[0] && b[0] == c[0] {
        lemma_before_transitive(a.skip(1), b.skip(1), c.skip(1));
    }
}

/// Of two different names one stands before the other.
pub proof fn lemma_before_total(a: Seq<char>, b: Seq<char>)
    ensures
        before(a, b) || before(b, a) || a == b,
    decreases a.len(),
{
    if a.len() > 0 && b.len() > 0 {
        if a[0] == b[0] {
            lemma_before_total(a.skip(1), b.skip(1));
            if a.skip(1) == b.skip(1) {
                assert forall|i: int| 0 <= i < a.len() implies a[i] == b[i] by {
                    if i > 0 {
                        assert(a[i] == a.skip(1)[i - 1]);
                        assert(b[i] == b.skip(1)[i - 1]);
                    }
                }
                assert(a.skip(1).len() == b.skip(1).len());
                assert(a =~= b);
            }
        }
    } else if a.len() == 0 && b.len() == 0 {
        assert(a =~= b);
    }
}

/// Whether `a` stands strictly before `b`.
pub fn is_before(a: &str, b: &str) -> (r: bool)
    ensures
        r == before(a@, b@),
{
    let x: Vec<char> = chars_of(a);
    let y: Vec<char> = chars_of(b);
    let mut i: usize = 0;
    assert(x@.skip(0) == a@ && y@.skip(0) == b@);
    while i < x.len() && i < y.len() && x[i] == y[i]
        invariant
            i <= x.len(),
            i <= y.len(),
            before(a@, b@) == before(x@.skip(i as int), y@.skip(i as int)),
        decreases x.len() - i,
    {
        assert(x@.skip(i as int).skip(1) == x@.skip(i + 1));
        assert(y@.skip(i as int).skip(1) == y@.skip(i + 1));
        i = i + 1;
    }
    if i >= y.len() {
        false
    } else if i >= x.len() {
        true
    } else {
        x[i] < y[i]
    }
}

/// Whether no name stands before one that precedes it.
pub open spec fn ordered(names: Seq<Seq<char>>) -> bool {
    forall|i: int, j: int|
        0 <= i < j < names.len() ==> !before(#[trigger] names[j], #[trigger] names[i])
}

/// `names` with `name` put behind everything that it does not stand before.
pub open spec fn placed(names: Seq<Seq<char>>, name: Seq<char>) -> Seq<Seq<char>>
    decreases names.len(),
{
    if names.len() > 0 && before(name, names.last()) {
        placed(names.drop_last(), name).push(names.last())
    } else {
        names.push(name)
    }
}

/// The names in order.
pub open spec fn in_order(names: Seq<Seq<char>>) -> Seq<Seq<char>>
    decreases names.len(),
{
    if names.len() == 0 {
        names
    } else {
        placed(in_order(names.drop_last()), names.last())
    }
}

proof fn lemma_placed(names: Seq<Seq<char>>, name: Seq<char>)
    requires
        ordered(names),
    ensures
        ordered(placed(names, name)),
        placed(names, name).to_multiset() == names.to_multiset().insert(name),
        placed(names, name).len() == names.len() + 1,
        forall|x: Seq<char>| #[trigger]
            placed(names, name).contains(x) ==> names.contains(x) || x == name,
    decreases names.len(),
{
    broadcast use vstd::seq_lib::group_to_multiset_ensures;

    if names.len() > 0 && before(name, names.last()) {
        let rest = names.drop_last();
        let last = names.last();
        lemma_placed(rest, name);
        let front = placed(rest, name);
        let all = front.push(last);
        assert(names =~= rest.push(last));
        assert(all.to_multiset() =~= names.to_multiset().insert(name));
        assert forall|i: int, j: int| 0 <= i < j < all.len() implies !before(
            #[trigger] all[j],
            #[trigger] all[i],
        ) by {
            if j == front.len() {
                assert(front.contains(front[i]));
                if front[i] == name {
                    if before(last, name) {
                        lemma_before_transitive(name, last, name);
                        lemma_before_irreflexive(name);
                    }
                } else {
                    let k = choose|k: int| 0 <= k < rest.len() && rest[k] == front[i];
                    assert(!before(names[names.len() - 1], names[k]));
                }
            } else {
                assert(!before(front[j], front[i]));
            }
        }
        assert forall|x: Seq<char>| #[trigger] all.contains(x) implies names.contains(x) || x
            == name by {
            let k = choose|k: int| 0 <= k < all.len() && all[k] == x;
            if k < front.len() {
                assert(front.contains(front[k]));
                if rest.contains(x) {
                    let m = choose|m: int| 0 <= m < rest.len() && rest[m] == x;
                    assert(names[m] == x);
                }
            } else {
                assert(names[names.len() - 1] == x);
            }
        }
    } else {
        let all = names.push(name);
        assert forall|i: int, j: int| 0 <= i < j < all.len() implies !before(
            #[trigger] all[j],
            #[trigger] all[i],
        ) by {
            if j == names.len() {
                let last = names.last();
                lemma_before_total(name, last);
                if i < names.len() - 1 {
                    assert(!before(names[names.len() - 1], names[i]));
                    if before(name, names[i]) {
                        if last == name {
                        } else {
                            lemma_before_transitive(last, name, names[i]);
                        }
                    }
                }
            } else {
                assert(!before(names[j], names[i]));
            }
        }
        assert forall|x: Seq<char>| #[trigger] all.contains(x) implies names.contains(x) || x
            == name by {
            let k = choose|k: int| 0 <= k < all.len() && all[k] == x;
            if k < names.len() {
                assert(names[k] == x);
            }
        }
    }
}

/// Putting names in order keeps every one of them, as often as it occurs, and
/// leaves none before one that precedes it.
pub proof fn law_in_order(names: Seq<Seq<char>>)
    ensures
        ordered(in_order(names)),
        in_order(names).to_multiset() == names.to_multiset(),
        in_order(names).len() == names.len(),
    decreases names.len(),
{
    broadcast use vstd::seq_lib::group_to_multiset_ensures;

    if names.len() > 0 {
        law_in_order(names.drop_last());
        lemma_placed(in_order(names.drop_last()), names.last());
        assert(names =~= names.drop_last().push(names.last()));
    }
}

/// The same names stand in a sequence and in its ordered form.
pub proof fn lemma_in_order_contains(names: Seq<Seq<char>>, x: Seq<char>)
    ensures
        in_order(names).contains(x) <==> names.contains(x),
{
    broadcast use vstd::seq_lib::group_to_multiset_ensures;

    law_in_order(names);
    assert(in_order(names).contains(x) <==> in_order(names).to_multiset().count(x) > 0);
    assert(names.contains(x) <==> names.to_multiset().count(x) > 0);
}

/// Put names in order.
pub fn sort(names: Vec<String>) -> (r: Vec<String>)
    ensures
        texts(r@) == in_order(texts(names@)),
{
    let mut out: Vec<String> = Vec::new();
    let mut i: usize = 0;
    assert(texts(out@) =~= in_order(texts(names@).take(0)));
    while i < names.len()
        invariant
            i <= names.len(),
            texts(out@) == in_order(texts(names@).take(i as int)),
        decreases names.len() - i,
    {
        let ghost sorted = texts(out@);
        let ghost name = texts(names@)[i as int];
        let mut at: usize = out.len();
        assert(sorted.take(at as int) == sorted);
        assert(sorted.skip(at as int) =~= Seq::empty());
        assert(placed(sorted, name) =~= placed(sorted.take(at as int), name) + sorted.skip(
            at as int,
        ));
        while at > 0 && is_before(names[i].as_str(), out[at - 1].as_str())
            invariant
                i < names.len(),
                at <= out.len(),
                sorted == texts(out@),
                name == texts(names@)[i as int],
                placed(sorted, name) == placed(sorted.take(at as int), name) + sorted.skip(
                    at as int,
                ),
            decreases at,
        {
            proof {
                let front = sorted.take(at as int);
                assert(front.last() == sorted[at - 1]);
                assert(front.drop_last() == sorted.take(at - 1));
                assert(placed(front, name) + sorted.skip(at as int) =~= placed(
                    sorted.take(at - 1),
                    name,
                ) + sorted.skip(at - 1));
            }
            at = at - 1;
        }
        let copy: String = names[i].clone();
        proof {
            let front = sorted.take(at as int);
            if at > 0 {
                assert(front.last() == sorted[at - 1]);
            }
            assert(placed(front, name) == front.push(name));
            let next = texts(names@).take(i + 1);
            assert(next.drop_last() == texts(names@).take(i as int));
            assert(next.last() == name);
        }
        out.insert(at, copy);
        proof {
            assert(texts(out@) =~= sorted.take(at as int).push(name) + sorted.skip(at as int));
        }
        i = i + 1;
    }
    assert(texts(names@).take(i as int) == texts(names@));
    out
}

/// A name stands before another exactly when, behind what the two have in common
/// at their beginning, it ends and the other does not, or its next character is
/// the smaller one.
pub proof fn law_before(a: Seq<char>, b: Seq<char>)
    ensures
        before(a, b) <==> exists|k: int|
            {
                &&& 0 <= k <= a.len()
                &&& k < b.len()
                &&& #[trigger] a.take(k) == b.take(k)
                &&& k < a.len() ==> (a[k] as int) < (b[k] as int)
            },
    decreases a.len(),
{
    if b.len() == 0 {
    } else if a.len() == 0 {
        assert(a.take(0) =~= b.take(0));
    } else if a[0] == b[0] {
        let x = a.skip(1);
        let y = b.skip(1);
        law_before(x, y);
        if before(a, b) {
            let k = choose|k: int|
                {
                    &&& 0 <= k <= x.len()
                    &&& k < y.len()
                    &&& #[trigger] x.take(k) == y.take(k)
                    &&& k < x.len() ==> (x[k] as int) < (y[k] as int)
                };
            assert forall|i: int| 0 <= i < k + 1 implies a[i] == b[i] by {
                if i > 0 {
                    assert(x.take(k)[i - 1] == a[i] && y.take(k)[i - 1] == b[i]);
                }
            }
            assert(a.take(k + 1) =~= b.take(k + 1));
        }
        if exists|k: int|
            {
                &&& 0 <= k <= a.len()
                &&& k < b.len()
                &&& #[trigger] a.take(k) == b.take(k)
                &&& k < a.len() ==> (a[k] as int) < (b[k] as int)
            } {
            let k = choose|k: int|
                {
                    &&& 0 <= k <= a.len()
                    &&& k < b.len()
                    &&& #[trigger] a.take(k) == b.take(k)
                    &&& k < a.len() ==> (a[k] as int) < (b[k] as int)
                };
            assert(k > 0);
            assert forall|i: int| 0 <= i < k - 1 implies x[i] == y[i] by {
                assert(a.take(k)[i + 1] == x[i] && b.take(k)[i + 1] == y[i]);
            }
            assert(x.take(k - 1) =~= y.take(k - 1));
        }
    } else {
        assert(a.take(0) =~= b.take(0));
        assert forall|k: int|
            {
                &&& 0 <= k <= a.len()
                &&& k < b.len()
                &&& #[trigger] a.take(k) == b.take(k)
                &&& k < a.len() ==> (a[k] as int) < (b[k] as int)
            } implies before(a, b) by {
            if k > 0 {
                assert(a.take(k)[0] == a[0] && b.take(k)[0] == b[0]);
            }
        }
    }
}

} // verus!
