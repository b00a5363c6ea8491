use vstd::prelude::*;

use crate::types::{Asset, ListingId};

verus! {

/// `s` without any occurrence of `x`, the rest in order.
pub open spec fn remove_all<T>(s: Seq<T>, x: T) -> Seq<T>
    decreases s.len(),
{
    if s.len() == 0 {
        s
    } else {
        let r = remove_all(s.drop_last(), x);
        if s.last() == x {
            r
        } else {
            r.push(s.last())
        }
    }
}

pub proof fn lemma_remove_all_contains<T>(s: Seq<T>, x: T)
    ensures
        forall|y: T| #[trigger] remove_all(s, x).contains(y) <==> s.contains(y) && y != x,
    decreases s.len(),
{
    if s.len() > 0 {
        lemma_remove_all_contains(s.drop_last(), x);
        let d = s.drop_last();
        let r = remove_all(d, x);
        assert forall|y: T| #[trigger] remove_all(s, x).contains(y) <==> s.contains(y) && y != x by {
            if s.contains(y) && y != x {
                let i = choose|i: int| 0 <= i < s.len() && s[i] == y;
                if i < s.len() - 1 {
                    assert(d[i] == y);
                    assert(d.contains(y));
                    assert(r.contains(y));
                    let j = choose|j: int| 0 <= j < r.len() && r[j] == y;
                    if s.last() != x {
                        assert(r.push(s.last())[j] == y);
                    }
                } else {
                    assert(r.push(s.last())[r.len() as int] == y);
                }
            }
            if remove_all(s, x).contains(y) {
                let j = choose|j: int| 0 <= j < remove_all(s, x).len() && remove_all(s, x)[j] == y;
                if s.last() != x && j == r.len() {
                    assert(s[s.len() - 1] == y);
                } else {
                    assert(r[j] == y);
                    assert(r.contains(y));
                    assert(d.contains(y));
                    let i = choose|i: int| 0 <= i < d.len() && d[i] == y;
                    assert(s[i] == y);
                }
            }
        }
    }
}

/// What a sequence holds after a push.
pub proof fn lemma_push_contains<T>(s: Seq<T>, x: T)
    ensures
        forall|y: T| #[trigger] s.push(x).contains(y) <==> s.contains(y) || y == x,
{
    assert forall|y: T| #[trigger] s.push(x).contains(y) <==> s.contains(y) || y == x by {
        if s.contains(y) {
            let i = choose|i: int| 0 <= i < s.len() && s[i] == y;
            assert(s.push(x)[i] == y);
        }
        if y == x {
            assert(s.push(x)[s.len() as int] == y);
        }
        if s.push(x).contains(y) && y != x {
            let i = choose|i: int| 0 <= i < s.len() + 1 && s.push(x)[i] == y;
            assert(s[i] == y);
        }
    }
}

/// Pushing an element that does not occur keeps a sequence without repetitions.
pub proof fn lemma_push_unique<T>(s: Seq<T>, x: T)
    requires
        s.no_duplicates(),
        !s.contains(x),
    ensures
        s.push(x).no_duplicates(),
{
    assert forall|i: int, j: int|
        0 <= i < s.len() + 1 && 0 <= j < s.len() + 1 && i != j implies s.push(x)[i] != s.push(
        x,
    )[j] by {
        if i == s.len() {
            assert(s[j] == s.push(x)[j]);
        } else if j == s.len() {
            assert(s[i] == s.push(x)[i]);
        }
    }
}

/// Removing an element that does not occur changes nothing.
pub proof fn lemma_remove_all_absent<T>(s: Seq<T>, x: T)
    requires
        !s.contains(x),
    ensures
        remove_all(s, x) == s,
    decreases s.len(),
{
    if s.len() > 0 {
        assert(!s.drop_last().contains(x)) by {
            if s.drop_last().contains(x) {
                let i = choose|i: int| 0 <= i < s.drop_last().len() && s.drop_last()[i] == x;
                assert(s[i] == x);
            }
        }
        lemma_remove_all_absent(s.drop_last(), x);
        assert(s.last() != x) by {
            assert(s[s.len() - 1] == s.last());
        }
        assert(s.drop_last().push(s.last()) == s);
    }
}

/// Removing an element from a sequence without repetitions keeps it without repetitions
/// and, where the element occurs, shortens it by one.
pub proof fn lemma_remove_all_unique<T>(s: Seq<T>, x: T)
    requires
        s.no_duplicates(),
    ensures
        remove_all(s, x).no_duplicates(),
        remove_all(s, x).len() == if s.contains(x) {
            s.len() - 1
        } else {
            s.len() as int
        },
    decreases s.len(),
{
    if s.len() > 0 {
        let d = s.drop_last();
        assert(d.no_duplicates());
        lemma_remove_all_unique(d, x);
        lemma_remove_all_contains(d, x);
        let r = remove_all(d, x);
        if s.last() != x {
            assert(!d.contains(s.last()));
            assert(!r.contains(s.last()));
            assert(r.push(s.last()).no_duplicates()) by {
                assert forall|i: int, j: int|
                    0 <= i < r.len() + 1 && 0 <= j < r.len() + 1 && i != j implies r.push(
                    s.last(),
                )[i] != r.push(s.last())[j] by {
                    if i == r.len() {
                        assert(r[j] == r.push(s.last())[j]);
                    } else if j == r.len() {
                        assert(r[i] == r.push(s.last())[i]);
                    }
                }
            }
            if s.contains(x) {
                let i = choose|i: int| 0 <= i < s.len() && s[i] == x;
                assert(d[i] == x);
            } else {
                assert forall|i: int| 0 <= i < d.len() implies d[i] != x by {
                    assert(s[i] == d[i]);
                }
            }
        } else {
            assert(!d.contains(x));
        }
    }
}

/// `v` without `x`.
pub fn remove_id(v: &Vec<ListingId>, x: ListingId) -> (r: Vec<ListingId>)
    ensures
        r@ == remove_all(v@, x),
{
    let mut r: Vec<ListingId> = Vec::new();
    let mut i: usize = 0;
    while i < v.len()
        invariant
            i <= v.len(),
            r@ == remove_all(v@.subrange(0, i as int), x),
        decreases v.len() - i,
    {
        assert(v@.subrange(0, i + 1).drop_last() == v@.subrange(0, i as int));
        if v[i] != x {
            r.push(v[i]);
        }
        i = i + 1;
    }
    assert(v@.subrange(0, v.len() as int) == v@);
    r
}

/// `v` without `x`.
pub fn remove_asset(v: &Vec<Asset>, x: Asset) -> (r: Vec<Asset>)
    ensures
        r@ == remove_all(v@, x),
{
    let mut r: Vec<Asset> = Vec::new();
    let mut i: usize = 0;
    while i < v.len()
        invariant
            i <= v.len(),
            r@ == remove_all(v@.subrange(0, i as int), x),
        decreases v.len() - i,
    {
        assert(v@.subrange(0, i + 1).drop_last() == v@.subrange(0, i as int));
        let y = v[i];
        if !(y.0 == x.0 && y.1 == x.1) {
            r.push(y);
        }
        i = i + 1;
    }
    assert(v@.subrange(0, v.len() as int) == v@);
    r
}

/// A copy of `v`.
pub fn copy_assets(v: &Vec<Asset>) -> (r: Vec<Asset>)
    ensures
        r@ == v@,
{
    let mut r: Vec<Asset> = Vec::new();
    let mut i: usize = 0;
    while i < v.len()
        invariant
            i <= v.len(),
            r@ == v@.subrange(0, i as int),
        decreases v.len() - i,
    {
        r.push(v[i]);
        i = i + 1;
    }
    r
}

/// A copy of `v`.
pub fn copy_ids(v: &Vec<ListingId>) -> (r: Vec<ListingId>)
    ensures
        r@ == v@,
{
    let mut r: Vec<ListingId> = Vec::new();
    let mut i: usize = 0;
    while i < v.len()
        invariant
            i <= v.len(),
            r@ == v@.subrange(0, i as int),
        decreases v.len() - i,
    {
        r.push(v[i]);
        i = i + 1;
    }
    r
}

} // verus!
