//! The order in which results are listed (favorites first, then by name) and
//! a stable sort for it.
use vstd::prelude::*;
use crate::text::{
    lemma_text_le_antisymmetric, lemma_text_le_reflexive, lemma_text_le_total,
    lemma_text_le_transitive, text_le,
};

verus! {

broadcast use vstd::seq_lib::to_multiset_insert, vstd::seq_lib::to_multiset_build, vstd::seq_lib::to_multiset_remove;

/// The key an item is listed by: whether it comes in the first group
/// (favorites), then a text ordered lexicographically.
pub type Rank = (bool, Seq<char>);

/// `a` comes before `b` or ties with it: first-group items come first, then
/// texts in lexicographic order.
pub open spec fn rank_le(a: Rank, b: Rank) -> bool {
    (a.0 && !b.0) || (a.0 == b.0 && text_le(a.1, b.1))
}

/// Items listed by a rank.
pub trait Ranked: Sized {
    /// The rank of the item.
    spec fn rank(&self) -> Rank;

    /// Whether `self` comes before `other` or ties with it.
    fn at_most(&self, other: &Self) -> (res: bool)
        ensures
            res == rank_le(self.rank(), other.rank()),
    ;
}

/// Every rank is at most itself.
pub proof fn lemma_rank_le_reflexive(a: Rank)
    ensures
        rank_le(a, a),
{
    lemma_text_le_reflexive(a.1);
}

/// Any two ranks are ordered one way or the other.
pub proof fn lemma_rank_le_total(a: Rank, b: Rank)
    ensures
        rank_le(a, b) || rank_le(b, a),
{
    lemma_text_le_total(a.1, b.1);
}

/// Two ranks each at most the other are the same rank.
pub proof fn lemma_rank_le_antisymmetric(a: Rank, b: Rank)
    requires
        rank_le(a, b),
        rank_le(b, a),
    ensures
        a == b,
{
    lemma_text_le_antisymmetric(a.1, b.1);
}

/// The order of ranks is transitive.
pub proof fn lemma_rank_le_transitive(a: Rank, b: Rank, c: Rank)
    requires
        rank_le(a, b),
        rank_le(b, c),
    ensures
        rank_le(a, c),
{
    if a.0 == b.0 && b.0 == c.0 {
        lemma_text_le_transitive(a.1, b.1, c.1);
    }
}

/// The items of `s` are in rank order.
pub open spec fn sorted_by_rank<T: Ranked>(s: Seq<T>) -> bool {
    forall|i: int, j: int| 0 <= i < j < s.len() ==> rank_le(#[trigger] s[i].rank(), #[trigger] s[j].rank())
}

/// The items of `s` of rank `r`, in their order in `s`.
pub open spec fn of_rank<T: Ranked>(s: Seq<T>, r: Rank) -> Seq<T>
    decreases s.len(),
{
    if s.len() == 0 {
        seq![]
    } else {
        of_rank(s.drop_last(), r) + (if s.last().rank() == r {
            seq![s.last()]
        } else {
            seq![]
        })
    }
}

/// `res` is `s` sorted by rank, items of equal rank kept in their order:
/// `res` is in rank order and holds, for every rank, the same items in the
/// same order as `s`.
pub open spec fn stable_sorted<T: Ranked>(s: Seq<T>, res: Seq<T>) -> bool {
    &&& sorted_by_rank(res)
    &&& forall|r: Rank| #[trigger] of_rank(res, r) == of_rank(s, r)
}

proof fn lemma_of_rank_append<T: Ranked>(a: Seq<T>, b: Seq<T>, r: Rank)
    ensures
        of_rank(a + b, r) == of_rank(a, r) + of_rank(b, r),
    decreases b.len(),
{
    if b.len() == 0 {
        assert(a + b =~= a);
        assert(of_rank(a, r) + of_rank(b, r) =~= of_rank(a, r));
    } else {
        lemma_of_rank_append(a, b.drop_last(), r);
        assert((a + b).drop_last() =~= a + b.drop_last());
        assert(of_rank(a + b, r) =~= of_rank(a, r) + of_rank(b, r));
    }
}

proof fn lemma_of_rank_none<T: Ranked>(s: Seq<T>, r: Rank)
    requires
        forall|i: int| 0 <= i < s.len() ==> #[trigger] s[i].rank() != r,
    ensures
        of_rank(s, r) == Seq::<T>::empty(),
    decreases s.len(),
{
    if s.len() > 0 {
        lemma_of_rank_none(s.drop_last(), r);
        assert(of_rank(s, r) =~= Seq::<T>::empty());
    }
}

/// Inserting `x` after every item that is at most it keeps the rank order
/// and puts `x` last among the items of its rank.
proof fn lemma_insert_ranked<T: Ranked>(s: Seq<T>, k: int, x: T)
    requires
        sorted_by_rank(s),
        0 <= k <= s.len(),
        forall|m: int| 0 <= m < k ==> rank_le(#[trigger] s[m].rank(), x.rank()),
        k < s.len() ==> !rank_le(s[k].rank(), x.rank()),
    ensures
        sorted_by_rank(s.insert(k, x)),
        forall|r: Rank| #[trigger] of_rank(s.insert(k, x), r) == if r == x.rank() {
            of_rank(s, r).push(x)
        } else {
            of_rank(s, r)
        },
{
    let t = s.insert(k, x);
    assert forall|m: int| k <= m < s.len() implies rank_le(x.rank(), #[trigger] s[m].rank())
        && s[m].rank() != x.rank() by {
        lemma_rank_le_total(s[k].rank(), x.rank());
        if m > k {
            lemma_rank_le_transitive(x.rank(), s[k].rank(), s[m].rank());
            if rank_le(s[m].rank(), x.rank()) {
                lemma_rank_le_transitive(s[k].rank(), s[m].rank(), x.rank());
            }
        }
        if s[m].rank() == x.rank() {
            lemma_rank_le_reflexive(x.rank());
        }
    }
    assert forall|i: int, j: int| 0 <= i < j < t.len() implies rank_le(
        #[trigger] t[i].rank(),
        #[trigger] t[j].rank(),
    ) by {
        if j < k {
        } else if j == k {
        } else if i < k {
            lemma_rank_le_transitive(s[i].rank(), x.rank(), s[j - 1].rank());
        } else if i == k {
        } else {
        }
    }
    let head = s.take(k);
    let tail = s.skip(k);
    assert(s =~= head + tail);
    assert(t =~= head + seq![x] + tail);
    assert forall|r: Rank| #[trigger] of_rank(t, r) == if r == x.rank() {
        of_rank(s, r).push(x)
    } else {
        of_rank(s, r)
    } by {
        lemma_of_rank_append(head + seq![x], tail, r);
        lemma_of_rank_append(head, seq![x], r);
        lemma_of_rank_append(head, tail, r);
        assert(seq![x].drop_last() =~= Seq::<T>::empty());
        assert(of_rank(Seq::<T>::empty(), r) =~= Seq::<T>::empty());
        if r == x.rank() {
            assert forall|i: int| 0 <= i < tail.len() implies #[trigger] tail[i].rank() != r by {
                assert(tail[i] == s[k + i]);
            }
            lemma_of_rank_none(tail, r);
            assert(of_rank(t, r) =~= of_rank(s, r).push(x));
        } else {
            assert(of_rank(seq![x], r) =~= Seq::<T>::empty());
            assert(of_rank(t, r) =~= of_rank(s, r));
        }
    }
}

proof fn lemma_of_rank_member<T: Ranked>(s: Seq<T>, r: Rank)
    requires
        of_rank(s, r).len() > 0,
    ensures
        exists|i: int| 0 <= i < s.len() && #[trigger] s[i].rank() == r,
    decreases s.len(),
{
    if s.last().rank() != r {
        assert(of_rank(s, r) =~= of_rank(s.drop_last(), r));
        lemma_of_rank_member(s.drop_last(), r);
        let i = choose|i: int| 0 <= i < s.drop_last().len() && #[trigger] s.drop_last()[i].rank() == r;
        assert(s[i] == s.drop_last()[i]);
    } else {
        assert(s[s.len() - 1].rank() == r);
    }
}

proof fn lemma_of_rank_nonempty<T: Ranked>(s: Seq<T>, i: int)
    requires
        0 <= i < s.len(),
    ensures
        of_rank(s, s[i].rank()).len() > 0,
    decreases s.len(),
{
    if i < s.len() - 1 {
        assert(s.drop_last()[i] == s[i]);
        lemma_of_rank_nonempty(s.drop_last(), i);
    }
}

/// Sorting by rank has one answer: two sequences in rank order that hold,
/// for every rank, the same items in the same order are equal. So the
/// contract of [`sort_ranked`] fixes its result.
pub proof fn lemma_stable_sorted_unique<T: Ranked>(a: Seq<T>, b: Seq<T>)
    requires
        sorted_by_rank(a),
        sorted_by_rank(b),
        forall|r: Rank| #[trigger] of_rank(a, r) == of_rank(b, r),
    ensures
        a == b,
    decreases a.len() + b.len(),
{
    if a.len() == 0 || b.len() == 0 {
        if b.len() > 0 {
            lemma_of_rank_nonempty(b, b.len() - 1);
            assert(of_rank(a, b.last().rank()) =~= Seq::<T>::empty());
        }
        if a.len() > 0 {
            lemma_of_rank_nonempty(a, a.len() - 1);
            assert(of_rank(b, a.last().rank()) =~= Seq::<T>::empty());
        }
        assert(a =~= b);
    } else {
        let ra = a.last().rank();
        let rb = b.last().rank();
        lemma_of_rank_nonempty(a, a.len() - 1);
        lemma_of_rank_nonempty(b, b.len() - 1);
        assert(of_rank(b, ra) == of_rank(a, ra));
        lemma_of_rank_member(b, ra);
        let i = choose|i: int| 0 <= i < b.len() && #[trigger] b[i].rank() == ra;
        if i < b.len() - 1 {
            assert(rank_le(b[i].rank(), b[b.len() - 1].rank()));
        } else {
            lemma_rank_le_reflexive(ra);
        }
        assert(of_rank(a, rb) == of_rank(b, rb));
        lemma_of_rank_member(a, rb);
        let j = choose|j: int| 0 <= j < a.len() && #[trigger] a[j].rank() == rb;
        if j < a.len() - 1 {
            assert(rank_le(a[j].rank(), a[a.len() - 1].rank()));
        } else {
            lemma_rank_le_reflexive(rb);
        }
        lemma_rank_le_antisymmetric(ra, rb);
        let a0 = a.drop_last();
        let b0 = b.drop_last();
        assert(of_rank(a, ra) == of_rank(a0, ra).push(a.last()));
        assert(of_rank(b, ra) == of_rank(b0, ra).push(b.last()));
        assert(of_rank(a, ra)[of_rank(a0, ra).len() as int] == a.last());
        assert(a.last() == b.last());
        assert(of_rank(a0, ra) =~= of_rank(a, ra).drop_last());
        assert(of_rank(b0, ra) =~= of_rank(b, ra).drop_last());
        assert forall|r: Rank| #[trigger] of_rank(a0, r) == of_rank(b0, r) by {
            if r != ra {
                assert(of_rank(a, r) =~= of_rank(a0, r));
                assert(of_rank(b, r) =~= of_rank(b0, r));
            }
        }
        assert forall|i: int, j: int| 0 <= i < j < a0.len() implies rank_le(
            #[trigger] a0[i].rank(),
            #[trigger] a0[j].rank(),
        ) by {
            assert(a0[i] == a[i] && a0[j] == a[j]);
        }
        assert forall|i: int, j: int| 0 <= i < j < b0.len() implies rank_le(
            #[trigger] b0[i].rank(),
            #[trigger] b0[j].rank(),
        ) by {
            assert(b0[i] == b[i] && b0[j] == b[j]);
        }
        lemma_stable_sorted_unique(a0, b0);
        assert(a =~= a0.push(a.last()));
        assert(b =~= b0.push(b.last()));
    }
}

/// The items of `v` in rank order, items of equal rank in their order in `v`
/// (a stable sort, as `slice::sort` is).
pub fn sort_ranked<T: Ranked>(v: Vec<T>) -> (res: Vec<T>)
    ensures
        stable_sorted(v@, res@),
        res@.to_multiset() == v@.to_multiset(),
{
    let ghost orig = v@;
    let mut rest = v;
    let mut out: Vec<T> = Vec::new();
    let mut i: usize = 0;
    let n = rest.len();
    assert(orig.skip(0) =~= orig);
    assert(out@ =~= orig.take(0));
    while i < n
        invariant
            n == orig.len(),
            i <= n,
            rest@ == orig.skip(i as int),
            sorted_by_rank(out@),
            forall|r: Rank| #[trigger] of_rank(out@, r) == of_rank(orig.take(i as int), r),
            out@.to_multiset() == orig.take(i as int).to_multiset(),
        decreases n - i,
    {
        let x = rest.remove(0);
        assert(rest@ =~= orig.skip(i + 1));
        let mut k: usize = 0;
        while k < out.len() && out[k].at_most(&x)
            invariant
                k <= out@.len(),
                forall|m: int| 0 <= m < k ==> rank_le(#[trigger] out@[m].rank(), x.rank()),
            decreases out.len() - k,
        {
            k = k + 1;
        }
        proof {
            lemma_insert_ranked(out@, k as int, x);
            assert(orig.take(i + 1) =~= orig.take(i as int).push(x));
            assert forall|r: Rank| #[trigger] of_rank(out@.insert(k as int, x), r) == of_rank(
                orig.take(i + 1),
                r,
            ) by {
                assert(orig.take(i + 1).drop_last() =~= orig.take(i as int));
            }
        }
        out.insert(k, x);
        i = i + 1;
    }
    assert(orig.take(n as int) =~= orig);
    out
}

} // verus!

verus! {

/// The three-way comparison of two ranks.
pub open spec fn order_of(a: Rank, b: Rank) -> std::cmp::Ordering {
    if a == b {
        std::cmp::Ordering::Equal
    } else if rank_le(a, b) {
        std::cmp::Ordering::Less
    } else {
        std::cmp::Ordering::Greater
    }
}

/// Comparing the other way round gives the reverse answer.
pub proof fn lemma_order_of_reverse(a: Rank, b: Rank)
    ensures
        order_of(a, b) == std::cmp::Ordering::Less <==> order_of(b, a) == std::cmp::Ordering::Greater,
        order_of(a, b) == std::cmp::Ordering::Equal <==> order_of(b, a) == std::cmp::Ordering::Equal,
{
    lemma_rank_le_total(a, b);
    if rank_le(a, b) && rank_le(b, a) {
        lemma_rank_le_antisymmetric(a, b);
    }
}

/// `Less` is transitive.
pub proof fn lemma_order_of_transitive(a: Rank, b: Rank, c: Rank)
    requires
        order_of(a, b) == std::cmp::Ordering::Less,
        order_of(b, c) == std::cmp::Ordering::Less,
    ensures
        order_of(a, c) == std::cmp::Ordering::Less,
{
    lemma_rank_le_transitive(a, b, c);
    if a == c {
        lemma_rank_le_antisymmetric(a, b);
    }
}

} // verus!

verus! {

/// `cmp` answers `Greater` exactly when the first rank does not come before
/// the second or tie with it: sorting by rank is sorting by `cmp`.
pub proof fn lemma_order_of_rank_le(a: Rank, b: Rank)
    ensures
        order_of(a, b) != std::cmp::Ordering::Greater <==> rank_le(a, b),
{
    if a == b {
        lemma_rank_le_reflexive(a);
    }
}

} // verus!
