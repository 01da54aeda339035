//! Fork-join merge sort: splitting a sequence, merging sorted halves, and the
//! per-call join point that couples two children back to their parent.
use vstd::prelude::*;

verus! {

/// Every element is at most each element after it.
pub open spec fn sorted(s: Seq<i64>) -> bool {
    forall|i: int, j: int| 0 <= i < j < s.len() ==> s[i] <= s[j]
}

/// `a` holds the same elements as `b`, each as many times.
pub open spec fn permutation_of(a: Seq<i64>, b: Seq<i64>) -> bool {
    a.to_multiset() == b.to_multiset()
}

/// The two-way merge: repeatedly take the smaller head, the left one on a tie,
/// and append what is left of the other side once one side runs out.
pub open spec fn merged(left: Seq<i64>, right: Seq<i64>) -> Seq<i64>
    decreases left.len() + right.len(),
{
    if left.len() == 0 {
        right
    } else if right.len() == 0 {
        left
    } else if left[0] <= right[0] {
        seq![left[0]] + merged(left.drop_first(), right)
    } else {
        seq![right[0]] + merged(left, right.drop_first())
    }
}

/// The merge holds exactly the elements of both sides.
pub proof fn lemma_merged_permutation(left: Seq<i64>, right: Seq<i64>)
    ensures
        permutation_of(merged(left, right), left + right),
        merged(left, right).len() == left.len() + right.len(),
    decreases left.len() + right.len(),
{
    broadcast use vstd::seq_lib::group_to_multiset_ensures;
    broadcast use vstd::multiset::group_multiset_axioms;

    if left.len() == 0 {
        assert(left + right =~= right);
    } else if right.len() == 0 {
        assert(left + right =~= left);
    } else if left[0] <= right[0] {
        lemma_merged_permutation(left.drop_first(), right);
        let rest = merged(left.drop_first(), right);
        vstd::seq_lib::lemma_multiset_commutative(seq![left[0]], rest);
        vstd::seq_lib::lemma_multiset_commutative(seq![left[0]], left.drop_first() + right);
        assert(seq![left[0]] + (left.drop_first() + right) =~= left + right);
    } else {
        lemma_merged_permutation(left, right.drop_first());
        let rest = merged(left, right.drop_first());
        vstd::seq_lib::lemma_multiset_commutative(seq![right[0]], rest);
        vstd::seq_lib::lemma_multiset_commutative(left, right);
        vstd::seq_lib::lemma_multiset_commutative(left, right.drop_first());
        vstd::seq_lib::lemma_multiset_commutative(seq![right[0]], right.drop_first());
        assert(seq![right[0]] + right.drop_first() =~= right);
        assert(merged(left, right).to_multiset() =~= (left + right).to_multiset());
    }
}

/// Anything in a sequence is in every permutation of it.
proof fn lemma_permutation_contains(a: Seq<i64>, b: Seq<i64>, k: int)
    requires
        permutation_of(a, b),
        0 <= k < a.len(),
    ensures
        b.contains(a[k]),
{
    broadcast use vstd::seq_lib::group_to_multiset_ensures;

    assert(a.contains(a[k]));
    assert(a.to_multiset().count(a[k]) > 0);
    assert(b.to_multiset().count(a[k]) > 0);
}

/// Merging two sorted sequences gives a sorted sequence.
pub proof fn lemma_merged_sorted(left: Seq<i64>, right: Seq<i64>)
    requires
        sorted(left),
        sorted(right),
    ensures
        sorted(merged(left, right)),
    decreases left.len() + right.len(),
{
    if left.len() == 0 || right.len() == 0 {
    } else {
        let (head, tail_l, tail_r) = if left[0] <= right[0] {
            (left[0], left.drop_first(), right)
        } else {
            (right[0], left, right.drop_first())
        };
        lemma_merged_sorted(tail_l, tail_r);
        lemma_merged_permutation(tail_l, tail_r);
        let rest = merged(tail_l, tail_r);
        assert forall|k: int| 0 <= k < rest.len() implies head <= rest[k] by {
            lemma_permutation_contains(rest, tail_l + tail_r, k);
            let m = choose|m: int|
                0 <= m < (tail_l + tail_r).len() && (tail_l + tail_r)[m] == rest[k];
            if m < tail_l.len() {
                assert(tail_l[m] == (tail_l + tail_r)[m]);
            } else {
                assert(tail_r[m - tail_l.len()] == (tail_l + tail_r)[m]);
            }
        }
        assert(merged(left, right) =~= seq![head] + rest);
    }
}

/// Merging a sequence with an empty one leaves it as it is.
proof fn lemma_merged_one_empty(left: Seq<i64>, right: Seq<i64>)
    requires
        left.len() == 0 || right.len() == 0,
    ensures
        merged(left, right) == left + right,
{
    if left.len() == 0 {
        assert(left + right =~= right);
    } else {
        assert(left + right =~= left);
    }
}

/// Merge two sorted slices into one sorted vector. On equal heads the element of
/// `left` comes first; once one side is used up the rest of the other follows.
pub fn merge(left: &[i64], right: &[i64]) -> (result: Vec<i64>)
    requires
        left@.len() + right@.len() <= usize::MAX,
    ensures
        result@ == merged(left@, right@),
{
    let mut result: Vec<i64> = Vec::with_capacity(left.len() + right.len());
    let mut i: usize = 0;
    let mut j: usize = 0;
    assert(left@.subrange(0, left@.len() as int) =~= left@);
    assert(right@.subrange(0, right@.len() as int) =~= right@);
    assert(result@ + merged(left@, right@) =~= merged(left@, right@));
    while i < left.len() && j < right.len()
        invariant
            0 <= i <= left@.len(),
            0 <= j <= right@.len(),
            result@ + merged(left@.subrange(i as int, left@.len() as int), right@.subrange(
                j as int,
                right@.len() as int,
            )) == merged(left@, right@),
        decreases left@.len() - i + right@.len() - j,
    {
        let ghost l = left@.subrange(i as int, left@.len() as int);
        let ghost r = right@.subrange(j as int, right@.len() as int);
        if left[i] <= right[j] {
            assert(l.drop_first() =~= left@.subrange(i + 1, left@.len() as int));
            assert(result@.push(left[i as int]) + merged(l.drop_first(), r) =~= result@ + (seq![
                left[i as int],
            ] + merged(l.drop_first(), r)));
            result.push(left[i]);
            i += 1;
        } else {
            assert(r.drop_first() =~= right@.subrange(j + 1, right@.len() as int));
            assert(result@.push(right[j as int]) + merged(l, r.drop_first()) =~= result@ + (seq![
                right[j as int],
            ] + merged(l, r.drop_first())));
            result.push(right[j]);
            j += 1;
        }
    }
    // One side is used up: what remains of both, in order, is the rest of the merge.
    proof {
        lemma_merged_one_empty(
            left@.subrange(i as int, left@.len() as int),
            right@.subrange(j as int, right@.len() as int),
        );
    }
    while i < left.len()
        invariant
            0 <= i <= left@.len(),
            0 <= j <= right@.len(),
            result@ + (left@.subrange(i as int, left@.len() as int) + right@.subrange(
                j as int,
                right@.len() as int,
            )) == merged(left@, right@),
        decreases left@.len() - i,
    {
        assert(result@.push(left[i as int]) + (left@.subrange(i + 1, left@.len() as int)
            + right@.subrange(j as int, right@.len() as int)) =~= result@ + (left@.subrange(
            i as int,
            left@.len() as int,
        ) + right@.subrange(j as int, right@.len() as int)));
        result.push(left[i]);
        i += 1;
    }
    while j < right.len()
        invariant
            i == left@.len(),
            0 <= j <= right@.len(),
            result@ + (left@.subrange(i as int, left@.len() as int) + right@.subrange(
                j as int,
                right@.len() as int,
            )) == merged(left@, right@),
        decreases right@.len() - j,
    {
        assert(result@.push(right[j as int]) + (left@.subrange(i as int, left@.len() as int)
            + right@.subrange(j + 1, right@.len() as int)) =~= result@ + (left@.subrange(
            i as int,
            left@.len() as int,
        ) + right@.subrange(j as int, right@.len() as int)));
        result.push(right[j]);
        j += 1;
    }
    assert(result@ + (left@.subrange(i as int, left@.len() as int) + right@.subrange(
        j as int,
        right@.len() as int,
    )) =~= result@);
    result
}


/// Which side each element of `merged(left, right)` is taken from: `true` for
/// `left`, `false` for `right`.
pub open spec fn merge_sources(left: Seq<i64>, right: Seq<i64>) -> Seq<bool>
    decreases left.len() + right.len(),
{
    if left.len() == 0 {
        Seq::new(right.len(), |i: int| false)
    } else if right.len() == 0 {
        Seq::new(left.len(), |i: int| true)
    } else if left[0] <= right[0] {
        seq![true] + merge_sources(left.drop_first(), right)
    } else {
        seq![false] + merge_sources(left, right.drop_first())
    }
}

/// An element taken from a sorted `left` is at least the first element of `left`.
proof fn lemma_left_sourced_bound(left: Seq<i64>, right: Seq<i64>, q: int)
    requires
        sorted(left),
        0 <= q < merge_sources(left, right).len(),
        merge_sources(left, right)[q],
    ensures
        left.len() > 0,
        q < merged(left, right).len(),
        merged(left, right)[q] >= left[0],
    decreases left.len() + right.len(),
{
    lemma_merged_permutation(left, right);
    if left.len() == 0 {
    } else if right.len() == 0 {
    } else if left[0] <= right[0] {
        if q > 0 {
            lemma_left_sourced_bound(left.drop_first(), right, q - 1);
        }
    } else {
        lemma_left_sourced_bound(left, right.drop_first(), q - 1);
    }
}

/// Each output element has one source.
proof fn lemma_sources_len(left: Seq<i64>, right: Seq<i64>)
    ensures
        merge_sources(left, right).len() == left.len() + right.len(),
    decreases left.len() + right.len(),
{
    if left.len() > 0 && right.len() > 0 {
        if left[0] <= right[0] {
            lemma_sources_len(left.drop_first(), right);
        } else {
            lemma_sources_len(left, right.drop_first());
        }
    }
}

/// An element of `right` is placed before an element of `left` only when it is
/// strictly smaller: equal elements keep the left-before-right order.
proof fn lemma_merge_stable(left: Seq<i64>, right: Seq<i64>)
    requires
        sorted(left),
        sorted(right),
    ensures
        forall|p: int, q: int|
            0 <= p < q < merged(left, right).len() && !(#[trigger] merge_sources(left, right)[p])
                && #[trigger] merge_sources(left, right)[q] ==> merged(left, right)[p] < merged(
                left,
                right,
            )[q],
    decreases left.len() + right.len(),
{
    lemma_merged_permutation(left, right);
    lemma_sources_len(left, right);
    if left.len() == 0 || right.len() == 0 {
    } else if left[0] <= right[0] {
        let (l, r) = (left.drop_first(), right);
        lemma_merge_stable(l, r);
        lemma_sources_len(l, r);
        assert forall|p: int, q: int|
            0 <= p < q < merged(left, right).len() && !(#[trigger] merge_sources(left, right)[p])
                && #[trigger] merge_sources(left, right)[q] implies merged(left, right)[p]
            < merged(left, right)[q] by {
            assert(merge_sources(left, right)[p] == merge_sources(l, r)[p - 1]);
            assert(merge_sources(left, right)[q] == merge_sources(l, r)[q - 1]);
            assert(merged(left, right)[p] == merged(l, r)[p - 1]);
            assert(merged(left, right)[q] == merged(l, r)[q - 1]);
        }
    } else {
        let (l, r) = (left, right.drop_first());
        lemma_merge_stable(l, r);
        lemma_sources_len(l, r);
        assert forall|p: int, q: int|
            0 <= p < q < merged(left, right).len() && !(#[trigger] merge_sources(left, right)[p])
                && #[trigger] merge_sources(left, right)[q] implies merged(left, right)[p]
            < merged(left, right)[q] by {
            assert(merge_sources(left, right)[q] == merge_sources(l, r)[q - 1]);
            assert(merged(left, right)[q] == merged(l, r)[q - 1]);
            if p == 0 {
                lemma_left_sourced_bound(l, r, q - 1);
            } else {
                assert(merge_sources(left, right)[p] == merge_sources(l, r)[p - 1]);
                assert(merged(left, right)[p] == merged(l, r)[p - 1]);
            }
        }
    }
}

/// Once both halves of a call are sorted (each a permutation of its own
/// half), merging them sorts the whole range, whichever half finished first.
pub proof fn lemma_join_sorts(
    left: Seq<i64>,
    right: Seq<i64>,
    left_sorted: Seq<i64>,
    right_sorted: Seq<i64>,
)
    requires
        sorted(left_sorted),
        sorted(right_sorted),
        permutation_of(left_sorted, left),
        permutation_of(right_sorted, right),
    ensures
        sorted(merged(left_sorted, right_sorted)),
        permutation_of(merged(left_sorted, right_sorted), left + right),
        left_sorted.len() == left.len(),
        right_sorted.len() == right.len(),
        merged(left_sorted, right_sorted).len() == left.len() + right.len(),
{
    broadcast use vstd::seq_lib::group_to_multiset_ensures;

    assert(left.len() == left.to_multiset().len());
    assert(right.len() == right.to_multiset().len());
    assert(left_sorted.len() == left_sorted.to_multiset().len());
    assert(right_sorted.len() == right_sorted.to_multiset().len());
    lemma_merged_sorted(left_sorted, right_sorted);
    lemma_merged_permutation(left_sorted, right_sorted);
    vstd::seq_lib::lemma_multiset_commutative(left_sorted, right_sorted);
    vstd::seq_lib::lemma_multiset_commutative(left, right);
}

/// The merge of two sorted sequences has the length of both together, is
/// sorted, holds exactly their elements, and is stable: an element of `right`
/// comes before an element of `left` only when it is strictly smaller, so equal
/// elements keep the left-before-right order.
pub proof fn lemma_merge_laws(left: Seq<i64>, right: Seq<i64>)
    requires
        sorted(left),
        sorted(right),
    ensures
        merged(left, right).len() == left.len() + right.len(),
        sorted(merged(left, right)),
        permutation_of(merged(left, right), left + right),
        merge_sources(left, right).len() == merged(left, right).len(),
        forall|p: int, q: int|
            0 <= p < q < merged(left, right).len() && !(#[trigger] merge_sources(left, right)[p])
                && #[trigger] merge_sources(left, right)[q] ==> merged(left, right)[p] < merged(
                left,
                right,
            )[q],
{
    lemma_merged_permutation(left, right);
    lemma_merged_sorted(left, right);
    lemma_sources_len(left, right);
    lemma_merge_stable(left, right);
}

/// A sequence has only one sorted permutation. Every run of the fork-join
/// sort on the same input therefore returns the same sequence, whatever the
/// number of workers and whatever order the halves finish in.
pub proof fn lemma_sorted_permutation_unique(input: Seq<i64>, a: Seq<i64>, b: Seq<i64>)
    requires
        sorted(a),
        sorted(b),
        permutation_of(a, input),
        permutation_of(b, input),
    ensures
        a == b,
    decreases a.len(),
{
    broadcast use vstd::seq_lib::group_to_multiset_ensures;

    assert(a.len() == a.to_multiset().len());
    assert(b.len() == b.to_multiset().len());
    if a.len() == 0 {
        assert(a =~= b);
    } else {
        lemma_permutation_contains(a, b, 0);
        lemma_permutation_contains(b, a, 0);
        let ka = choose|k: int| 0 <= k < b.len() && b[k] == a[0];
        let kb = choose|k: int| 0 <= k < a.len() && a[k] == b[0];
        assert(b[0] <= b[ka]);
        assert(a[0] <= a[kb]);
        assert(a[0] == b[0]);
        assert(a.remove(0) =~= a.drop_first());
        assert(b.remove(0) =~= b.drop_first());
        assert(a.drop_first().to_multiset() =~= b.drop_first().to_multiset());
        lemma_sorted_permutation_unique(b.drop_first(), a.drop_first(), b.drop_first());
        assert(a =~= b) by {
            assert forall|k: int| 0 <= k < a.len() implies a[k] == b[k] by {
                if k > 0 {
                    assert(a[k] == a.drop_first()[k - 1]);
                    assert(b[k] == b.drop_first()[k - 1]);
                }
            }
        }
    }
}

/// What one call of the fork-join sort does with the range it owns.
pub enum Fork {
    /// At most one element: the range is sorted already.
    Done(Vec<i64>),
    /// Two disjoint halves, split at the midpoint, each to be sorted on its own.
    Split(Vec<i64>, Vec<i64>),
}

/// Decide one call of the sort: a range of at most one element is done, a longer
/// one is split at its midpoint into a left and a right half that own their
/// elements exclusively.
pub fn fork(data: Vec<i64>) -> (f: Fork)
    ensures
        match f {
            Fork::Done(d) => data@.len() <= 1 && d@ == data@,
            Fork::Split(l, r) => {
                &&& data@.len() >= 2
                &&& l@ == data@.subrange(0, data@.len() as int / 2)
                &&& r@ == data@.subrange(data@.len() as int / 2, data@.len() as int)
            },
        },
{
    if data.len() <= 1 {
        Fork::Done(data)
    } else {
        let mut left = data;
        let mid = left.len() / 2;
        let right = left.split_off(mid);
        Fork::Split(left, right)
    }
}

/// Sort a sequence by fork-join merge sort, running both halves of each call
/// to completion before merging them.
pub fn merge_sort(data: Vec<i64>) -> (result: Vec<i64>)
    ensures
        sorted(result@),
        permutation_of(result@, data@),
    decreases data@.len(),
{
    let ghost input = data@;
    let n = data.len();
    match fork(data) {
        Fork::Done(d) => d,
        Fork::Split(left, right) => {
            let ghost l = left@;
            let ghost r = right@;
            let left_sorted = merge_sort(left);
            let right_sorted = merge_sort(right);
            proof {
                lemma_join_sorts(l, r, left_sorted@, right_sorted@);
                assert(l + r =~= input);
            }
            merge(left_sorted.as_slice(), right_sorted.as_slice())
        },
    }
}

/// Which child of a call a result comes from.
pub enum Side {
    Left,
    Right,
}

/// The synchronization point of one call of the sort: it expects exactly two
/// parties, the left and the right child, and belongs to that call alone.
pub struct JoinPoint {
    left: Option<Vec<i64>>,
    right: Option<Vec<i64>>,
}

/// The sorted part that a child has delivered, if any.
pub open spec fn part_view(p: Option<Vec<i64>>) -> Option<Seq<i64>> {
    match p {
        Some(v) => Some(v@),
        None => None,
    }
}

/// The slot of the given side in a join point's view.
pub open spec fn slot(v: (Option<Seq<i64>>, Option<Seq<i64>>), side: Side) -> Option<Seq<i64>> {
    match side {
        Side::Left => v.0,
        Side::Right => v.1,
    }
}

/// The other child.
pub open spec fn other(side: Side) -> Side {
    match side {
        Side::Left => Side::Right,
        Side::Right => Side::Left,
    }
}

impl View for JoinPoint {
    /// What the left and the right child have delivered so far.
    type V = (Option<Seq<i64>>, Option<Seq<i64>>);

    closed spec fn view(&self) -> Self::V {
        (part_view(self.left), part_view(self.right))
    }
}

impl JoinPoint {
    /// A fresh join point that no child has reached yet.
    pub fn new() -> (j: JoinPoint)
        ensures
            j@ == (None::<Seq<i64>>, None::<Seq<i64>>),
    {
        JoinPoint { left: None, right: None }
    }

    /// A child delivers its sorted part. The first of the two to arrive gets
    /// `None`; the second gets the merge of the left part with the right part.
    pub fn arrive(&mut self, side: Side, part: Vec<i64>) -> (done: Option<Vec<i64>>)
        requires
            slot(old(self)@, side) is None,
            slot(old(self)@, other(side)) matches Some(o) ==> o.len() + part@.len()
                <= usize::MAX,
        ensures
            slot(final(self)@, side) == Some(part@),
            slot(final(self)@, other(side)) == slot(old(self)@, other(side)),
            match slot(old(self)@, other(side)) {
                None => done is None,
                Some(o) => done matches Some(m) && m@ == match side {
                    Side::Left => merged(part@, o),
                    Side::Right => merged(o, part@),
                },
            },
    {
        match side {
            Side::Left => {
                let done = match &self.right {
                    Some(r) => Some(merge(part.as_slice(), r.as_slice())),
                    None => None,
                };
                self.left = Some(part);
                done
            },
            Side::Right => {
                let done = match &self.left {
                    Some(l) => Some(merge(l.as_slice(), part.as_slice())),
                    None => None,
                };
                self.right = Some(part);
                done
            },
        }
    }
}

} // verus!
