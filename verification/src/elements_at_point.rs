//! Walking the elements below the one at a screen point, breadth first: each element is
//! recorded with its depth below the start, and its children are walked after every
//! element already waiting.

use vstd::prelude::*;

verus! {

/// A breadth-first walk: the elements recorded so far, and those waiting, each with its
/// depth below the start element.
pub struct ElementsAtWalk<E> {
    visited: Vec<(E, usize)>,
    waiting: Vec<(E, usize)>,
    /// For each recorded element, the index of the recorded element whose children it
    /// was given among (-1 for the start).
    visited_parents: Ghost<Seq<int>>,
    /// For each waiting element, the same.
    waiting_parents: Ghost<Seq<int>>,
}

/// Whether the depths of `s` never decrease.
pub open spec fn depths_sorted<E>(s: Seq<(E, usize)>) -> bool {
    forall|i: int, j: int| 0 <= i <= j < s.len() ==> #[trigger] s[i].1 <= #[trigger] s[j].1
}

impl<E> ElementsAtWalk<E> {
    /// The elements recorded so far, in the order they were reached, with their depths.
    pub closed spec fn visited(self) -> Seq<(E, usize)> {
        self.visited@
    }

    /// The elements waiting to be recorded, in order, with their depths.
    pub closed spec fn waiting(self) -> Seq<(E, usize)> {
        self.waiting@
    }

    /// For each recorded element, the index of the recorded element among whose children
    /// it was given (-1 for the start element).
    pub closed spec fn parents(self) -> Seq<int> {
        self.visited_parents@
    }

    /// For each waiting element, the index of the recorded element among whose children
    /// it was given (-1 for the start element).
    pub closed spec fn waiting_parents(self) -> Seq<int> {
        self.waiting_parents@
    }

    /// Each element below the start was given among the children of an earlier recorded
    /// element, one level up.
    pub closed spec fn parents_ok(self) -> bool {
        let v = self.visited@;
        let w = self.waiting@;
        let vp = self.visited_parents@;
        let wp = self.waiting_parents@;
        &&& vp.len() == v.len()
        &&& wp.len() == w.len()
        &&& v.len() > 0 ==> vp[0] == -1
        &&& v.len() == 0 ==> wp[0] == -1
        &&& forall|i: int|
            1 <= i < v.len() ==> 0 <= #[trigger] vp[i] < i && v[vp[i]].1 + 1 == v[i].1
        &&& v.len() > 0 ==> forall|j: int|
            0 <= j < w.len() ==> 0 <= #[trigger] wp[j] < v.len() && v[wp[j]].1 + 1 == w[j].1
    }

    /// What holds of every walk: recorded depths never decrease, and start at zero;
    /// waiting depths never decrease, are at least the last recorded depth and at most
    /// one more; and no depth exceeds the number of elements recorded before it.
    pub closed spec fn wf(self) -> bool {
        let v = self.visited@;
        let w = self.waiting@;
        &&& depths_sorted(v)
        &&& depths_sorted(w)
        &&& v.len() > 0 ==> v[0].1 == 0
        &&& v.len() == 0 ==> w.len() == 1 && w[0].1 == 0
        &&& forall|i: int| 0 <= i < v.len() ==> #[trigger] v[i].1 <= i
        &&& v.len() > 0 ==> forall|j: int|
            0 <= j < w.len() ==> v.last().1 <= #[trigger] w[j].1 <= v.last().1 + 1
        &&& forall|j: int| 0 <= j < w.len() ==> #[trigger] w[j].1 <= v.len()
        &&& self.parents_ok()
    }

    /// A walk from `start`, which waits at depth zero.
    pub fn new(start: E) -> (r: Self)
        ensures
            r.wf(),
            r.visited().len() == 0,
            r.waiting() == seq![(start, 0usize)],
    {
        let mut waiting: Vec<(E, usize)> = Vec::new();
        waiting.push((start, 0));
        let ghost vp: Seq<int> = Seq::empty();
        let ghost wp: Seq<int> = seq![-1int];
        let r = ElementsAtWalk {
            visited: Vec::new(),
            waiting,
            visited_parents: Ghost(vp),
            waiting_parents: Ghost(wp),
        };
        assert(r.waiting@ =~= seq![(start, 0usize)]);
        r
    }

    /// Records the first waiting element; `false` where none waits.
    pub fn advance(&mut self) -> (r: bool)
        requires
            old(self).wf(),
        ensures
            final(self).wf(),
            r == (old(self).waiting().len() > 0),
            r ==> final(self).visited() == old(self).visited().push(old(self).waiting()[0])
                && final(self).waiting() == old(self).waiting().drop_first()
                && final(self).parents() == old(self).parents().push(
                old(self).waiting_parents()[0],
            ) && final(self).waiting_parents() == old(self).waiting_parents().drop_first(),
            !r ==> final(self).visited() == old(self).visited() && final(self).waiting()
                == old(self).waiting() && final(self).parents() == old(self).parents()
                && final(self).waiting_parents() == old(self).waiting_parents(),
    {
        if self.waiting.len() == 0 {
            return false;
        }
        let ghost v0 = self.visited@;
        let ghost w0 = self.waiting@;
        let ghost vp0 = self.visited_parents@;
        let ghost wp0 = self.waiting_parents@;
        let item = self.waiting.remove(0);
        self.visited.push(item);
        self.visited_parents = Ghost(vp0.push(wp0[0]));
        self.waiting_parents = Ghost(wp0.drop_first());
        assert(self.waiting@ =~= w0.drop_first());
        proof {
            let v = self.visited@;
            let w = self.waiting@;
            assert(v.last() == w0[0]);
            assert forall|i: int, j: int| 0 <= i <= j < v.len() implies #[trigger] v[i].1
                <= #[trigger] v[j].1 by {
                if j == v.len() - 1 && i < j {
                    assert(v[i] == v0[i]);
                    assert(v0[i].1 <= v0.last().1);
                }
            }
            assert forall|j: int| 0 <= j < w.len() implies v.last().1 <= #[trigger] w[j].1
                <= v.last().1 + 1 by {
                assert(w[j] == w0[j + 1]);
                assert(w0[0].1 <= w0[j + 1].1);
                if v0.len() > 0 {
                    assert(w0[j + 1].1 <= v0.last().1 + 1);
                    assert(v0.last().1 <= w0[0].1);
                }
            }
            assert forall|j: int| 0 <= j < w.len() implies #[trigger] w[j].1 <= v.len() by {
                assert(w[j] == w0[j + 1]);
            }
            assert forall|i: int| 0 <= i < v.len() implies #[trigger] v[i].1 <= i by {
                if i < v.len() - 1 {
                    assert(v[i] == v0[i]);
                }
            }
            let vp = self.visited_parents@;
            let wp = self.waiting_parents@;
            assert forall|i: int| 1 <= i < v.len() implies 0 <= #[trigger] vp[i] < i && v[vp[i]].1
                + 1 == v[i].1 by {
                if i < v.len() - 1 {
                    assert(vp[i] == vp0[i]);
                    assert(v[vp[i]] == v0[vp[i]]);
                    assert(v[i] == v0[i]);
                } else {
                    assert(vp[i] == wp0[0]);
                    assert(v[vp[i]] == v0[vp[i]]);
                }
            }
            assert forall|j: int| 0 <= j < w.len() implies 0 <= #[trigger] wp[j] < v.len() && v[wp[j]].1
                + 1 == w[j].1 by {
                assert(wp[j] == wp0[j + 1]);
                assert(w[j] == w0[j + 1]);
                if v0.len() > 0 {
                    assert(v[wp[j]] == v0[wp[j]]);
                } else {
                    assert(w0.len() == 1);
                }
            }
        }
        true
    }

    /// The element recorded last, whose children the walk reads next.
    pub fn last_visited(&self) -> (r: Option<&E>)
        ensures
            self.visited().len() == 0 ==> r is None,
            self.visited().len() > 0 ==> r == Some(&self.visited().last().0),
    {
        let n = self.visited.len();
        if n == 0 {
            None
        } else {
            Some(&self.visited[n - 1].0)
        }
    }

    /// Makes the children of the element recorded last wait, in walk order, one level
    /// deeper than it.
    pub fn add_children(&mut self, children: Vec<E>)
        requires
            old(self).wf(),
            old(self).visited().len() > 0,
        ensures
            final(self).wf(),
            final(self).visited() == old(self).visited(),
            final(self).waiting().len() == old(self).waiting().len() + children@.len(),
            final(self).waiting().subrange(0, old(self).waiting().len() as int) == old(
                self,
            ).waiting(),
            forall|k: int|
                0 <= k < children@.len() ==> #[trigger] final(self).waiting()[old(
                    self,
                ).waiting().len() + k] == (children@[k], (old(self).visited().last().1
                    + 1) as usize),
            final(self).parents() == old(self).parents(),
            final(self).waiting_parents().len() == old(self).waiting_parents().len()
                + children@.len(),
            forall|j: int|
                0 <= j < old(self).waiting_parents().len()
                    ==> #[trigger] final(self).waiting_parents()[j] == old(self).waiting_parents()[j],
            forall|k: int|
                0 <= k < children@.len() ==> #[trigger] final(self).waiting_parents()[old(
                    self,
                ).waiting_parents().len() + k] == old(self).visited().len() - 1,
    {
        let n = self.visited.len();
        let d = self.visited[n - 1].1;
        assert(d <= n - 1);
        let depth = d + 1;
        let ghost w0 = self.waiting@;
        let ghost v = self.visited@;
        let ghost wp0 = self.waiting_parents@;
        let mut pending = children;
        let ghost kids = pending@;
        let m = pending.len();
        let mut k: usize = 0;
        assert(pending@ =~= kids.skip(0));
        while k < m
            invariant
                self.visited@ == v,
                v.len() == n,
                n > 0,
                d == v.last().1,
                depth == d + 1,
                depth <= n,
                m == kids.len(),
                k <= m,
                pending@ == kids.skip(k as int),
                self.waiting@.len() == w0.len() + k,
                self.waiting@.subrange(0, w0.len() as int) == w0,
                forall|j: int|
                    0 <= j < k ==> #[trigger] self.waiting@[w0.len() + j] == (kids[j], depth),
                depths_sorted(w0),
                forall|j: int| 0 <= j < w0.len() ==> d <= #[trigger] w0[j].1 <= d + 1,
                self.visited_parents@ == old(self).visited_parents@,
                self.waiting_parents@.len() == wp0.len() + k,
                wp0.len() == w0.len(),
                forall|j: int| 0 <= j < wp0.len() ==> #[trigger] self.waiting_parents@[j] == wp0[j],
                forall|j: int|
                    0 <= j < k ==> #[trigger] self.waiting_parents@[wp0.len() + j] == n - 1,
            decreases m - k,
        {
            let c = pending.remove(0);
            assert(c == kids[k as int]);
            let ghost before = self.waiting@;
            self.waiting.push((c, depth));
            let ghost wpb = self.waiting_parents@;
            self.waiting_parents = Ghost(wpb.push(n - 1));
            assert(self.waiting@.subrange(0, w0.len() as int) =~= before.subrange(
                0,
                w0.len() as int,
            ));
            k = k + 1;
            assert(pending@ =~= kids.skip(k as int));
        }
        proof {
            let w = self.waiting@;
            assert forall|j: int| 0 <= j < w0.len() implies #[trigger] w[j] == w0[j] by {
                assert(w.subrange(0, w0.len() as int)[j] == w[j]);
            }
            assert forall|i: int, j: int| 0 <= i <= j < w.len() implies #[trigger] w[i].1
                <= #[trigger] w[j].1 by {
                if j >= w0.len() {
                    let jj = j - w0.len();
                    assert(w[w0.len() + jj] == (kids[jj], depth));
                    if i >= w0.len() {
                        let ii = i - w0.len();
                        assert(w[w0.len() + ii] == (kids[ii], depth));
                    } else {
                        assert(w[i] == w0[i]);
                    }
                } else {
                    assert(w[i] == w0[i]);
                    assert(w[j] == w0[j]);
                }
            }
            assert forall|j: int| 0 <= j < w.len() implies v.last().1 <= #[trigger] w[j].1
                <= v.last().1 + 1 by {
                if j >= w0.len() {
                    let jj = j - w0.len();
                    assert(w[w0.len() + jj] == (kids[jj], depth));
                } else {
                    assert(w[j] == w0[j]);
                }
            }
            assert forall|j: int| 0 <= j < w.len() implies #[trigger] w[j].1 <= v.len() by {
                if j >= w0.len() {
                    let jj = j - w0.len();
                    assert(w[w0.len() + jj] == (kids[jj], depth));
                } else {
                    assert(w[j] == w0[j]);
                }
            }
            let wp = self.waiting_parents@;
            assert forall|j: int| 0 <= j < w.len() implies 0 <= #[trigger] wp[j] < v.len() && v[wp[j]].1
                + 1 == w[j].1 by {
                if j >= w0.len() {
                    let jj = j - w0.len();
                    assert(w[w0.len() + jj] == (kids[jj], depth));
                    assert(wp[wp0.len() + jj] == n - 1);
                } else {
                    assert(w[j] == w0[j]);
                    assert(wp[j] == wp0[j]);
                }
            }
        }
    }

    /// The elements recorded, in the order they were reached, with their depths.
    pub fn into_visited(self) -> (r: Vec<(E, usize)>)
        requires
            self.wf(),
        ensures
            r@ == self.visited(),
            depths_sorted(r@),
            r@.len() > 0 ==> r@[0].1 == 0,
            r@.len() == self.parents().len(),
            forall|i: int|
                1 <= i < r@.len() ==> 0 <= #[trigger] self.parents()[i] < i && r@[self.parents()[i]].1
                    + 1 == r@[i].1,
    {
        self.visited
    }
}

} // verus!
