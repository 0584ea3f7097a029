use crate::minimizer::Minimizer;
use crate::minimizer::Objective;
use crate::scalar::Scalar;
use crate::vector::from_slice;
use crate::vector::max_abs_seq;
use crate::vector::scaled_add;
use crate::vector::seq_add;
use crate::vector::seq_scale;
use crate::vector::seq_scaled_add;
use crate::vector::seq_sub;
use crate::vector::vec_add;
use crate::vector::vec_scale;
use crate::vector::zeros;
use crate::vector::zeros_seq;
use vstd::prelude::*;
use vstd::seq_lib::*;

verus! {

/// One evaluated candidate: an objective value `f` and the point `x` it was
/// measured at.  A vertex is replaced wholesale, never partially mutated.
pub struct Pair<T: Scalar> {
    /// The objective value at `x`.
    pub f: T,
    /// The candidate point.
    pub x: Vec<T>,
}

impl<T: Scalar> Pair<T> {
    /// Packs a value and a point into a vertex.
    pub fn new(f: T, x: Vec<T>) -> (p: Pair<T>)
        ensures
            p.f == f,
            p.x == x,
    {
        Pair { f, x }
    }

    /// A copy of this vertex.
    pub fn duplicate(&self) -> (p: Pair<T>)
        ensures
            p.f == self.f,
            p.x@ == self.x@,
    {
        Pair { f: self.f, x: from_slice(self.x.as_slice()) }
    }
}

/// The order the simplex is kept in: `a` sorts no later than `b`.  An
/// incomparable pair (for floats: one value is `NaN`) counts as equal rather
/// than failing, so the relation holds whenever `b` is not strictly below
/// `a`, or - without assuming anything of `spec_lt` - whenever `a` is
/// strictly below `b`.
pub open spec fn value_le<T: Scalar>(a: T, b: T) -> bool {
    a.spec_lt(b) || !b.spec_lt(a)
}

/// Each vertex sorts no later than its successor.  For a scalar whose strict
/// order is transitive this makes the first vertex the best and the last the
/// worst; see [`lemma_sorted_first_is_best`].
pub open spec fn sorted_by_value<T: Scalar>(s: Seq<Pair<T>>) -> bool {
    forall|i: int| 0 <= i && i + 1 < s.len() ==> #[trigger] value_le(s[i].f, s[i + 1].f)
}

/// The initial perturbation of coordinate `i` of the seed: a coordinate that
/// is exactly zero becomes the absolute step `step_zero`, any other is
/// multiplied by `1 + step`.
pub open spec fn perturbed<T: Scalar>(x0: Seq<T>, i: int, step: T, step_zero: T) -> Seq<T> {
    x0.update(
        i,
        if x0[i].spec_is_zero() {
            step_zero
        } else {
            x0[i].spec_mul(T::spec_one().spec_add(step))
        },
    )
}

/// The elementwise sum of the points of the first `k` vertices, accumulated
/// left to right from the zero vector of length `n`.
pub open spec fn sum_points<T: Scalar>(s: Seq<Pair<T>>, k: int, n: nat) -> Seq<T>
    decreases k,
{
    if k <= 0 {
        zeros_seq(n)
    } else {
        seq_add(sum_points(s, k - 1, n), s[k - 1].x@)
    }
}

/// Where the shrink step moves a point: `d * x + (1 - d) * best`, computed as
/// the scaling of `x` by `d` followed by the fused update with `best` and
/// `1 - d`.
pub open spec fn shrunk_point<T: Scalar>(x: Seq<T>, best: Seq<T>, d: T) -> Seq<T> {
    seq_scaled_add(seq_scale(x, d), T::spec_one().spec_sub(d), best)
}

/// `m` is `s` after a shrink with coefficient `d`: the first vertex is kept,
/// every other sits at its shrunk point, re-evaluated (so only the points
/// are pinned; the values are whatever the objective returned there).
pub open spec fn shrunk_vertices<T: Scalar>(m: Seq<Pair<T>>, s: Seq<Pair<T>>, d: T) -> bool {
    &&& m.len() == s.len()
    &&& s.len() >= 1
    &&& m[0] == s[0]
    &&& forall|i: int|
        1 <= i < s.len() ==> (#[trigger] m[i]).x@ == shrunk_point(s[i].x@, s[0].x@, d)
}

/// The moving polytope of the search: exactly `n + 1` evaluated vertices for
/// a fixed dimension `n`.  Between `update` and the next `sort` the order of
/// the vertices is undefined; `best`, `worst` and `second_worst` are
/// meaningful only on a sorted simplex.
pub struct Simplex<T: Scalar> {
    pairs: Vec<Pair<T>>,
    dim: usize,
    inv_dim: T,
}

impl<T: Scalar> View for Simplex<T> {
    type V = Seq<Pair<T>>;

    closed spec fn view(&self) -> Seq<Pair<T>> {
        self.pairs@
    }
}

impl<T: Scalar> Simplex<T> {
    /// The dimension `n` of the search space.
    pub closed spec fn spec_dim(self) -> usize {
        self.dim
    }

    /// The cached scalar `1 / n` used by the centroid.
    pub closed spec fn spec_inv_dim(self) -> T {
        self.inv_dim
    }

    /// Well-formedness: a positive dimension `n`, exactly `n + 1` vertices,
    /// every point of length `n`, and the cached `1 / n` correct.
    pub open spec fn wf(self) -> bool {
        &&& self.spec_dim() >= 1
        &&& self@.len() == self.spec_dim() + 1
        &&& (forall|i: int| 0 <= i < self@.len() ==> (#[trigger] self@[i]).x@.len()
            == self.spec_dim())
        &&& self.spec_inv_dim() == T::spec_from_usize(self.spec_dim()).spec_recip()
    }

    /// The centroid of all vertices except the last one: the elementwise
    /// mean `(1/n) * (x_0 + ... + x_(n-1))`, accumulated left to right and
    /// then scaled by the cached `1 / n`.
    pub open spec fn spec_centroid(self) -> Seq<T> {
        seq_scale(
            sum_points(self@, self.spec_dim() as int, self.spec_dim() as nat),
            T::spec_from_usize(self.spec_dim()).spec_recip(),
        )
    }

    /// The two termination tests of the search, read off a sorted simplex:
    /// the value spread `|worst.f - best.f|` is within `tol_f` and the
    /// largest coordinate gap `|worst.x - best.x|` is within `tol_x`.
    pub open spec fn is_converged(self, tol_f: T, tol_x: T) -> bool {
        &&& self@.len() >= 2
        &&& self@.last().f.spec_sub(self@.first().f).spec_abs().spec_le(tol_f)
        &&& max_abs_seq(seq_sub(self@.last().x@, self@.first().x@)).spec_le(tol_x)
    }

    /// Builds the initial simplex: vertex 0 is the seed itself, vertex
    /// `i + 1` is the seed with coordinate `i` perturbed, each evaluated
    /// under the objective in that order.
    pub fn new<F: Objective<T>>(x0: &Vec<T>, f: &mut F, minimizer: &Minimizer<T>) -> (s: Simplex<
        T,
    >)
        requires
            x0@.len() >= 1,
        ensures
            s.wf(),
            s.spec_dim() == x0@.len(),
            s@[0].x@ == x0@,
            forall|i: int|
                0 <= i < x0@.len() ==> (#[trigger] s@[i + 1]).x@ == perturbed(
                    x0@,
                    i,
                    minimizer.step,
                    minimizer.step_zero,
                ),
    {
        let dim = x0.len();
        let inv_dim = T::from_usize(dim).recip();
        let f0 = f.eval(x0);
        let mut pairs: Vec<Pair<T>> = Vec::new();
        pairs.push(Pair { f: f0, x: from_slice(x0.as_slice()) });
        for i in 0..dim
            invariant
                dim == x0@.len(),
                pairs@.len() == i + 1,
                pairs@[0].x@ == x0@,
                forall|k: int|
                    0 <= k < i ==> (#[trigger] pairs@[k + 1]).x@ == perturbed(
                        x0@,
                        k,
                        minimizer.step,
                        minimizer.step_zero,
                    ),
                forall|k: int| 0 <= k <= i ==> (#[trigger] pairs@[k]).x@.len() == x0@.len(),
        {
            let mut x = from_slice(x0.as_slice());
            let xi = x[i];
            if xi.is_zero() {
                x.set(i, minimizer.step_zero);
            } else {
                x.set(i, xi.mul(T::one().add(minimizer.step)));
            }
            let fi = f.eval(&x);
            pairs.push(Pair { f: fi, x });
        }
        Simplex { pairs, dim, inv_dim }
    }

    /// The number of vertices; always `n + 1` on a well-formed simplex.
    pub fn size(&self) -> (r: usize)
        ensures
            r == self@.len(),
    {
        self.pairs.len()
    }

    /// The dimension `n` of the search space.
    pub fn dimension(&self) -> (r: usize)
        ensures
            r == self.spec_dim(),
    {
        self.dim
    }

    /// The best vertex - the first one, meaningful only after `sort`.
    pub fn best(&self) -> (r: Option<&Pair<T>>)
        ensures
            match r {
                Some(p) => self@.len() > 0 && p.f == self@[0].f && p.x@ == self@[0].x@,
                None => self@.len() == 0,
            },
    {
        if self.pairs.len() == 0 {
            None
        } else {
            Some(&self.pairs[0])
        }
    }

    /// The worst vertex - the last one, meaningful only after `sort`.
    pub fn worst(&self) -> (r: Option<&Pair<T>>)
        ensures
            match r {
                Some(p) => self@.len() > 0 && p.f == self@.last().f && p.x@ == self@.last().x@,
                None => self@.len() == 0,
            },
    {
        if self.pairs.len() == 0 {
            None
        } else {
            Some(&self.pairs[self.pairs.len() - 1])
        }
    }

    /// The second-worst vertex - the second-to-last one, meaningful only
    /// after `sort`.
    pub fn second_worst(&self) -> (r: Option<&Pair<T>>)
        ensures
            match r {
                Some(p) => self@.len() >= 2 && p.f == self@[self@.len() - 2].f && p.x@
                    == self@[self@.len() - 2].x@,
                None => self@.len() < 2,
            },
    {
        if self.pairs.len() < 2 {
            None
        } else {
            Some(&self.pairs[self.pairs.len() - 2])
        }
    }

    /// Replaces the current worst vertex - the last one - with the given
    /// vertex.  Does not re-sort; callers sort afterwards.
    pub fn update(&mut self, pair: Pair<T>)
        requires
            old(self)@.len() >= 1,
        ensures
            final(self)@ == old(self)@.drop_last().push(pair),
            final(self).spec_dim() == old(self).spec_dim(),
            final(self).spec_inv_dim() == old(self).spec_inv_dim(),
    {
        self.pairs.pop();
        self.pairs.push(pair);
        assert(self.pairs@ =~= old(self)@.drop_last().push(pair));
    }

    /// Sorts the vertices ascending by value with a stable insertion sort,
    /// treating an incomparable pair as equal: the result is a permutation of
    /// the input in which each vertex sorts no later than its successor.
    pub fn sort(&mut self)
        ensures
            final(self)@.len() == old(self)@.len(),
            final(self).spec_dim() == old(self).spec_dim(),
            final(self).spec_inv_dim() == old(self).spec_inv_dim(),
            final(self)@.to_multiset() == old(self)@.to_multiset(),
            sorted_by_value(final(self)@),
            old(self).wf() ==> final(self).wf(),
    {
        let n = self.pairs.len();
        if n < 2 {
            return ;
        }
        for i in 1..n
            invariant
                n == self.pairs@.len(),
                self.dim == old(self).dim,
                self.inv_dim == old(self).inv_dim,
                self.pairs@.to_multiset() == old(self)@.to_multiset(),
                forall|k: int|
                    0 <= k && k + 1 < i ==> #[trigger] value_le(
                        self.pairs@[k].f,
                        self.pairs@[k + 1].f,
                    ),
        {
            let ghost before = self.pairs@;
            let p = self.pairs.remove(i);
            let ghost v = self.pairs@;
            let mut j: usize = i;
            while j > 0 && p.f.lt(self.pairs[j - 1].f)
                invariant
                    j <= i,
                    i < n,
                    self.pairs@ == v,
                    v.len() == n - 1,
                    forall|k: int| j <= k < i ==> p.f.spec_lt((#[trigger] v[k]).f),
                decreases j,
            {
                j = j - 1;
            }
            self.pairs.insert(j, p);
            proof {
                broadcast use vstd::multiset::group_multiset_axioms;

                assert(v == before.remove(i as int));
                assert(p == before[i as int]);
                assert(before.contains(p));
                to_multiset_remove(before, i as int);
                to_multiset_insert(v, j as int, p);
                to_multiset_contains(before, p);
                assert(before.to_multiset().count(p) > 0);
                assert(self.pairs@.to_multiset() =~= before.to_multiset());
                assert forall|k: int| 0 <= k && k + 1 < i + 1 implies #[trigger] value_le(
                    self.pairs@[k].f,
                    self.pairs@[k + 1].f,
                ) by {
                    before.remove_ensures(i as int);
                    v.insert_ensures(j as int, p);
                    let w = self.pairs@;
                    assert(w == v.insert(j as int, p));
                    if k + 1 < j {
                        assert(w[k] == v[k] && v[k] == before[k]);
                        assert(w[k + 1] == v[k + 1] && v[k + 1] == before[k + 1]);
                        assert(value_le(before[k].f, before[k + 1].f));
                    } else if k + 1 == j {
                        assert(w[k] == v[k] && v[k] == before[k]);
                        assert(w[k + 1] == p);
                        assert(!p.f.spec_lt(v[k].f));
                    } else if k == j {
                        assert(w[k] == p);
                        assert(w[k + 1] == v[k]);
                        assert(p.f.spec_lt(v[k].f));
                    } else {
                        assert(w[k - 1 + 1] == v[k - 1] && v[k - 1] == before[k - 1]);
                        assert(w[k + 1] == v[k] && v[k] == before[k]);
                        assert(value_le(before[k - 1].f, before[k - 1 + 1].f));
                    }
                }
            }
        }
        proof {
            if old(self).wf() {
                lemma_permuted_point_lens(old(self)@, self.pairs@, old(self).spec_dim() as nat);
            }
        }
    }

    /// Moves every vertex but the best one toward the best point - each point
    /// becomes `d * point + (1 - d) * best` - and re-evaluates the objective
    /// there, overwriting the stored value.  The best vertex is untouched.
    pub fn shrink<F: Objective<T>>(&mut self, f: &mut F, minimizer: &Minimizer<T>)
        requires
            old(self).wf(),
        ensures
            final(self).wf(),
            final(self).spec_dim() == old(self).spec_dim(),
            final(self).spec_inv_dim() == old(self).spec_inv_dim(),
            final(self)@.len() == old(self)@.len(),
            final(self)@[0] == old(self)@[0],
            forall|i: int|
                1 <= i < final(self)@.len() ==> (#[trigger] final(self)@[i]).x@ == shrunk_point(
                    old(self)@[i].x@,
                    old(self)@[0].x@,
                    minimizer.d,
                ),
    {
        let best = from_slice(self.pairs[0].x.as_slice());
        let one_minus_d = T::one().sub(minimizer.d);
        let n = self.pairs.len();
        for i in 1..n
            invariant
                n == self.pairs@.len(),
                n == old(self)@.len(),
                self.dim == old(self).dim,
                self.inv_dim == old(self).inv_dim,
                old(self).wf(),
                best@ == old(self)@[0].x@,
                one_minus_d == T::spec_one().spec_sub(minimizer.d),
                self.pairs@[0] == old(self)@[0],
                forall|k: int|
                    1 <= k < i ==> (#[trigger] self.pairs@[k]).x@ == shrunk_point(
                        old(self)@[k].x@,
                        old(self)@[0].x@,
                        minimizer.d,
                    ),
                forall|k: int| i <= k < n ==> self.pairs@[k] == old(self)@[k],
                forall|k: int| 0 <= k < n ==> (#[trigger] self.pairs@[k]).x@.len()
                    == old(self).spec_dim(),
        {
            let mut xi = vec_scale(&self.pairs[i].x, minimizer.d);
            scaled_add(&mut xi, one_minus_d, &best);
            let fi = f.eval(&xi);
            self.pairs.set(i, Pair { f: fi, x: xi });
        }
    }

    /// The centroid of all vertices except the worst - the last one - on a
    /// sorted simplex; see [`Self::spec_centroid`].
    pub fn centroid(&self) -> (r: Vec<T>)
        requires
            self.wf(),
        ensures
            r@ == self.spec_centroid(),
            r@.len() == self.spec_dim(),
    {
        let mut acc = zeros(self.dim);
        let dim = self.dim;
        for i in 0..dim
            invariant
                self.wf(),
                dim == self.spec_dim(),
                acc@ == sum_points(self@, i as int, self.spec_dim() as nat),
                acc@.len() == self.spec_dim(),
        {
            acc = vec_add(&acc, &self.pairs[i].x);
        }
        vec_scale(&acc, self.inv_dim)
    }
}

/// A permutation of a vertex sequence whose points all have length `n` again
/// has points of length `n` only.
proof fn lemma_permuted_point_lens<T: Scalar>(a: Seq<Pair<T>>, b: Seq<Pair<T>>, n: nat)
    requires
        a.to_multiset() == b.to_multiset(),
        forall|i: int| 0 <= i < a.len() ==> (#[trigger] a[i]).x@.len() == n,
    ensures
        forall|i: int| 0 <= i < b.len() ==> (#[trigger] b[i]).x@.len() == n,
{
    broadcast use vstd::seq_lib::group_to_multiset_ensures;

    assert forall|i: int| 0 <= i < b.len() implies (#[trigger] b[i]).x@.len() == n by {
        assert(b.contains(b[i]));
        assert(b.to_multiset().count(b[i]) > 0);
        assert(a.contains(b[i]));
        let j = choose|j: int| 0 <= j < a.len() && a[j] == b[i];
        assert(a[j].x@.len() == n);
    }
}

/// What being sorted means for reading off the extremes: when the scalar's
/// sort order is transitive - as it is for floats whenever no value is `NaN`
/// - the first vertex of a sorted simplex sorts no later than every vertex,
/// i.e. `best` really is a minimum.  (With incomparable values present the
/// order among them is unspecified, and only the adjacent guarantee of
/// [`sorted_by_value`] remains.)
pub proof fn lemma_sorted_first_is_best<T: Scalar>(s: Seq<Pair<T>>, k: int)
    requires
        sorted_by_value(s),
        forall|a: T, b: T, c: T|
            #[trigger] value_le(a, b) && #[trigger] value_le(b, c) ==> value_le(a, c),
        0 <= k < s.len(),
    ensures
        value_le(s[0].f, s[k].f),
    decreases k,
{
    if k > 0 {
        lemma_sorted_first_is_best(s, k - 1);
        assert(value_le(s[k - 1].f, s[k - 1 + 1].f));
    }
}

} // verus!
