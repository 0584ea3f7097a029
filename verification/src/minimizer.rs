use crate::scalar::Scalar;
use crate::simplex::perturbed;
use crate::simplex::shrunk_vertices;
use crate::simplex::sorted_by_value;
use crate::simplex::Pair;
use crate::simplex::Simplex;
use crate::vector::from_slice;
use crate::vector::max_abs;
use crate::vector::step_away;
use crate::vector::step_toward;
use crate::vector::vec_add;
use crate::vector::vec_scale;
use crate::vector::vec_sub;
use vstd::prelude::*;

verus! {

/// The objective function being minimized.
///
/// The optimizer only ever evaluates it: once per vertex when the initial
/// simplex is built, and between two and `n + 2` times per iteration, always
/// sequentially.  An implementation receives `&mut self`, so it may read or
/// carry external state, and two evaluations at the same point need not
/// agree.  For that reason `eval` has no contract: every guarantee this crate
/// gives holds for whatever values the objective returns.
pub trait Objective<T: Scalar> {
    /// The objective value at the point `x`.
    fn eval(&mut self, x: &Vec<T>) -> T;
}

/// The single failure of the optimizer: the iteration cap was exhausted
/// before both convergence tests passed.  Carries the cap, `n * max_iter`.
#[derive(Debug)]
pub struct MaxIterError(pub usize);

/// A successful minimization.
#[derive(Debug)]
pub struct Output<T: Scalar> {
    /// The lowest objective value found: the value cached for `x_min`, not
    /// re-evaluated on return.
    pub f_min: T,
    /// The best point found.
    pub x_min: Vec<T>,
    /// Iterations consumed before the convergence tests passed.
    pub iter: usize,
}

/// The tunable coefficients of the search.
#[derive(Debug)]
pub struct Minimizer<T: Scalar> {
    /// Reflection coefficient.
    pub a: T,
    /// Contraction coefficient.
    pub b: T,
    /// Expansion coefficient.
    pub c: T,
    /// Shrinkage coefficient.
    pub d: T,
    /// Relative initial step: a nonzero seed coordinate `v` is perturbed to
    /// `v * (1 + step)` when the initial simplex is built.
    pub step: T,
    /// Absolute initial step for seed coordinates that are exactly zero,
    /// keeping the initial simplex non-degenerate along such an axis.
    pub step_zero: T,
    /// Function-value tolerance of the convergence test.
    pub tol_f: T,
    /// Domain tolerance of the convergence test.
    pub tol_x: T,
    /// Per-dimension iteration cap: a run over an `n`-dimensional search
    /// space performs at most `n * max_iter` iterations.
    pub max_iter: usize,
}

impl<T: Scalar> Default for Minimizer<T> {
    /// The default configuration: reflection 1, contraction and shrinkage
    /// 1/2, expansion 2, relative step 1/100, absolute step 1/4000, both
    /// tolerances 1/10000, and a per-dimension cap of 200 iterations.
    fn default() -> (m: Minimizer<T>)
        ensures
            m.a == T::spec_one(),
            m.b == T::spec_from_usize(2).spec_recip(),
            m.c == T::spec_from_usize(2),
            m.d == T::spec_from_usize(2).spec_recip(),
            m.step == T::spec_from_usize(100).spec_recip(),
            m.step_zero == T::spec_from_usize(4000).spec_recip(),
            m.tol_f == T::spec_from_usize(10000).spec_recip(),
            m.tol_x == T::spec_from_usize(10000).spec_recip(),
            m.max_iter == 200,
    {
        let two = T::from_usize(2);
        Minimizer {
            a: T::one(),
            b: two.recip(),
            c: two,
            d: two.recip(),
            step: T::from_usize(100).recip(),
            step_zero: T::from_usize(4000).recip(),
            tol_f: T::from_usize(10000).recip(),
            tol_x: T::from_usize(10000).recip(),
            max_iter: 200,
        }
    }
}

/// The candidate selection of one round, spelled over the values `fr`, `fe`
/// and `fc` that the objective returned at the reflected, expanded and
/// contracted trial points.  (Each of the three matters only in the cases
/// where that point is evaluated; in the others it is unconstrained, since
/// no contract can speak of an evaluation that never happened.)
///
/// With `c` the centroid, `w` the worst point, and `fb`, `fs`, `fw` the
/// best, second-worst and worst values of the sorted incoming simplex `pre`:
/// - reflection accepted - `fr` below `fs`: the candidate is `(fr, Xr)` at
///   the reflected point, except that when `fr` is also below `fb` the
///   expansion is tried and the candidate is `(fe, Xe)` exactly when `fe`
///   is below `fb`;
/// - otherwise a contraction is tried - outside of the centroid when `fr`
///   is below `fw`, inside otherwise - and its `(fc, Xc)` is the candidate
///   exactly when `fc` is below the smaller of `fr` and `fw`;
/// - else the intermediate state `m` is `pre` shrunk toward its best vertex
///   and the candidate is the old worst vertex, re-inserted unchanged.
///
/// In the two non-shrink cases `m` is `pre` itself.
pub open spec fn round_decision<T: Scalar>(
    pre: Simplex<T>,
    m: Seq<Pair<T>>,
    cand: Pair<T>,
    config: Minimizer<T>,
    fr: T,
    fe: T,
    fc: T,
) -> bool {
    let c = pre.spec_centroid();
    let w = pre@.last().x@;
    let fb = pre@.first().f;
    let fs = pre@[pre@.len() - 2].f;
    let fw = pre@.last().f;
    let xr = step_away(c, w, config.a);
    if fr.spec_lt(fs) {
        m == pre@ && (if fr.spec_lt(fb) && fe.spec_lt(fb) {
            cand.f == fe && cand.x@ == step_toward(c, xr, config.c)
        } else {
            cand.f == fr && cand.x@ == xr
        })
    } else {
        let fmin = if fr.spec_lt(fw) {
            fr
        } else {
            fw
        };
        let xc = if fr.spec_lt(fw) {
            step_away(c, w, config.b)
        } else {
            step_toward(c, w, config.b)
        };
        if fc.spec_lt(fmin) {
            m == pre@ && cand.f == fc && cand.x@ == xc
        } else {
            shrunk_vertices(m, pre@, config.d) && cand.f == fw && cand.x@ == w
        }
    }
}

/// The one-round relation of the search: the outgoing simplex `post` is a
/// permutation of an intermediate state `m` with its last vertex replaced
/// by the candidate vertex that [`round_decision`] selects from the values
/// the objective returned at the trial points.
pub open spec fn nelder_mead_round<T: Scalar>(
    pre: Simplex<T>,
    post: Simplex<T>,
    config: Minimizer<T>,
) -> bool {
    exists|m: Seq<Pair<T>>, cand: Pair<T>, fr: T, fe: T, fc: T|
        {
            &&& post@.to_multiset() == m.drop_last().push(cand).to_multiset()
            &&& #[trigger] round_decision(pre, m, cand, config, fr, fe, fc)
        }
}

/// The freshly built simplex of a seed, before the first sort: vertex 0 at
/// the seed itself, vertex `i + 1` at the seed with coordinate `i`
/// perturbed, as `Simplex::new` constructs it.
pub open spec fn built_from_seed<T: Scalar>(
    s: Simplex<T>,
    x0: Seq<T>,
    config: Minimizer<T>,
) -> bool {
    &&& s.wf()
    &&& s.spec_dim() == x0.len()
    &&& s@[0].x@ == x0
    &&& forall|i: int|
        0 <= i < x0.len() ==> (#[trigger] s@[i + 1]).x@ == perturbed(
            x0,
            i,
            config.step,
            config.step_zero,
        )
}

/// The state a run starts from: a sorted permutation of the freshly built
/// simplex of the seed.
pub open spec fn initial_state<T: Scalar>(
    s: Simplex<T>,
    x0: Seq<T>,
    config: Minimizer<T>,
) -> bool {
    &&& exists|s0: Simplex<T>|
        #[trigger] built_from_seed(s0, x0, config) && s@.to_multiset() == s0@.to_multiset()
    &&& s.wf()
    &&& s.spec_dim() == x0.len()
    &&& sorted_by_value(s@)
}

/// A run of the search from the seed `x0`: `chain[k]` is the simplex at the
/// top of round `k`.  The first state is the sorted initial simplex, every
/// state is well-formed, sorted and of the seed's dimension, and each state
/// follows from its predecessor by one round.
pub open spec fn search_run<T: Scalar>(
    chain: Seq<Simplex<T>>,
    x0: Seq<T>,
    config: Minimizer<T>,
) -> bool {
    &&& chain.len() >= 1
    &&& initial_state(chain[0], x0, config)
    &&& forall|k: int|
        0 <= k < chain.len() ==> (#[trigger] chain[k]).wf() && chain[k].spec_dim() == x0.len()
            && sorted_by_value(chain[k]@)
    &&& forall|k: int| 1 <= k < chain.len() ==> nelder_mead_round(chain[k - 1], #[trigger] chain[k], config)
}

impl<T: Scalar> Minimizer<T> {
    /// One round of the search on a sorted simplex.
    ///
    /// Computes the centroid of all vertices but the worst, reflects the
    /// worst point through it, and - depending on how the reflected value
    /// compares against the best and second-worst values - either keeps the
    /// reflection, expands past it, contracts toward the worst point, or
    /// shrinks the whole simplex toward the best vertex.  The surviving
    /// candidate replaces the worst vertex, the simplex is re-sorted, and the
    /// two convergence tests are evaluated: the round reports convergence
    /// only when the re-sorted simplex satisfies both, so a `true` result
    /// says the best vertex may be returned.
    pub fn iterate<F: Objective<T>>(&self, simplex: &mut Simplex<T>, f: &mut F) -> (converged:
        bool)
        requires
            old(simplex).wf(),
            sorted_by_value(old(simplex)@),
        ensures
            final(simplex).wf(),
            final(simplex).spec_dim() == old(simplex).spec_dim(),
            sorted_by_value(final(simplex)@),
            nelder_mead_round(*old(simplex), *final(simplex), *self),
            converged == final(simplex).is_converged(self.tol_f, self.tol_x),
    {
        let centroid = simplex.centroid();

        // Best and worst of the incoming, sorted simplex.
        let fb = simplex.best().unwrap().f;
        let mut worst = simplex.worst().unwrap().duplicate();

        // Reflection.
        let reflect = {
            let x = vec_add(&centroid, &vec_scale(&vec_sub(&centroid, &worst.x), self.a));
            let fx = f.eval(&x);
            Pair::new(fx, x)
        };

        // The evaluated values at the three trial points, for the round
        // relation; a value is overwritten when its point is evaluated.
        let ghost gfr = reflect.f;
        let ghost mut gfe = reflect.f;
        let ghost mut gfc = reflect.f;

        let fs = simplex.second_worst().unwrap().f;

        if reflect.f.lt(fs) {
            // Reflection accepted.
            worst = reflect.duplicate();

            if reflect.f.lt(fb) {
                // Expansion.
                let expan = {
                    let x = vec_add(&centroid, &vec_scale(&vec_sub(&reflect.x, &centroid), self.c));
                    let fx = f.eval(&x);
                    Pair::new(fx, x)
                };
                proof {
                    gfe = expan.f;
                }

                // Expansion accepted.
                if expan.f.lt(fb) {
                    worst = expan;
                }
            }
        } else {
            // Contraction: outside of the centroid when the reflection beat
            // the worst value, inside otherwise.
            let contr = {
                let x = if reflect.f.lt(worst.f) {
                    vec_add(&centroid, &vec_scale(&vec_sub(&centroid, &worst.x), self.b))
                } else {
                    vec_add(&centroid, &vec_scale(&vec_sub(&worst.x, &centroid), self.b))
                };
                let fx = f.eval(&x);
                Pair::new(fx, x)
            };
            proof {
                gfc = contr.f;
            }

            // Contraction accepted when it beats both the reflection and the
            // old worst; otherwise the whole simplex shrinks toward the best
            // vertex, and the pre-iteration worst vertex stays the candidate
            // for the replace step below.
            let fmin = if reflect.f.lt(worst.f) {
                reflect.f
            } else {
                worst.f
            };
            if contr.f.lt(fmin) {
                worst = contr;
            } else {
                simplex.shrink(f, self);
            }
        }

        // Replace the (pre-shrink) worst vertex with the candidate, re-sort.
        let ghost mid = *simplex;
        let ghost cand = worst;
        simplex.update(worst);
        proof {
            assert forall|i: int| 0 <= i < simplex@.len() implies (#[trigger] simplex@[i]).x@.len()
                == simplex.spec_dim() by {
                if i < simplex@.len() - 1 {
                    assert(simplex@[i] == mid@.drop_last()[i]);
                    assert(mid@.drop_last()[i] == mid@[i]);
                }
            }
        }
        simplex.sort();
        proof {
            assert(simplex@.to_multiset() == mid@.drop_last().push(cand).to_multiset());
            assert(round_decision(*old(simplex), mid@, cand, *self, gfr, gfe, gfc));
            assert(nelder_mead_round(*old(simplex), *simplex, *self));
        }

        // Termination tests on the freshly sorted simplex.
        let best_now = simplex.best().unwrap();
        let worst_now = simplex.worst().unwrap();
        let diff = vec_sub(&worst_now.x, &best_now.x);
        let test_x = max_abs(&diff);
        let test_f = worst_now.f.sub(best_now.f).abs();
        test_f.le(self.tol_f) && test_x.le(self.tol_x)
    }

    /// Minimizes the objective `f` from the seed `x0`.
    ///
    /// Builds the initial simplex from the seed, sorts it, and runs
    /// [`Self::iterate`] rounds until both convergence tests pass - in which
    /// case the best vertex of the final simplex is returned together with
    /// the number of iterations consumed, necessarily below the cap - or
    /// until `x0.len() * max_iter` rounds are exhausted, in which case the
    /// error carries exactly that cap.
    ///
    /// Either way the contract exhibits the whole run: a chain of simplex
    /// states starting at the sorted initial simplex of the seed, linked
    /// round by round, in which no state before the last passed the tests.
    /// On success the last state alone is converged and the result is its
    /// best vertex; on failure the chain spans all `x0.len() * max_iter`
    /// rounds and not one of their outcomes converged.
    pub fn minimize<F: Objective<T>>(&self, x0: &Vec<T>, f: &mut F) -> (r: Result<
        Output<T>,
        MaxIterError,
    >)
        requires
            x0@.len() >= 1,
            x0@.len() * self.max_iter <= usize::MAX,
        ensures
            match r {
                Ok(out) => {
                    &&& out.iter < x0@.len() * self.max_iter
                    &&& out.x_min@.len() == x0@.len()
                    &&& exists|chain: Seq<Simplex<T>>|
                        {
                            &&& #[trigger] search_run(chain, x0@, *self)
                            &&& chain.len() == out.iter + 2
                            &&& (forall|k: int|
                                1 <= k < chain.len() - 1 ==> !(#[trigger] chain[k]).is_converged(
                                    self.tol_f,
                                    self.tol_x,
                                ))
                            &&& chain.last().is_converged(self.tol_f, self.tol_x)
                            &&& out.f_min == chain.last()@[0].f
                            &&& out.x_min@ == chain.last()@[0].x@
                        }
                },
                Err(e) => {
                    &&& e.0 == x0@.len() * self.max_iter
                    &&& exists|chain: Seq<Simplex<T>>|
                        {
                            &&& #[trigger] search_run(chain, x0@, *self)
                            &&& chain.len() == x0@.len() * self.max_iter + 1
                            &&& (forall|k: int|
                                1 <= k < chain.len() ==> !(#[trigger] chain[k]).is_converged(
                                    self.tol_f,
                                    self.tol_x,
                                ))
                        }
                },
            },
    {
        let dim = x0.len();
        let cap = dim * self.max_iter;

        let mut simplex = Simplex::new(x0, f, self);
        let ghost s0 = simplex;
        simplex.sort();
        let ghost mut chain: Seq<Simplex<T>> = seq![simplex];
        proof {
            assert(built_from_seed(s0, x0@, *self));
            assert(initial_state(simplex, x0@, *self));
            assert(chain[0] == simplex);
            assert(search_run(chain, x0@, *self));
        }

        for iter in 0..cap
            invariant
                simplex.wf(),
                simplex.spec_dim() == x0@.len(),
                sorted_by_value(simplex@),
                cap == x0@.len() * self.max_iter,
                search_run(chain, x0@, *self),
                chain.len() == iter + 1,
                chain.last() == simplex,
                forall|k: int|
                    1 <= k < chain.len() ==> !(#[trigger] chain[k]).is_converged(
                        self.tol_f,
                        self.tol_x,
                    ),
        {
            let ghost prev_chain = chain;
            let converged = self.iterate(&mut simplex, f);
            proof {
                chain = prev_chain.push(simplex);
                assert forall|k: int| 0 <= k < chain.len() implies (#[trigger] chain[k]).wf()
                    && chain[k].spec_dim() == x0@.len() && sorted_by_value(chain[k]@) by {
                    if k < prev_chain.len() {
                        assert(chain[k] == prev_chain[k]);
                    } else {
                        assert(chain[k] == simplex);
                    }
                }
                assert forall|k: int| 1 <= k < chain.len() implies nelder_mead_round(
                    chain[k - 1],
                    #[trigger] chain[k],
                    *self,
                ) by {
                    if k < prev_chain.len() {
                        assert(chain[k] == prev_chain[k]);
                        assert(chain[k - 1] == prev_chain[k - 1]);
                    } else {
                        assert(chain[k] == simplex);
                        assert(chain[k - 1] == prev_chain.last());
                    }
                }
                assert(chain[0] == prev_chain[0]);
                assert(search_run(chain, x0@, *self));
                assert forall|k: int| 1 <= k < chain.len() - 1 implies !(
                #[trigger] chain[k]).is_converged(self.tol_f, self.tol_x) by {
                    assert(chain[k] == prev_chain[k]);
                }
            }
            if converged {
                let best = simplex.best().unwrap();
                let out = Output { f_min: best.f, x_min: from_slice(best.x.as_slice()), iter };
                proof {
                    assert(chain.last() == simplex);
                }
                return Ok(out);
            }
            proof {
                assert forall|k: int| 1 <= k < chain.len() implies !(
                #[trigger] chain[k]).is_converged(self.tol_f, self.tol_x) by {
                    if k == chain.len() - 1 {
                        assert(chain[k] == simplex);
                    }
                }
            }
        }

        Err(MaxIterError(cap))
    }
}

} // verus!
