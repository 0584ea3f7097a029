use minimizer::scalar::Scalar;
use minimizer::simplex::Pair;
use minimizer::simplex::Simplex;
use minimizer::Minimizer;
use minimizer::Objective;

/// `f64` with the `Scalar` interface the library is generic over.
#[derive(Clone, Copy, Debug, PartialEq)]
struct Real(f64);

impl Scalar for Real {
    // The `spec_*` items below exist only for the verifier; ghost code is
    // erased, so their bodies never run.
    fn spec_add(self, _rhs: Self) -> Self {
        unreachable!()
    }

    fn spec_sub(self, _rhs: Self) -> Self {
        unreachable!()
    }

    fn spec_mul(self, _rhs: Self) -> Self {
        unreachable!()
    }

    fn spec_mul_add(self, _a: Self, _b: Self) -> Self {
        unreachable!()
    }

    fn spec_abs(self) -> Self {
        unreachable!()
    }

    fn spec_recip(self) -> Self {
        unreachable!()
    }

    fn spec_lt(self, _rhs: Self) -> bool {
        unreachable!()
    }

    fn spec_le(self, _rhs: Self) -> bool {
        unreachable!()
    }

    fn spec_is_zero(self) -> bool {
        unreachable!()
    }

    fn spec_zero() -> Self {
        unreachable!()
    }

    fn spec_one() -> Self {
        unreachable!()
    }

    fn spec_from_usize(_n: usize) -> Self {
        unreachable!()
    }

    fn add(self, rhs: Self) -> Self {
        Real(self.0 + rhs.0)
    }

    fn sub(self, rhs: Self) -> Self {
        Real(self.0 - rhs.0)
    }

    fn mul(self, rhs: Self) -> Self {
        Real(self.0 * rhs.0)
    }

    fn mul_add(self, a: Self, b: Self) -> Self {
        Real(self.0.mul_add(a.0, b.0))
    }

    fn abs(self) -> Self {
        Real(self.0.abs())
    }

    fn recip(self) -> Self {
        Real(self.0.recip())
    }

    fn lt(self, rhs: Self) -> bool {
        self.0 < rhs.0
    }

    fn le(self, rhs: Self) -> bool {
        self.0 <= rhs.0
    }

    fn is_zero(self) -> bool {
        self.0 == 0.0
    }

    fn zero() -> Self {
        Real(0.0)
    }

    fn one() -> Self {
        Real(1.0)
    }

    fn from_usize(n: usize) -> Self {
        Real(n as f64)
    }
}

/// Adapts a closure over coordinate vectors to the `Objective` interface.
struct Func<F: FnMut(&Vec<Real>) -> Real>(F);

impl<F: FnMut(&Vec<Real>) -> Real> Objective<Real> for Func<F> {
    fn eval(&mut self, x: &Vec<Real>) -> Real {
        (self.0)(x)
    }
}

#[test]
fn minimize_square_1d() {
    let minimizer = Minimizer::default();
    let expected = 0.0;
    let mut f = Func(|x: &Vec<Real>| Real(x[0].0.powi(2)));
    let result = minimizer.minimize(&vec![Real(1.0_f64)], &mut f).unwrap();

    println!("f_min = {:?}", result.f_min);
    println!("x_min = {:?}", result.x_min);
    println!(" iter = {:?}", result.iter);

    assert!((result.f_min.0 - expected).abs() < 1e-9);
}

#[test]
fn minimize_square_2d() {
    let minimizer = Minimizer::default();
    let expected = 0.0;
    let mut f = Func(|x: &Vec<Real>| Real(x[0].0.powi(2) * x[1].0.powi(2)));
    let result = minimizer.minimize(&vec![Real(1.0_f64), Real(1.0)], &mut f).unwrap();

    println!("f_min = {:?}", result.f_min);
    println!("x_min = {:?}", result.x_min);
    println!(" iter = {:?}", result.iter);

    assert!((result.f_min.0 - expected).abs() < 1e-9);
}

#[test]
fn minimize_sin() {
    let minimizer = Minimizer::default();
    let expected = -1.0;
    let mut f = Func(|x: &Vec<Real>| Real(x[0].0.sin()));
    let result = minimizer.minimize(&vec![Real(0.0_f64)], &mut f).unwrap();

    println!("f_min = {:?}", result.f_min);
    println!("x_min = {:?}", result.x_min);
    println!(" iter = {:?}", result.iter);

    assert!((result.f_min.0 - expected).abs() < 1e-9);
}

#[test]
fn minimize_cosh() {
    let minimizer = Minimizer::default();
    let expected = 1.0;
    let mut f = Func(|x: &Vec<Real>| Real(x[0].0.cosh()));
    let result = minimizer.minimize(&vec![Real(1.0_f64)], &mut f).unwrap();

    println!("f_min = {:?}", result.f_min);
    println!("x_min = {:?}", result.x_min);
    println!(" iter = {:?}", result.iter);

    assert!((result.f_min.0 - expected).abs() < 1e-9);
}

#[test]
fn minimize_abs() {
    let minimizer = Minimizer::default();
    let expected = 0.0;
    let mut f = Func(|x: &Vec<Real>| Real(x[0].0.abs()));
    let result = minimizer.minimize(&vec![Real(1.0_f64)], &mut f).unwrap();

    println!("f_min = {:?}", result.f_min);
    println!("x_min = {:?}", result.x_min);
    println!(" iter = {:?}", result.iter);

    assert!((result.f_min.0 - expected).abs() < 1e-9);
}

#[test]
fn minimize_square_zero_seed() {
    // A seed coordinate that is exactly zero takes the absolute perturbation,
    // so the initial simplex is still non-degenerate and the search converges.
    let minimizer = Minimizer::default();
    let mut f = Func(|x: &Vec<Real>| Real(x[0].0.powi(2)));
    let result = minimizer.minimize(&vec![Real(0.0_f64)], &mut f).unwrap();

    assert!(result.f_min.0.abs() < 1e-8);
    assert!(result.x_min[0].0.abs() < 1e-2);
}

#[test]
fn simplex_keeps_dimension_invariant() {
    // The simplex holds exactly n + 1 vertices when built and after every
    // sort, iteration and shrink.
    let minimizer: Minimizer<Real> = Minimizer::default();
    let mut f = Func(|x: &Vec<Real>| Real(x[0].0.powi(2) + x[1].0.powi(2)));
    let seed = vec![Real(1.0_f64), Real(2.0)];
    let mut simplex = Simplex::new(&seed, &mut f, &minimizer);
    assert_eq!(simplex.size(), 3);
    assert_eq!(simplex.dimension(), 2);
    simplex.sort();
    assert_eq!(simplex.size(), 3);
    for _ in 0..5 {
        minimizer.iterate(&mut simplex, &mut f);
        assert_eq!(simplex.size(), 3);
    }
    simplex.shrink(&mut f, &minimizer);
    assert_eq!(simplex.size(), 3);
}

#[test]
fn success_iter_is_below_cap() {
    let minimizer: Minimizer<Real> = Minimizer::default();
    let mut f = Func(|x: &Vec<Real>| Real(x[0].0.powi(2)));
    let result = minimizer.minimize(&vec![Real(1.0_f64)], &mut f).unwrap();
    assert!(result.iter < 200);
}

#[test]
fn cap_exhaustion_reports_cap() {
    // An unbounded objective never satisfies the convergence tests, so the
    // loop runs out and the error carries exactly n * max_iter.
    let minimizer: Minimizer<Real> = Minimizer::default();
    let mut f = Func(|x: &Vec<Real>| Real(-x[0].0));
    let err = minimizer.minimize(&vec![Real(1.0_f64)], &mut f).unwrap_err();
    assert_eq!(err.0, 200);
}

#[test]
fn cap_scales_with_dimension() {
    let minimizer: Minimizer<Real> = Minimizer::default();
    let mut f = Func(|x: &Vec<Real>| Real(-x[0].0 - x[1].0 - x[2].0));
    let seed = vec![Real(1.0_f64), Real(1.0), Real(1.0)];
    let err = minimizer.minimize(&seed, &mut f).unwrap_err();
    assert_eq!(err.0, 600);
}

#[test]
fn converged_simplex_is_stable() {
    // One extra iteration on an already-converged simplex moves the best
    // value by less than the function tolerance.
    let minimizer: Minimizer<Real> = Minimizer::default();
    let mut f = Func(|x: &Vec<Real>| Real(x[0].0.powi(2)));
    let seed = vec![Real(1.0_f64)];
    let mut simplex = Simplex::new(&seed, &mut f, &minimizer);
    simplex.sort();
    let mut rounds = 0_usize;
    while !minimizer.iterate(&mut simplex, &mut f) {
        rounds += 1;
        assert!(rounds < 200);
    }
    let f_min = simplex.best().unwrap().f.0;
    minimizer.iterate(&mut simplex, &mut f);
    let f_min_after = simplex.best().unwrap().f.0;
    assert!((f_min_after - f_min).abs() < 1e-4);
}

#[test]
fn default_configuration_values() {
    let m: Minimizer<Real> = Minimizer::default();
    assert_eq!(m.a.0, 1.0);
    assert_eq!(m.b.0, 0.5);
    assert_eq!(m.c.0, 2.0);
    assert_eq!(m.d.0, 0.5);
    assert_eq!(m.step.0, 0.01);
    assert_eq!(m.step_zero.0, 0.00025);
    assert_eq!(m.tol_f.0, 1e-4);
    assert_eq!(m.tol_x.0, 1e-4);
    assert_eq!(m.max_iter, 200);
}

#[test]
fn initial_simplex_perturbs_each_coordinate() {
    // Vertex 0 is the seed; vertex i + 1 perturbs coordinate i: a nonzero
    // coordinate is scaled by 1 + step, a zero one becomes step_zero.
    let minimizer: Minimizer<Real> = Minimizer::default();
    let mut f = Func(|x: &Vec<Real>| Real(x[0].0 + x[1].0));
    let seed = vec![Real(2.0_f64), Real(0.0)];
    let mut simplex = Simplex::new(&seed, &mut f, &minimizer);
    assert_eq!(simplex.size(), 3);
    simplex.sort();

    let scaled = 2.0_f64 * (1.0 + 0.01);
    let best = simplex.best().unwrap();
    assert_eq!(best.f.0, 2.0);
    assert_eq!(best.x[0].0, 2.0);
    assert_eq!(best.x[1].0, 0.0);
    let second = simplex.second_worst().unwrap();
    assert_eq!(second.f.0, 2.0 + 0.00025);
    assert_eq!(second.x[0].0, 2.0);
    assert_eq!(second.x[1].0, 0.00025);
    let worst = simplex.worst().unwrap();
    assert_eq!(worst.f.0, scaled + 0.0);
    assert_eq!(worst.x[0].0, scaled);
    assert_eq!(worst.x[1].0, 0.0);
}

#[test]
fn update_replaces_worst_vertex() {
    let minimizer: Minimizer<Real> = Minimizer::default();
    let mut f = Func(|x: &Vec<Real>| Real(x[0].0));
    let seed = vec![Real(1.0_f64)];
    let mut simplex = Simplex::new(&seed, &mut f, &minimizer);
    simplex.sort();
    assert_eq!(simplex.worst().unwrap().f.0, 1.0 * (1.0 + 0.01));

    simplex.update(Pair::new(Real(0.5), vec![Real(0.5)]));
    simplex.sort();
    assert_eq!(simplex.size(), 2);
    assert_eq!(simplex.best().unwrap().f.0, 0.5);
    assert_eq!(simplex.worst().unwrap().f.0, 1.0);
}

#[test]
fn shrink_moves_points_toward_best() {
    let minimizer: Minimizer<Real> = Minimizer::default();
    let mut f = Func(|x: &Vec<Real>| Real(x[0].0 * x[0].0));
    let seed = vec![Real(1.0_f64)];
    let mut simplex = Simplex::new(&seed, &mut f, &minimizer);
    simplex.sort();
    simplex.shrink(&mut f, &minimizer);

    // The non-best vertex moved to d * x + (1 - d) * best, the best stayed.
    let x1 = 1.0_f64 * (1.0 + 0.01);
    let moved = 1.0_f64.mul_add(1.0 - 0.5, x1 * 0.5);
    let worst = simplex.worst().unwrap();
    assert_eq!(worst.x[0].0, moved);
    assert_eq!(worst.f.0, moved * moved);
    assert_eq!(simplex.best().unwrap().x[0].0, 1.0);
    assert_eq!(simplex.best().unwrap().f.0, 1.0);
}

#[test]
fn centroid_averages_all_but_worst() {
    let minimizer: Minimizer<Real> = Minimizer::default();
    let mut f = Func(|x: &Vec<Real>| Real(x[0].0 + x[1].0));
    let seed = vec![Real(1.0_f64), Real(3.0)];
    let mut simplex = Simplex::new(&seed, &mut f, &minimizer);
    simplex.sort();

    // Sorted values: f(1, 3) = 4, f(1.01, 3) = 4.01, f(1, 3.03) = 4.03, so
    // the centroid averages the first two points.
    let c = simplex.centroid();
    let expected0 = (0.0_f64 + 1.0 + 1.0 * (1.0 + 0.01)) * 0.5;
    let expected1 = (0.0_f64 + 3.0 + 3.0) * 0.5;
    assert_eq!(c[0].0, expected0);
    assert_eq!(c[1].0, expected1);
}

#[test]
fn nan_values_do_not_fault() {
    // An objective that returns NaN participates in every comparison as
    // "equal"; the search cannot converge but must not fault.
    let minimizer: Minimizer<Real> = Minimizer::default();
    let mut f = Func(|x: &Vec<Real>| Real((-(x[0].0.abs() + 1.0)).sqrt()));
    let err = minimizer.minimize(&vec![Real(1.0_f64)], &mut f).unwrap_err();
    assert_eq!(err.0, 200);
}
