use crate::scalar::Scalar;
use vstd::prelude::*;

verus! {

/// Elementwise sum of two coordinate sequences of equal length.
pub open spec fn seq_add<T: Scalar>(a: Seq<T>, b: Seq<T>) -> Seq<T> {
    Seq::new(a.len(), |i: int| a[i].spec_add(b[i]))
}

/// Elementwise difference of two coordinate sequences of equal length.
pub open spec fn seq_sub<T: Scalar>(a: Seq<T>, b: Seq<T>) -> Seq<T> {
    Seq::new(a.len(), |i: int| a[i].spec_sub(b[i]))
}

/// Every coordinate of `a` multiplied by the scalar `s`.
pub open spec fn seq_scale<T: Scalar>(a: Seq<T>, s: T) -> Seq<T> {
    Seq::new(a.len(), |i: int| a[i].spec_mul(s))
}

/// The fused update `a[i] := rhs[i] * s + a[i]`, coordinate by coordinate.
pub open spec fn seq_scaled_add<T: Scalar>(a: Seq<T>, s: T, rhs: Seq<T>) -> Seq<T> {
    Seq::new(a.len(), |i: int| rhs[i].spec_mul_add(s, a[i]))
}

/// The all-zero coordinate sequence of length `n`.
pub open spec fn zeros_seq<T: Scalar>(n: nat) -> Seq<T> {
    Seq::new(n, |i: int| T::spec_zero())
}

/// The point `c + k * (c - w)`: from `c`, a step of size `k` away from `w`.
/// With `k` the reflection coefficient this is the reflection of `w` through
/// `c`; with the contraction coefficient it is the outside contraction.
pub open spec fn step_away<T: Scalar>(c: Seq<T>, w: Seq<T>, k: T) -> Seq<T> {
    seq_add(c, seq_scale(seq_sub(c, w), k))
}

/// The point `c + k * (w - c)`: from `c`, a step of size `k` toward `w`.
/// With `k` the expansion coefficient and `w` the reflected point this is
/// the expansion; with the contraction coefficient and `w` the worst point
/// it is the inside contraction.
pub open spec fn step_toward<T: Scalar>(c: Seq<T>, w: Seq<T>, k: T) -> Seq<T> {
    seq_add(c, seq_scale(seq_sub(w, c), k))
}

/// The maximum-magnitude coordinate of `s`, found by a left-to-right scan
/// that replaces the running maximum whenever it compares `spec_lt` the next
/// absolute value.  (With incomparable values such as `NaN` the scan is still
/// well defined; which value it keeps is simply what the comparisons say.)
pub open spec fn max_abs_seq<T: Scalar>(s: Seq<T>) -> T
    recommends
        s.len() >= 1,
    decreases s.len(),
{
    if s.len() <= 1 {
        s[0].spec_abs()
    } else {
        let m = max_abs_seq(s.drop_last());
        let a = s.last().spec_abs();
        if m.spec_lt(a) {
            a
        } else {
            m
        }
    }
}

/// A zero vector of the given dimension.
pub fn zeros<T: Scalar>(dim: usize) -> (r: Vec<T>)
    ensures
        r@ == zeros_seq::<T>(dim as nat),
{
    let mut r: Vec<T> = Vec::new();
    for i in 0..dim
        invariant
            r@ == zeros_seq::<T>(i as nat),
    {
        r.push(T::zero());
        assert(r@ =~= zeros_seq::<T>((i + 1) as nat));
    }
    r
}

/// A vector holding the same coordinates as the given slice.
pub fn from_slice<T: Scalar>(s: &[T]) -> (r: Vec<T>)
    ensures
        r@ == s@,
{
    let mut r: Vec<T> = Vec::new();
    let n = s.len();
    for i in 0..n
        invariant
            n == s@.len(),
            r@ == s@.take(i as int),
    {
        r.push(s[i]);
        assert(r@ =~= s@.take(i as int + 1));
    }
    assert(s@.take(n as int) =~= s@);
    r
}

/// Elementwise vector sum.
pub fn vec_add<T: Scalar>(a: &Vec<T>, b: &Vec<T>) -> (r: Vec<T>)
    requires
        a@.len() == b@.len(),
    ensures
        r@ == seq_add(a@, b@),
{
    let mut r: Vec<T> = Vec::new();
    let n = a.len();
    for i in 0..n
        invariant
            a@.len() == b@.len(),
            n == a@.len(),
            r@ == seq_add(a@, b@).take(i as int),
    {
        r.push(a[i].add(b[i]));
        assert(r@ =~= seq_add(a@, b@).take(i as int + 1));
    }
    assert(seq_add(a@, b@).take(n as int) =~= seq_add(a@, b@));
    r
}

/// Elementwise vector difference.
pub fn vec_sub<T: Scalar>(a: &Vec<T>, b: &Vec<T>) -> (r: Vec<T>)
    requires
        a@.len() == b@.len(),
    ensures
        r@ == seq_sub(a@, b@),
{
    let mut r: Vec<T> = Vec::new();
    let n = a.len();
    for i in 0..n
        invariant
            a@.len() == b@.len(),
            n == a@.len(),
            r@ == seq_sub(a@, b@).take(i as int),
    {
        r.push(a[i].sub(b[i]));
        assert(r@ =~= seq_sub(a@, b@).take(i as int + 1));
    }
    assert(seq_sub(a@, b@).take(n as int) =~= seq_sub(a@, b@));
    r
}

/// Every coordinate multiplied by the scalar `s`.
pub fn vec_scale<T: Scalar>(a: &Vec<T>, s: T) -> (r: Vec<T>)
    ensures
        r@ == seq_scale(a@, s),
{
    let mut r: Vec<T> = Vec::new();
    let n = a.len();
    for i in 0..n
        invariant
            n == a@.len(),
            r@ == seq_scale(a@, s).take(i as int),
    {
        r.push(a[i].mul(s));
        assert(r@ =~= seq_scale(a@, s).take(i as int + 1));
    }
    assert(seq_scale(a@, s).take(n as int) =~= seq_scale(a@, s));
    r
}

/// The fused update `acc[i] := rhs[i] * s + acc[i]` on every coordinate.
pub fn scaled_add<T: Scalar>(acc: &mut Vec<T>, s: T, rhs: &Vec<T>)
    requires
        old(acc)@.len() == rhs@.len(),
    ensures
        final(acc)@ == seq_scaled_add(old(acc)@, s, rhs@),
{
    let n = acc.len();
    for i in 0..n
        invariant
            n == old(acc)@.len(),
            rhs@.len() == old(acc)@.len(),
            acc@.len() == old(acc)@.len(),
            forall|j: int| 0 <= j < i ==> acc@[j] == rhs@[j].spec_mul_add(s, old(acc)@[j]),
            forall|j: int| i <= j < n ==> acc@[j] == old(acc)@[j],
    {
        let v = rhs[i].mul_add(s, acc[i]);
        acc.set(i, v);
    }
    assert(acc@ =~= seq_scaled_add(old(acc)@, s, rhs@));
}

/// The maximum-magnitude coordinate, by a left-to-right scan with `lt`.
pub fn max_abs<T: Scalar>(v: &Vec<T>) -> (r: T)
    requires
        v@.len() >= 1,
    ensures
        r == max_abs_seq(v@),
{
    let mut m = v[0].abs();
    let n = v.len();
    assert(v@.take(1) =~= seq![v@[0]]);
    for i in 1..n
        invariant
            1 <= i <= n,
            n == v@.len(),
            m == max_abs_seq(v@.take(i as int)),
    {
        let a = v[i].abs();
        if m.lt(a) {
            m = a;
        }
        proof {
            let t = v@.take(i as int + 1);
            assert(t.drop_last() =~= v@.take(i as int));
            assert(t.last() == v@[i as int]);
        }
    }
    assert(v@.take(n as int) =~= v@);
    m
}

} // verus!
