//! What a controller asks of its numeric type, and how sums over a history of
//! errors are described.

use core::cmp::Ordering;
use core::ops::{Add, Mul, Sub};
use vstd::prelude::*;
use vstd::seq_lib::{commutative_foldl, lemma_fold_left_permutation};
use vstd::std_specs::cmp::PartialOrdSpec;
use vstd::std_specs::ops::{AddSpec, MulSpec, SubSpec};

verus! {

/// A type that a controller can compute with: it has a default value, which
/// serves as zero, the three operators, an order, and is `Copy`.
pub trait Numeric: Default + Add<Output = Self> + Sub<Output = Self> + Mul<Output = Self> + PartialOrd + Copy {

}

impl<T: Default + Add<Output = T> + Sub<Output = T> + Mul<Output = T> + PartialOrd + Copy> Numeric for T {

}

/// `z` is a value that `F::default()` may return.
pub open spec fn is_zero<F: Numeric>(z: F) -> bool {
    call_ensures(F::default, (), z)
}

/// The value that stands for zero in `F`: one that `F::default()` may return.
/// Once `F::default()` has returned at all, `is_zero(zero())` holds.
pub open spec fn zero<F: Numeric>() -> F {
    choose|z: F| is_zero(z)
}

/// `v` is a value that converting `x` into `F` may yield.
pub open spec fn converts<T: Into<F>, F>(x: T, v: F) -> bool {
    call_ensures(<T as Into<F>>::into, (x,), v)
}

/// `F::default()` has one value only: whatever it returns is `zero()`.
pub open spec fn zero_is_unique<F: Numeric>() -> bool {
    forall|z: F| #[trigger] is_zero(z) ==> z == zero::<F>()
}

/// The three operators of `F` compute what their specification functions
/// say.
pub open spec fn obeys_operators<F: Numeric>() -> bool {
    &&& <F as AddSpec>::obeys_add_spec()
    &&& <F as SubSpec>::obeys_sub_spec()
    &&& <F as MulSpec>::obeys_mul_spec()
}

/// The three operators of `F` compute what their specification functions
/// say, and `F::default()` has one value only.
pub open spec fn obeys_arith<F: Numeric>() -> bool {
    &&& obeys_operators::<F>()
    &&& zero_is_unique::<F>()
}

/// The comparisons of `F` compute what their specification function says.
pub open spec fn obeys_order<F: Numeric>() -> bool {
    F::obeys_partial_cmp_spec()
}

/// `a > b`.
pub open spec fn exceeds<F: Numeric>(a: F, b: F) -> bool {
    a.partial_cmp_spec(&b) == Some(Ordering::Greater)
}

/// `a < b`.
pub open spec fn below<F: Numeric>(a: F, b: F) -> bool {
    a.partial_cmp_spec(&b) == Some(Ordering::Less)
}

/// `a <= b`.
pub open spec fn at_most<F: Numeric>(a: F, b: F) -> bool {
    a.partial_cmp_spec(&b) matches Some(Ordering::Less | Ordering::Equal)
}

/// `a >= b`.
pub open spec fn at_least<F: Numeric>(a: F, b: F) -> bool {
    a.partial_cmp_spec(&b) matches Some(Ordering::Greater | Ordering::Equal)
}

/// Any two values of `F` compare, and a value compares equal to itself.
pub open spec fn always_comparable<F: Numeric>() -> bool {
    &&& forall|x: F| #[trigger] x.partial_cmp_spec(&x) == Some(Ordering::Equal)
    &&& forall|x: F, y: F| (#[trigger] x.partial_cmp_spec(&y)) is Some
}

/// The control error: setpoint minus feedback.
pub open spec fn error_of<F: Numeric>(sp: F, fb: F) -> F {
    sp.sub_spec(fb)
}

/// Adding one more term to a running sum.
pub open spec fn adder<F: Numeric>() -> spec_fn(F, F) -> F {
    |acc: F, x: F| acc.add_spec(x)
}

/// The sum of `s`, added up from the left, starting from `z`.
pub open spec fn sum_from<F: Numeric>(z: F, s: Seq<F>) -> F {
    s.fold_left(z, adder::<F>())
}

/// Every addition that `sum_from(z, s)` makes is one that `F` allows.
pub open spec fn sum_defined<F: Numeric>(z: F, s: Seq<F>) -> bool
    decreases s.len(),
{
    s.len() > 0 ==> sum_defined(z, s.drop_last()) && sum_from(z, s.drop_last()).add_req(s.last())
}

/// A defined sum is defined up to each of its elements, and each element adds
/// itself to the sum of those before it.
pub proof fn lemma_sum_step<F: Numeric>(z: F, s: Seq<F>, i: int)
    requires
        sum_defined(z, s),
        0 <= i < s.len(),
    ensures
        sum_defined(z, s.take(i)),
        sum_from(z, s.take(i)).add_req(s[i]),
        sum_from(z, s.take(i + 1)) == sum_from(z, s.take(i)).add_spec(s[i]),
    decreases s.len(),
{
    assert(s.take(i + 1).drop_last() =~= s.take(i));
    if i == s.len() - 1 {
        assert(s.drop_last() =~= s.take(i));
    } else {
        lemma_sum_step(z, s.drop_last(), i);
        assert(s.drop_last().take(i) =~= s.take(i));
        assert(s.drop_last().take(i + 1) =~= s.take(i + 1));
    }
}

/// `z` acts as zero: a value minus itself is `z`, a value times `z` is `z`,
/// and `z` plus `z` is `z`.
pub open spec fn zero_laws<F: Numeric>(z: F) -> bool {
    &&& forall|x: F| #[trigger] x.sub_spec(x) == z
    &&& forall|k: F| #[trigger] k.mul_spec(z) == z
    &&& z.add_spec(z) == z
}

/// The order in which terms are added to a running sum does not change it:
/// `(v + x) + y == (v + y) + x`.
pub open spec fn add_commutes<F: Numeric>() -> bool {
    commutative_foldl(adder::<F>())
}

/// A sum of zeros is zero.
pub proof fn lemma_sum_of_zeros<F: Numeric>(z: F, s: Seq<F>)
    requires
        z.add_spec(z) == z,
        forall|i: int| 0 <= i < s.len() ==> #[trigger] s[i] == z,
    ensures
        sum_from(z, s) == z,
    decreases s.len(),
{
    if s.len() > 0 {
        lemma_sum_of_zeros(z, s.drop_last());
    }
}

/// Where addition commutes, two sequences that hold the same terms, in
/// whatever order, have the same sum.
pub proof fn lemma_sum_of_permutation<F: Numeric>(z: F, s: Seq<F>, t: Seq<F>)
    requires
        add_commutes::<F>(),
        s.to_multiset() == t.to_multiset(),
    ensures
        sum_from(z, s) == sum_from(z, t),
{
    lemma_fold_left_permutation(s, t, adder::<F>(), z);
}

} // verus!
