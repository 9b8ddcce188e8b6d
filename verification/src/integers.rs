//! The built-in signed integers as numeric types: they obey every law that the
//! properties of the controllers ask for, with `0` as zero. Their addition
//! wraps in specifications, so the order of adding never matters to the
//! result, though a controller only ever adds where nothing overflows.

use crate::numeric::{
    add_commutes, always_comparable, is_zero, obeys_arith, obeys_order, zero, zero_laws,
};
use vstd::prelude::*;
use vstd::std_specs::ops::AddSpec;

verus! {

/// Adding two terms to a 64-bit running sum gives the same in either order.
proof fn lemma_i64_add_swaps(v: i64, x: i64, y: i64)
    ensures
        ((v + x) as i64 + y) as i64 == ((v + y) as i64 + x) as i64,
{
    assert(((v + x) as i64 + y) as i64 == ((v + y) as i64 + x) as i64) by (bit_vector);
}

/// `i64` obeys its operators' specifications and every law, with `0` as
/// zero, which is what `zero()` is once a controller has been made.
pub proof fn lemma_i64_is_lawful()
    ensures
        obeys_arith::<i64>(),
        obeys_order::<i64>(),
        zero_laws::<i64>(0),
        always_comparable::<i64>(),
        add_commutes::<i64>(),
        is_zero(zero::<i64>()) ==> zero::<i64>() == 0,
{
    assert forall|x: i64, y: i64, v: i64| #[trigger]
        v.add_spec(x).add_spec(y) == v.add_spec(y).add_spec(x) by {
        lemma_i64_add_swaps(v, x, y);
    }
}

/// Adding two terms to a 32-bit running sum gives the same in either order.
proof fn lemma_i32_add_swaps(v: i32, x: i32, y: i32)
    ensures
        ((v + x) as i32 + y) as i32 == ((v + y) as i32 + x) as i32,
{
    assert(((v + x) as i32 + y) as i32 == ((v + y) as i32 + x) as i32) by (bit_vector);
}

/// `i32` obeys its operators' specifications and every law, with `0` as
/// zero, which is what `zero()` is once a controller has been made.
pub proof fn lemma_i32_is_lawful()
    ensures
        obeys_arith::<i32>(),
        obeys_order::<i32>(),
        zero_laws::<i32>(0),
        always_comparable::<i32>(),
        add_commutes::<i32>(),
        is_zero(zero::<i32>()) ==> zero::<i32>() == 0,
{
    assert forall|x: i32, y: i32, v: i32| #[trigger]
        v.add_spec(x).add_spec(y) == v.add_spec(y).add_spec(x) by {
        lemma_i32_add_swaps(v, x, y);
    }
}

} // verus!
