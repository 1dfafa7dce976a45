//! The elementary operations on doubles, as a parameter of the library.
//!
//! The operators of this crate never inspect how a sum or a quotient is
//! formed. They say which operation is applied to which operands and in what
//! order; the operations themselves come from an implementation of
//! [`Arithmetic`]. Nothing is assumed of that implementation: a contract
//! speaks of a result only as "a value that the operation returned for these
//! operands".

use vstd::prelude::*;

verus! {

/// Arithmetic on doubles given as bit patterns.
///
/// An implementation for IEEE-754 converts each operand from its bits,
/// applies the operation and returns the bits of the result.
pub trait Arithmetic {
    /// `a + b`.
    fn add(a: u64, b: u64) -> u64;

    /// `a - b`.
    fn sub(a: u64, b: u64) -> u64;

    /// `a * b`.
    fn mul(a: u64, b: u64) -> u64;

    /// `a / b`.
    fn div(a: u64, b: u64) -> u64;

    /// The square root of `a`.
    fn sqrt(a: u64) -> u64;

    /// The double nearest to the count `n`.
    fn from_count(n: usize) -> u64;
}

/// `r` is a result of `A::add(a, b)`.
pub open spec fn added<A: Arithmetic>(a: u64, b: u64, r: u64) -> bool {
    call_ensures(A::add, (a, b), r)
}

/// `r` is a result of `A::sub(a, b)`.
pub open spec fn subtracted<A: Arithmetic>(a: u64, b: u64, r: u64) -> bool {
    call_ensures(A::sub, (a, b), r)
}

/// `r` is a result of `A::mul(a, b)`.
pub open spec fn multiplied<A: Arithmetic>(a: u64, b: u64, r: u64) -> bool {
    call_ensures(A::mul, (a, b), r)
}

/// `r` is a result of `A::div(a, b)`.
pub open spec fn divided<A: Arithmetic>(a: u64, b: u64, r: u64) -> bool {
    call_ensures(A::div, (a, b), r)
}

/// `r` is a result of `A::sqrt(a)`.
pub open spec fn rooted<A: Arithmetic>(a: u64, r: u64) -> bool {
    call_ensures(A::sqrt, (a,), r)
}

/// `r` is a result of `A::from_count(n)`.
pub open spec fn counted<A: Arithmetic>(n: usize, r: u64) -> bool {
    call_ensures(A::from_count, (n,), r)
}

/// `r` is `a` divided by the count `n`: the count is converted, and `a` is
/// divided by what the conversion gave.
pub open spec fn quotient<A: Arithmetic>(a: u64, n: usize, r: u64) -> bool {
    exists|c: u64| #[trigger] counted::<A>(n, c) && divided::<A>(a, c, r)
}

/// `r` is what adding the terms `xs` to `start`, one after the other from the
/// left, gave: `(..((start + xs[0]) + xs[1]) + ..)`.
pub open spec fn total<A: Arithmetic>(start: u64, xs: Seq<u64>, r: u64) -> bool
    decreases xs.len(),
{
    if xs.len() == 0 {
        r == start
    } else {
        exists|p: u64| total::<A>(start, xs.drop_last(), p) && #[trigger] added::<A>(p, xs.last(), r)
    }
}

/// Divides `a` by the count `n`.
pub fn divide_by_count<A: Arithmetic>(a: u64, n: usize) -> (r: u64)
    ensures
        quotient::<A>(a, n, r),
{
    let c: u64 = A::from_count(n);
    let r: u64 = A::div(a, c);
    assert(counted::<A>(n, c) && divided::<A>(a, c, r));
    r
}

/// One more term added to a running total.
pub proof fn lemma_total_extend<A: Arithmetic>(start: u64, xs: Seq<u64>, p: u64, x: u64, r: u64)
    requires
        total::<A>(start, xs, p),
        added::<A>(p, x, r),
    ensures
        total::<A>(start, xs.push(x), r),
{
    assert(xs.push(x).drop_last() =~= xs);
    assert(xs.push(x).last() == x);
}

} // verus!
