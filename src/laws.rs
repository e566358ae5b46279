use vstd::prelude::*;

use crate::data::{dot_held, dot_of, products, sum_of, Data};
use crate::element::{trunc_quotient, NumericElement};

verus! {

/// A sum of non-negative integers is non-negative.
proof fn lemma_sum_nonnegative(s: Seq<int>)
    requires
        forall|i: int| 0 <= i < s.len() ==> #[trigger] s[i] >= 0,
    ensures
        sum_of(s) >= 0,
    decreases s.len(),
{
    if s.len() > 0 {
        lemma_sum_nonnegative(s.drop_last());
    }
}

/// When the number of elements divides their sum, the mean times the number
/// of elements gives the sum back.
pub proof fn lemma_mean_times_count<T: NumericElement>(d: Data<T>)
    requires
        d.data.len() > 0,
        sum_of(d.values()) % (d.data.len() as int) == 0,
    ensures
        trunc_quotient(sum_of(d.values()), d.data.len() as int) * (d.data.len() as int) == sum_of(
            d.values(),
        ),
{
    let s = sum_of(d.values());
    let n = d.data.len() as int;
    vstd::arithmetic::div_mod::lemma_fundamental_div_mod(s, n);
    let q = s / n;
    assert(s == n * q);
    if s < 0 {
        assert(-s == n * (-q)) by (nonlinear_arith)
            requires
                s == n * q,
        ;
        vstd::arithmetic::div_mod::lemma_div_multiples_vanish(-q, n);
        assert((-s) / n == -q);
    }
    assert(trunc_quotient(s, n) == q);
    assert(q * n == s) by (nonlinear_arith)
        requires
            s == n * q,
    ;
}

/// The dot product of two buffers of equal length does not depend on their
/// order, and neither does whether its terms and running totals fit the
/// element type.
pub proof fn lemma_dot_symmetric<T: NumericElement>(a: Data<T>, b: Data<T>)
    requires
        a.data.len() == b.data.len(),
    ensures
        dot_of(a.values(), b.values()) == dot_of(b.values(), a.values()),
        dot_held::<T>(a.values(), b.values()) == dot_held::<T>(b.values(), a.values()),
{
    let (x, y) = (a.values(), b.values());
    assert forall|i: int| 0 <= i < x.len() implies #[trigger] (x[i] * y[i]) == y[i] * x[i] by {
        vstd::arithmetic::mul::lemma_mul_is_commutative(x[i], y[i]);
    }
    assert(products(x, y) =~= products(y, x));
}

/// The dot product of a buffer with itself is never negative.
pub proof fn lemma_dot_self_nonnegative<T: NumericElement>(a: Data<T>)
    ensures
        dot_of(a.values(), a.values()) >= 0,
{
    let x = a.values();
    let p = products(x, x);
    assert forall|i: int| 0 <= i < p.len() implies #[trigger] p[i] >= 0 by {
        let v = x[i];
        assert(v * v >= 0) by (nonlinear_arith);
    }
    lemma_sum_nonnegative(p);
}

} // verus!
