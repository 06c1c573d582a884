use vstd::prelude::*;

use vstd::arithmetic::div_mod::lemma_fundamental_div_mod;

verus! {

/// `a / b` rounded towards zero, as integer division does on machine
/// integers.
pub open spec fn div_toward_zero(a: int, b: int) -> int {
    if (a >= 0) == (b > 0) {
        if a >= 0 { a / b } else { (-a) / (-b) }
    } else {
        if a >= 0 { -(a / (-b)) } else { -((-a) / b) }
    }
}

/// Milliseconds between two readings of a performance counter that ticks
/// `frequency` times a second: `1000 * (end - start) / frequency`, rounded
/// towards zero.
pub fn elapsed_ms(start: i64, end: i64, frequency: i64) -> (ms: i64)
    requires
        frequency != 0,
        i64::MIN <= 1000 * (end - start) <= i64::MAX,
        i64::MIN <= end - start,
    ensures
        ms == div_toward_zero(1000 * (end - start), frequency as int),
{
    let ticks: i128 = 1000 * (end as i128 - start as i128);
    let freq: i128 = frequency as i128;
    let result: i128 = if (ticks >= 0) == (freq > 0) {
        if ticks >= 0 { ticks / freq } else { (-ticks) / (-freq) }
    } else {
        if ticks >= 0 { -(ticks / (-freq)) } else { -((-ticks) / freq) }
    };
    proof {
        let a = ticks as int;
        let b = freq as int;
        if a >= 0 && b > 0 {
            assert(0 <= a / b <= a) by (nonlinear_arith)
                requires a >= 0, b > 0;
        } else if a < 0 && b < 0 {
            assert(0 <= (-a) / (-b) <= -a) by (nonlinear_arith)
                requires a < 0, b < 0;
        } else if a >= 0 {
            assert(0 <= a / (-b) <= a) by (nonlinear_arith)
                requires a >= 0, b < 0;
        } else {
            assert(0 <= (-a) / b <= -a) by (nonlinear_arith)
                requires a < 0, b > 0;
        }
    }
    result as i64
}

/// The elapsed time is the quotient of the whole tick product
/// `1000 * (end - start)` by the frequency, rounded towards zero: what is
/// left over lies strictly within one frequency of zero, on the side of the
/// product (so `ms * frequency` never overshoots the product).
pub proof fn lemma_elapsed_ms_is_truncated_quotient(start: i64, end: i64, frequency: i64)
    requires
        frequency != 0,
        i64::MIN <= 1000 * (end - start) <= i64::MAX,
        i64::MIN <= end - start,
    ensures
        ({
            let product = 1000 * (end - start);
            let ms = div_toward_zero(product, frequency as int);
            let f = frequency as int;
            let magnitude = if f > 0 { f } else { -f };
            &&& product >= 0 ==> 0 <= product - ms * f < magnitude
            &&& product < 0 ==> 0 <= ms * f - product < magnitude
        }),
{
    let a = 1000 * (end - start);
    let b = frequency as int;
    let q = div_toward_zero(a, b);
    if a >= 0 && b > 0 {
        lemma_fundamental_div_mod(a, b);
        assert(a - q * b == a % b) by (nonlinear_arith)
            requires
                a == b * (a / b) + a % b,
                q == a / b,
        ;
    } else if a < 0 && b < 0 {
        lemma_fundamental_div_mod(-a, -b);
        assert(q * b - a == (-a) % (-b)) by (nonlinear_arith)
            requires
                -a == (-b) * ((-a) / (-b)) + (-a) % (-b),
                q == (-a) / (-b),
        ;
    } else if a >= 0 {
        lemma_fundamental_div_mod(a, -b);
        assert(a - q * b == a % (-b)) by (nonlinear_arith)
            requires
                a == (-b) * (a / (-b)) + a % (-b),
                q == -(a / (-b)),
        ;
    } else {
        lemma_fundamental_div_mod(-a, b);
        assert(q * b - a == (-a) % b) by (nonlinear_arith)
            requires
                -a == b * ((-a) / b) + (-a) % b,
                q == -((-a) / b),
        ;
    }
}

} // verus!
