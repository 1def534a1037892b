//! Fixed-point numbers, how they are rounded, and how they read in text.

use vstd::prelude::*;
use vstd::string::*;

use crate::text::{decimal, decimal_text};

verus! {

/// One whole: lengths, fractions, percentages and font sizes are counted in
/// billionths.
pub const ONE: i64 = 1_000_000_000;

/// A colour: red, green and blue in ten-thousandths of full intensity.
pub type Color = (u32, u32, u32);

/// The quotient, rounded to the nearest whole number, and to the even one of
/// two that are equally near.
pub open spec fn half_even(n: nat, d: nat) -> nat {
    let q = n / d;
    let r = n % d;
    if 2 * r < d || (2 * r == d && q % 2 == 0) {
        q
    } else {
        q + 1
    }
}

/// The quotient, rounded to the nearest whole number, and up where two are
/// equally near.
pub open spec fn half_up(n: nat, d: nat) -> nat {
    let q = n / d;
    let r = n % d;
    if 2 * r < d {
        q
    } else {
        q + 1
    }
}

/// The quotient, rounded up.
pub open spec fn rounded_up(n: nat, d: nat) -> nat {
    if n % d == 0 {
        n / d
    } else {
        n / d + 1
    }
}

proof fn lemma_quotient_room(n: u128, d: u128)
    requires
        d > 0,
    ensures
        n % d > 0 ==> n / d < u128::MAX,
{
    if d == 1 {
        assert(n % 1 == 0);
    } else {
        assert(n / d <= n / 2) by (nonlinear_arith)
            requires
                d >= 2,
        ;
    }
}

/// Divides and rounds to the nearest, ties to even.
pub fn divide_half_even(n: u128, d: u128) -> (r: u128)
    requires
        0 < d <= u64::MAX,
    ensures
        r == half_even(n as nat, d as nat),
{
    let q: u128 = n / d;
    let rest: u128 = n % d;
    proof {
        lemma_quotient_room(n, d);
    }
    if 2 * rest < d || (2 * rest == d && q % 2 == 0) {
        q
    } else {
        q + 1
    }
}

/// Divides and rounds to the nearest, ties up.
pub fn divide_half_up(n: u128, d: u128) -> (r: u128)
    requires
        0 < d <= u64::MAX,
    ensures
        r == half_up(n as nat, d as nat),
{
    let q: u128 = n / d;
    let rest: u128 = n % d;
    proof {
        lemma_quotient_room(n, d);
    }
    if 2 * rest < d {
        q
    } else {
        q + 1
    }
}

/// Divides and rounds up.
pub fn divide_up(n: u128, d: u128) -> (r: u128)
    requires
        d > 0,
    ensures
        r == rounded_up(n as nat, d as nat),
{
    proof {
        lemma_quotient_room(n, d);
    }
    if n % d == 0 {
        n / d
    } else {
        n / d + 1
    }
}

/// How far apart the numbers of double precision lie at this number.
pub open spec fn double_step(n: u64) -> nat {
    if n < 9_007_199_254_740_992 {
        1
    } else if n < 18_014_398_509_481_984 {
        2
    } else if n < 36_028_797_018_963_968 {
        4
    } else if n < 72_057_594_037_927_936 {
        8
    } else if n < 144_115_188_075_855_872 {
        16
    } else if n < 288_230_376_151_711_744 {
        32
    } else if n < 576_460_752_303_423_488 {
        64
    } else if n < 1_152_921_504_606_846_976 {
        128
    } else if n < 2_305_843_009_213_693_952 {
        256
    } else if n < 4_611_686_018_427_387_904 {
        512
    } else if n < 9_223_372_036_854_775_808 {
        1024
    } else {
        2048
    }
}

/// The number of double precision that is nearest to this number.
pub open spec fn as_double(n: u64) -> nat {
    half_even(n as nat, double_step(n)) * double_step(n)
}

/// Rounds to the nearest number of double precision.
pub fn to_double(n: u64) -> (r: u128)
    ensures
        r == as_double(n),
        r <= 18_446_744_073_709_551_616,
        n < 9_007_199_254_740_992 ==> r == n,
{
    let step: u128 = if n < 9_007_199_254_740_992 {
            1
        } else if n < 18_014_398_509_481_984 {
            2
        } else if n < 36_028_797_018_963_968 {
            4
        } else if n < 72_057_594_037_927_936 {
            8
        } else if n < 144_115_188_075_855_872 {
            16
        } else if n < 288_230_376_151_711_744 {
            32
        } else if n < 576_460_752_303_423_488 {
            64
        } else if n < 1_152_921_504_606_846_976 {
            128
        } else if n < 2_305_843_009_213_693_952 {
            256
        } else if n < 4_611_686_018_427_387_904 {
            512
        } else if n < 9_223_372_036_854_775_808 {
            1024
        } else {
            2048
        };
    proof {
        assert(half_even(n as nat, 1) == n);
        let q = n as nat / step as nat;
        assert(half_even(n as nat, step as nat) <= q + 1 <= 9_007_199_254_740_992 || step == 1)
            by (nonlinear_arith)
            requires
                half_even(n as nat, step as nat) <= q + 1,
                q == n as nat / step as nat,
                step >= 1,
                n < 9_007_199_254_740_992 * step,
        ;
    }
    let q: u128 = divide_half_even(n as u128, step);
    assert(q * step <= 18_446_744_073_709_551_616) by (nonlinear_arith)
        requires
            1 <= step <= 2_048,
            q <= 9_007_199_254_740_992,
    ;
    q * step
}

/// Whether the number of double precision nearest to a quotient is at most
/// `m / unit`. That is such a number itself, and the next one is `(m + 1) / unit`.
pub open spec fn double_at_most(n: nat, d: nat, m: nat, unit: nat) -> bool {
    if m % 2 == 0 {
        2 * n * unit <= (2 * m + 1) * d
    } else {
        2 * n * unit < (2 * m + 1) * d
    }
}

/// A number of tenths with one digit behind the point.
pub open spec fn tenths(n: nat) -> Seq<char> {
    decimal(n / 10) + "."@ + decimal(n % 10)
}

/// Writes a number of tenths with one digit behind the point.
pub fn tenths_text(n: u64) -> (r: String)
    ensures
        r@ == tenths(n as nat),
{
    let mut s = decimal_text(n / 10);
    s.append(".");
    s.append(decimal_text(n % 10).as_str());
    s
}

/// A number that may be negative, zero included: its sign and its amount in
/// billionths.
#[derive(Clone, Copy, Debug)]
pub struct Signed {
    pub negative: bool,
    pub amount: u64,
}

/// The number without decimals, ties to even, with a minus sign for a negative
/// one even where nothing is left of it.
pub open spec fn whole(n: Signed) -> Seq<char> {
    let digits = decimal(half_even(n.amount as nat, ONE as nat));
    if n.negative {
        "-"@ + digits
    } else {
        digits
    }
}

/// The number rounded to the nearest whole, ties away from zero.
pub open spec fn nearest(n: Signed) -> int {
    let q = half_up(n.amount as nat, ONE as nat) as int;
    if n.negative {
        -q
    } else {
        q
    }
}

/// A whole number in decimal, with a minus sign where it is below zero.
pub open spec fn signed_decimal(n: int) -> Seq<char> {
    if n < 0 {
        "-"@ + decimal((-n) as nat)
    } else {
        decimal(n as nat)
    }
}

proof fn lemma_billionths(n: u64)
    ensures
        half_even(n as nat, ONE as nat) <= u64::MAX / 2,
        half_up(n as nat, ONE as nat) <= u64::MAX / 2,
{
    let d = ONE as nat;
    assert(n as nat / d <= u64::MAX / 4) by (nonlinear_arith)
        requires
            d == 1_000_000_000,
            n <= u64::MAX,
    ;
}

impl Signed {
    /// Writes the number without decimals.
    pub fn whole_text(self) -> (r: String)
        ensures
            r@ == whole(self),
    {
        proof {
            lemma_billionths(self.amount);
        }
        let q: u128 = divide_half_even(self.amount as u128, ONE as u128);
        let digits = decimal_text(q as u64);
        if self.negative {
            let mut s = "-".to_owned();
            s.append(digits.as_str());
            s
        } else {
            digits
        }
    }

    /// Writes the nearest whole number.
    pub fn nearest_text(self) -> (r: String)
        ensures
            r@ == signed_decimal(nearest(self)),
    {
        proof {
            lemma_billionths(self.amount);
        }
        let q: u128 = divide_half_up(self.amount as u128, ONE as u128);
        let digits = decimal_text(q as u64);
        if self.negative && q > 0 {
            let mut s = "-".to_owned();
            s.append(digits.as_str());
            s
        } else {
            digits
        }
    }
}

proof fn lemma_divided(n: nat, d: nat)
    requires
        d > 0,
    ensures
        n == (n / d) * d + n % d,
        n % d < d,
        (n / d + 1) * d == (n / d) * d + d,
        (n / d - 1) * d == (n / d) * d - d,
{
    assert(n == (n / d) * d + n % d && n % d < d) by (nonlinear_arith)
        requires
            d > 0,
    ;
    let q = n / d;
    assert((q + 1) * d == q * d + d && (q - 1) * d == q * d - d) by (nonlinear_arith);
}

/// Rounding comes to the nearest whole number, to the even one of two that are
/// equally near.
pub proof fn half_even_is_nearest(n: nat, d: nat)
    requires
        d > 0,
    ensures
        -(d as int) <= 2 * (half_even(n, d) * d - n) <= d,
        2 * (half_even(n, d) * d - n) == d || 2 * (half_even(n, d) * d - n) == -(d as int)
            ==> half_even(n, d) % 2 == 0,
{
    lemma_divided(n, d);
}

/// Rounding comes to the nearest whole number, to the larger one of two that are
/// equally near.
pub proof fn half_up_is_nearest(n: nat, d: nat)
    requires
        d > 0,
    ensures
        -(d as int) < 2 * (half_up(n, d) * d - n) <= d,
{
    lemma_divided(n, d);
}

/// Rounding up comes to the least whole number that is not below the quotient.
pub proof fn rounded_up_is_least(n: nat, d: nat)
    requires
        d > 0,
    ensures
        n <= rounded_up(n, d) * d < n + d,
{
    lemma_divided(n, d);
}

/// Tenths are written as the whole part, a point and one digit.
pub proof fn tenths_have_one_digit(n: nat)
    ensures
        exists|a: nat, b: nat|
            n == 10 * a + b && b < 10 && tenths(n) == #[trigger] decimal(a) + seq!['.']
                + #[trigger] decimal(b) && decimal(b).len() == 1,
{
    reveal_strlit(".");
    assert("."@ =~= seq!['.']);
    assert(n == 10 * (n / 10) + n % 10);
    assert(tenths(n) == decimal(n / 10) + seq!['.'] + decimal(n % 10));
}

/// What a number is in billionths.
pub open spec fn billionths(n: Signed) -> int {
    if n.negative {
        -(n.amount as int)
    } else {
        n.amount as int
    }
}

/// A whole number that is nearest to a number of billionths, the one further from
/// zero of two that are equally near.
pub open spec fn is_rounded(n: int, billionths: int) -> bool {
    let off = 2 * (n * 1_000_000_000 - billionths);
    if billionths >= 0 {
        -1_000_000_000 < off <= 1_000_000_000
    } else {
        -1_000_000_000 <= off < 1_000_000_000
    }
}

/// A whole number as it is written: its digits, behind a minus sign where it is
/// below zero.
pub open spec fn written(n: int) -> Seq<char> {
    if n < 0 {
        seq!['-'] + decimal((-n) as nat)
    } else {
        decimal(n as nat)
    }
}

/// A number is rounded to the nearest whole one, of either sign.
pub proof fn nearest_is_rounded(n: Signed)
    ensures
        is_rounded(nearest(n), billionths(n)),
        signed_decimal(nearest(n)) == written(nearest(n)),
{
    half_up_is_nearest(n.amount as nat, ONE as nat);
    reveal_strlit("-");
    assert("-"@ =~= seq!['-']);
}

/// A number without decimals keeps its sign, and its amount to the nearest whole
/// number.
pub proof fn whole_keeps_the_sign(n: Signed)
    ensures
        exists|q: nat|
            {
                &&& -1_000_000_000 <= 2 * (q * 1_000_000_000 - n.amount) <= 1_000_000_000
                &&& whole(n) == if n.negative {
                    seq!['-'] + #[trigger] decimal(q)
                } else {
                    decimal(q)
                }
            },
{
    half_even_is_nearest(n.amount as nat, ONE as nat);
    reveal_strlit("-");
    assert("-"@ =~= seq!['-']);
    let q = half_even(n.amount as nat, ONE as nat);
    assert(whole(n) == if n.negative {
        seq!['-'] + decimal(q)
    } else {
        decimal(q)
    });
}

/// A number in double precision is off by no more than half of the gap between the
/// numbers there, and a number below two to the power of 53 is not off at all.
pub proof fn double_is_close(n: u64)
    ensures
        n < 9_007_199_254_740_992 ==> as_double(n) == n,
        9_007_199_254_740_992 * (as_double(n) - n) <= n,
        9_007_199_254_740_992 * (n - as_double(n)) <= n,
{
    let d = double_step(n);
    half_even_is_nearest(n as nat, d);
    assert(n >= 9_007_199_254_740_992 ==> 4_503_599_627_370_496 * d <= n);
    if d == 1 {
        assert(half_even(n as nat, 1) == n);
    }
}

} // verus!
